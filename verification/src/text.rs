//! Operations on text, stated over its characters.

use vstd::prelude::*;
use vstd::string::{StrSliceExecFns, StringExecFns};

verus! {

/// What stands behind the last dot of `s`, or all of `s` where it has no dot.
pub open spec fn after_last_dot(s: Seq<char>) -> Seq<char>
    decreases s.len(),
{
    if s.len() == 0 || s.last() == '.' {
        Seq::empty()
    } else {
        after_last_dot(s.drop_last()).push(s.last())
    }
}

/// Behind a dot stands what follows it, as long as that holds no dot.
pub proof fn lemma_after_last_dot(head: Seq<char>, tail: Seq<char>)
    requires
        !tail.contains('.'),
    ensures
        after_last_dot(head.push('.') + tail) == tail,
    decreases tail.len(),
{
    let s = head.push('.') + tail;
    if tail.len() > 0 {
        let shorter = tail.drop_last();
        assert forall|i: int| 0 <= i < shorter.len() implies shorter[i] != '.' by {
            assert(tail.contains(tail[i]));
        }
        lemma_after_last_dot(head, shorter);
        assert(tail.contains(tail.last()));
        assert(s.drop_last() == head.push('.') + shorter);
        assert(shorter.push(tail.last()) == tail);
    } else {
        assert(s.last() == '.');
        assert(tail == Seq::<char>::empty());
    }
}

/// Whether the two texts hold the same characters.
pub fn same_text(a: &str, b: &str) -> (same: bool)
    ensures
        same == (a@ == b@),
{
    a.to_owned() == b.to_owned()
}

/// Whether `text` begins with the characters of `prefix`.
pub fn starts_with(text: &str, prefix: &str) -> (found: bool)
    ensures
        found == prefix@.is_prefix_of(text@),
{
    let n: usize = prefix.unicode_len();
    if n > text.unicode_len() {
        return false;
    }
    let head = text.substring_char(0, n);
    assert(head@ == text@.take(n as int));
    same_text(head, prefix)
}

/// The two texts, one behind the other.
pub fn join(a: &str, b: &str) -> (joined: String)
    ensures
        joined@ == a@ + b@,
{
    let mut joined = a.to_owned();
    joined.append(b);
    joined
}

/// What stands behind the last dot of `text`; all of it where there is none.
pub fn last_piece(text: &str) -> (piece: String)
    ensures
        piece@ == after_last_dot(text@),
{
    let n: usize = text.unicode_len();
    let mut i: usize = n;
    assert(text@.take(n as int) == text@);
    while i > 0 && text.get_char(i - 1) != '.'
        invariant
            i <= n,
            n == text@.len(),
            after_last_dot(text@) == after_last_dot(text@.take(i as int)) + text@.skip(i as int),
        decreases i,
    {
        assert(text@.take(i as int).drop_last() == text@.take(i - 1));
        assert(text@.skip(i - 1) == seq![text@[i - 1]] + text@.skip(i as int));
        i = i - 1;
    }
    text.substring_char(i, n).to_owned()
}

/// A text without a dot is its own last piece.
pub proof fn law_text_without_dot_is_one_piece(s: Seq<char>)
    requires
        !s.contains('.'),
    ensures
        after_last_dot(s) == s,
    decreases s.len(),
{
    if s.len() > 0 {
        let shorter = s.drop_last();
        assert(s.contains(s.last()));
        assert forall|i: int| 0 <= i < shorter.len() implies shorter[i] != '.' by {
            assert(s.contains(s[i]));
        }
        law_text_without_dot_is_one_piece(shorter);
        assert(shorter.push(s.last()) == s);
    } else {
        assert(s == Seq::<char>::empty());
    }
}

} // verus!
