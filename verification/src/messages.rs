//! The reply to a request for messages.

use vstd::prelude::*;

verus! {

/// The place of the first message that a reply holds. A reply has a gap where a message
/// does not exist.
pub open spec fn first_present<M>(messages: Seq<Option<M>>) -> Option<int>
    decreases messages.len(),
{
    if messages.len() == 0 {
        None
    } else {
        match first_present(messages.drop_last()) {
            Some(i) => Some(i),
            None => if messages.last() is Some {
                Some(messages.len() - 1)
            } else {
                None
            },
        }
    }
}

proof fn lemma_first_present<M>(messages: Seq<Option<M>>)
    ensures
        match first_present(messages) {
            Some(i) => {
                &&& 0 <= i < messages.len()
                &&& messages[i] is Some
                &&& forall|j: int| 0 <= j < i ==> #[trigger] messages[j] is None
            },
            None => forall|j: int| 0 <= j < messages.len() ==> #[trigger] messages[j] is None,
        },
    decreases messages.len(),
{
    if messages.len() > 0 {
        let rest = messages.drop_last();
        lemma_first_present(rest);
        assert forall|j: int| 0 <= j < rest.len() implies rest[j] == messages[j] by {}
    }
}

/// Where a prefix of the reply holds a message, so does the reply, at the same place.
proof fn lemma_first_present_in_prefix<M>(messages: Seq<Option<M>>, n: int)
    requires
        0 <= n <= messages.len(),
        first_present(messages.take(n)) is Some,
    ensures
        first_present(messages) == first_present(messages.take(n)),
    decreases messages.len() - n,
{
    if n < messages.len() {
        assert(messages.take(n + 1).drop_last() == messages.take(n));
        lemma_first_present_in_prefix(messages, n + 1);
    } else {
        assert(messages.take(n) == messages);
    }
}

/// Finds the first message that a reply holds.
pub fn first_message<M>(messages: &Vec<Option<M>>) -> (found: Option<usize>)
    ensures
        first_present(messages@) == (match found {
            Some(i) => Some(i as int),
            None => None,
        }),
        match found {
            Some(i) => {
                &&& i < messages@.len()
                &&& messages@[i as int] is Some
                &&& forall|j: int| 0 <= j < i ==> #[trigger] messages@[j] is None
            },
            None => forall|j: int| 0 <= j < messages@.len() ==> #[trigger] messages@[j] is None,
        },
{
    let mut i: usize = 0;
    while i < messages.len()
        invariant
            i <= messages@.len(),
            first_present(messages@.take(i as int)) is None,
        decreases messages@.len() - i,
    {
        assert(messages@.take(i + 1).drop_last() == messages@.take(i as int));
        if messages[i].is_some() {
            proof {
                lemma_first_present_in_prefix(messages@, i + 1);
                lemma_first_present(messages@);
            }
            return Some(i);
        }
        i = i + 1;
    }
    assert(messages@.take(i as int) == messages@);
    proof {
        lemma_first_present(messages@);
    }
    None
}

/// The message that a reply is taken to hold is the first one behind the gaps, wherever it
/// stands and whatever follows it.
pub proof fn law_first_message_comes_first<M>(messages: Seq<Option<M>>, i: int)
    requires
        0 <= i < messages.len(),
        messages[i] is Some,
        forall|j: int| 0 <= j < i ==> #[trigger] messages[j] is None,
    ensures
        first_present(messages) == Some(i),
{
    lemma_first_present(messages);
}

/// A reply of nothing but gaps holds no message.
pub proof fn law_gaps_hold_no_message<M>(messages: Seq<Option<M>>)
    requires
        forall|j: int| 0 <= j < messages.len() ==> #[trigger] messages[j] is None,
    ensures
        first_present(messages) is None,
{
    lemma_first_present(messages);
}

} // verus!
