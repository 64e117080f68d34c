//! Integers written in decimal.

use vstd::prelude::*;
use vstd::string::StringExecFns;

verus! {

/// The character that stands for the digit `d`.
pub open spec fn digit(d: nat) -> char {
    (('0' as u32) + d) as char
}

/// `n` in decimal, without leading zeros.
pub open spec fn digits(n: nat) -> Seq<char>
    decreases n,
{
    if n < 10 {
        seq![digit(n)]
    } else {
        digits(n / 10).push(digit(n % 10))
    }
}

/// `i` in decimal, with a leading minus sign where it is negative.
pub open spec fn decimal(i: int) -> Seq<char> {
    if i < 0 {
        seq!['-'] + digits((-i) as nat)
    } else {
        digits(i as nat)
    }
}

/// The number that a text of digits stands for.
spec fn value(s: Seq<char>) -> int
    decreases s.len(),
{
    if s.len() == 0 {
        0
    } else {
        10 * value(s.drop_last()) + (s.last() as int - '0' as int)
    }
}

proof fn lemma_value_of_digits(n: nat)
    ensures
        value(digits(n)) == n,
    decreases n,
{
    reveal_with_fuel(value, 2);
    if n < 10 {
        assert(digits(n).drop_last() == Seq::<char>::empty());
    } else {
        lemma_value_of_digits(n / 10);
        assert(digits(n).drop_last() == digits(n / 10));
    }
}

proof fn lemma_digits_are_digits(n: nat)
    ensures
        digits(n).len() > 0,
        forall|k: int| 0 <= k < digits(n).len() ==> '0' <= #[trigger] digits(n)[k] <= '9',
    decreases n,
{
    if n >= 10 {
        lemma_digits_are_digits(n / 10);
    }
}

/// Decimal text consists of digits and, at most, a minus sign.
pub proof fn lemma_decimal_characters(i: int)
    ensures
        decimal(i).len() > 0,
        forall|k: int|
            0 <= k < decimal(i).len() ==> ('0' <= #[trigger] decimal(i)[k] <= '9' || decimal(i)[k]
                == '-'),
{
    if i < 0 {
        lemma_digits_are_digits((-i) as nat);
    } else {
        lemma_digits_are_digits(i as nat);
    }
}

/// Two integers with the same decimal text are the same.
pub proof fn lemma_decimal_injective(i: int, j: int)
    requires
        decimal(i) == decimal(j),
    ensures
        i == j,
{
    let m: nat = if i < 0 {
        (-i) as nat
    } else {
        i as nat
    };
    let n: nat = if j < 0 {
        (-j) as nat
    } else {
        j as nat
    };
    lemma_digits_are_digits(m);
    lemma_digits_are_digits(n);
    lemma_value_of_digits(m);
    lemma_value_of_digits(n);
    assert('-' < digits(m)[0] && '-' < digits(n)[0]);
    assert((i < 0) == (decimal(i)[0] == '-'));
    assert((j < 0) == (decimal(j)[0] == '-'));
    if i < 0 {
        assert(decimal(i).skip(1) == digits(m));
        assert(decimal(j).skip(1) == digits(n));
    }
}

fn digit_text(d: u64) -> (text: &'static str)
    requires
        d < 10,
    ensures
        text@ == seq![digit(d as nat)],
{
    proof {
        reveal_strlit("0");
        reveal_strlit("1");
        reveal_strlit("2");
        reveal_strlit("3");
        reveal_strlit("4");
        reveal_strlit("5");
        reveal_strlit("6");
        reveal_strlit("7");
        reveal_strlit("8");
        reveal_strlit("9");
    }
    if d == 0 {
        "0"
    } else if d == 1 {
        "1"
    } else if d == 2 {
        "2"
    } else if d == 3 {
        "3"
    } else if d == 4 {
        "4"
    } else if d == 5 {
        "5"
    } else if d == 6 {
        "6"
    } else if d == 7 {
        "7"
    } else if d == 8 {
        "8"
    } else {
        "9"
    }
}

fn push_digits(out: &mut String, n: u64)
    ensures
        final(out)@ == old(out)@ + digits(n as nat),
    decreases n,
{
    if n >= 10 {
        push_digits(out, n / 10);
    }
    out.append(digit_text(n % 10));
}

/// Writes `i` in decimal.
pub fn decimal_text(i: i64) -> (text: String)
    ensures
        text@ == decimal(i as int),
{
    let mut text = String::new();
    let wide: i128 = i as i128;
    if wide < 0 {
        proof {
            reveal_strlit("-");
        }
        text.append("-");
        push_digits(&mut text, (-wide) as u64);
    } else {
        push_digits(&mut text, wide as u64);
    }
    text
}

/// Decimal text is positional: a further digit stands behind the text of what comes before
/// it, and a single digit stands for itself.
pub proof fn law_decimal_is_positional(n: int, d: int)
    requires
        0 <= n,
        0 <= d <= 9,
    ensures
        n > 0 ==> decimal(10 * n + d).drop_last() == decimal(n),
        n == 0 ==> decimal(d).len() == 1,
        decimal(10 * n + d).last() as int == '0' as int + d,
{
}

/// A negative number is written as the number without its sign, behind a minus sign.
pub proof fn law_decimal_of_negative(n: int)
    requires
        n > 0,
    ensures
        decimal(-n).len() == decimal(n).len() + 1,
        decimal(-n)[0] == '-',
        decimal(-n).skip(1) == decimal(n),
{
}

} // verus!
