//! Runs of digits and what they are worth, in plain arithmetic: the words in which
//! the laws on numbers speak.
use vstd::prelude::*;
use crate::decimal::{
    all_digits, decimal_text, decimal_value, digit_value, is_digit, lemma_decimal_text, pow10,
    zero_padded, zeros,
};

verus! {

/// A run of decimal digits, which may be empty.
pub open spec fn is_run(s: Seq<char>) -> bool {
    forall|i: int| 0 <= i < s.len() ==> '0' <= #[trigger] s[i] <= '9'
}

/// What a run of digits is worth: each digit ten times the one behind it.
pub open spec fn worth(s: Seq<char>) -> int
    decreases s.len(),
{
    if s.len() == 0 {
        0
    } else {
        10 * worth(s.drop_last()) + (s.last() as int - 48)
    }
}

/// Ten, so many times multiplied.
pub open spec fn ten_to(n: nat) -> int
    decreases n,
{
    if n == 0 {
        1
    } else {
        ten_to((n - 1) as nat) * 10
    }
}

/// A run of that many noughts.
pub open spec fn noughts(n: nat) -> Seq<char> {
    Seq::new(n, |i: int| '0')
}

pub proof fn lemma_run(s: Seq<char>)
    ensures
        is_run(s) <==> all_digits(s),
        is_run(s) ==> worth(s) == decimal_value(s),
    decreases s.len(),
{
    assert forall|i: int| 0 <= i < s.len() implies ('0' <= #[trigger] s[i] <= '9') == is_digit(
        s[i],
    ) by {}
    if is_run(s) {
        assert(all_digits(s));
    }
    if all_digits(s) {
        assert forall|i: int| 0 <= i < s.len() implies '0' <= #[trigger] s[i] <= '9' by {
            assert(is_digit(s[i]));
        }
    }
    if is_run(s) && s.len() > 0 {
        assert forall|i: int| 0 <= i < s.drop_last().len() implies '0'
            <= #[trigger] s.drop_last()[i] <= '9' by {
            assert(s.drop_last()[i] == s[i]);
        }
        lemma_run(s.drop_last());
        assert('0' <= s[s.len() - 1] <= '9');
        assert(digit_value(s.last()) == s.last() as int - 48);
    }
}

pub proof fn lemma_ten_to(n: nat)
    ensures
        ten_to(n) == pow10(n),
        ten_to(n) > 0,
    decreases n,
{
    if n > 0 {
        lemma_ten_to((n - 1) as nat);
    }
}

pub proof fn lemma_noughts(n: nat)
    ensures
        noughts(n) == zeros(n),
{
    assert(noughts(n) =~= zeros(n));
}

/// The numeral of a number is a run of digits that is worth the number, without a
/// nought in front of another digit. No other text is.
pub proof fn law_numeral_names_its_number(n: nat)
    ensures
        is_run(decimal_text(n)),
        worth(decimal_text(n)) == n,
        decimal_text(n).len() > 0,
        decimal_text(n).len() > 1 ==> decimal_text(n)[0] != '0',
    decreases n,
{
    lemma_decimal_text(n);
    lemma_run(decimal_text(n));
    if n >= 10 {
        law_numeral_names_its_number(n / 10);
        assert(decimal_text(n)[0] == decimal_text(n / 10)[0]);
        if decimal_text(n / 10).len() == 1 {
            let d = decimal_text(n / 10);
            reveal_with_fuel(worth, 2);
            assert(worth(d) == d[0] as int - 48);
        }
    }
}

/// A numeral filled up to a width has that width, or is the bare numeral where that
/// is longer; filling never changes what it is worth.
pub proof fn law_filling_keeps_the_worth(n: nat, width: nat)
    ensures
        is_run(zero_padded(n, width)),
        worth(zero_padded(n, width)) == n,
        zero_padded(n, width).len() >= width,
        zero_padded(n, width).len() > width ==> zero_padded(n, width) == decimal_text(n),
{
    crate::decimal::lemma_zero_padded(n, width);
    lemma_run(zero_padded(n, width));
}

} // verus!
