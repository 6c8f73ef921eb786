//! Decimal numerals: the number that a run of digits names and the digits
//! that name a number.
use vstd::prelude::*;

verus! {

/// An ASCII decimal digit.
pub open spec fn is_digit(c: char) -> bool {
    '0' <= c <= '9'
}

/// `s` holds ASCII decimal digits only.
pub open spec fn all_digits(s: Seq<char>) -> bool {
    forall|i: int| 0 <= i < s.len() ==> is_digit(#[trigger] s[i])
}

/// The number that the digit `c` stands for.
pub open spec fn digit_value(c: char) -> nat {
    (c as int - '0' as int) as nat
}

/// The digit that stands for `d`.
pub open spec fn digit_char(d: nat) -> char {
    (d + '0' as int) as char
}

/// The number that a run of digits names.
pub open spec fn decimal_value(s: Seq<char>) -> nat
    decreases s.len(),
{
    if s.len() == 0 {
        0
    } else {
        decimal_value(s.drop_last()) * 10 + digit_value(s.last())
    }
}

/// The shortest numeral of `n`.
pub open spec fn decimal_text(n: nat) -> Seq<char>
    decreases n,
{
    if n < 10 {
        seq![digit_char(n)]
    } else {
        decimal_text(n / 10).push(digit_char(n % 10))
    }
}

/// `n` zeros.
pub open spec fn zeros(n: nat) -> Seq<char> {
    Seq::new(n, |i: int| '0')
}

/// The numeral of `n`, filled with zeros from the left up to `width` digits.
pub open spec fn zero_padded(n: nat, width: nat) -> Seq<char> {
    let text = decimal_text(n);
    if text.len() < width {
        zeros((width - text.len()) as nat) + text
    } else {
        text
    }
}

/// Ten to the power of `n`.
pub open spec fn pow10(n: nat) -> nat
    decreases n,
{
    if n == 0 {
        1
    } else {
        10 * pow10((n - 1) as nat)
    }
}

pub proof fn lemma_pow10_positive(n: nat)
    ensures
        pow10(n) > 0,
    decreases n,
{
    if n > 0 {
        lemma_pow10_positive((n - 1) as nat);
    }
}

/// Powers of ten multiply by adding their exponents.
pub proof fn lemma_pow10_add(a: nat, b: nat)
    ensures
        pow10(a + b) == pow10(a) * pow10(b),
    decreases a,
{
    if a > 0 {
        lemma_pow10_add((a - 1) as nat, b);
        assert(pow10(a + b) == 10 * pow10((a + b - 1) as nat));
        assert((10 * pow10((a - 1) as nat)) * pow10(b) == 10 * (pow10((a - 1) as nat) * pow10(b)))
            by (nonlinear_arith);
    } else {
        assert(1 * pow10(b) == pow10(b));
    }
}

/// A greater exponent gives a greater power.
pub proof fn lemma_pow10_monotone(a: nat, b: nat)
    requires
        a <= b,
    ensures
        pow10(a) <= pow10(b),
    decreases b - a,
{
    if a < b {
        lemma_pow10_monotone(a, (b - 1) as nat);
        lemma_pow10_positive((b - 1) as nat);
    }
}

/// The largest power of ten that each of the two widest machine integers holds.
pub proof fn lemma_pow10_limits()
    ensures
        pow10(38) <= i128::MAX,
        pow10(39) > u128::MAX,
{
    reveal_with_fuel(pow10, 41);
}

/// A run of `n` digits names a number below ten to the power of `n`.
pub proof fn lemma_decimal_value_bound(s: Seq<char>)
    requires
        all_digits(s),
    ensures
        decimal_value(s) < pow10(s.len()),
    decreases s.len(),
{
    if s.len() > 0 {
        lemma_decimal_value_bound(s.drop_last());
        assert(is_digit(s.last()));
    }
}

/// A longer run of digits names at least what its front names.
pub proof fn lemma_decimal_value_front(s: Seq<char>, n: int)
    requires
        0 <= n <= s.len(),
    ensures
        decimal_value(s.take(n)) <= decimal_value(s),
    decreases s.len(),
{
    if n < s.len() {
        lemma_decimal_value_front(s.drop_last(), n);
        assert(s.drop_last().take(n) == s.take(n));
    } else {
        assert(s.take(n) == s);
    }
}

/// Two runs of digits in a row name the first, moved left by the length of the
/// second, and the second.
pub proof fn lemma_decimal_value_concat(a: Seq<char>, b: Seq<char>)
    ensures
        decimal_value(a + b) == decimal_value(a) * pow10(b.len()) + decimal_value(b),
    decreases b.len(),
{
    if b.len() == 0 {
        assert(a + b == a);
        assert(decimal_value(a) * 1 == decimal_value(a));
    } else {
        let front = b.drop_last();
        lemma_decimal_value_concat(a, front);
        assert((a + b).drop_last() == a + front);
        assert((a + b).last() == b.last());
        let d = digit_value(b.last());
        assert((decimal_value(a) * pow10(front.len()) + decimal_value(front)) * 10 + d
            == decimal_value(a) * (10 * pow10(front.len())) + (decimal_value(front) * 10 + d))
            by (nonlinear_arith);
    }
}

/// Zeros name zero.
pub proof fn lemma_zeros(n: nat)
    ensures
        all_digits(zeros(n)),
        decimal_value(zeros(n)) == 0,
    decreases n,
{
    if n > 0 {
        lemma_zeros((n - 1) as nat);
        assert(zeros(n).drop_last() == zeros((n - 1) as nat));
    }
}

/// A numeral holds digits only, at least one, and names its number.
pub proof fn lemma_decimal_text(n: nat)
    ensures
        decimal_text(n).len() > 0,
        all_digits(decimal_text(n)),
        decimal_value(decimal_text(n)) == n,
    decreases n,
{
    if n >= 10 {
        lemma_decimal_text(n / 10);
        assert(decimal_text(n).drop_last() == decimal_text(n / 10));
    } else {
        reveal_with_fuel(decimal_value, 2);
        assert(decimal_text(n).drop_last() == Seq::<char>::empty());
    }
}

/// A number below ten to the power of `width` needs at most `width` digits.
pub proof fn lemma_decimal_text_len(n: nat, width: nat)
    requires
        n < pow10(width),
        width > 0,
    ensures
        decimal_text(n).len() <= width,
    decreases width,
{
    if n >= 10 {
        if width == 1 {
            assert(pow10(1) == 10) by {
                reveal_with_fuel(pow10, 2);
            }
        }
        assert(pow10(width) == 10 * pow10((width - 1) as nat));
        lemma_decimal_text_len(n / 10, (width - 1) as nat);
    }
}

/// Filling a numeral with zeros keeps what it names.
pub proof fn lemma_zero_padded(n: nat, width: nat)
    ensures
        all_digits(zero_padded(n, width)),
        decimal_value(zero_padded(n, width)) == n,
        n < pow10(width) && width > 0 ==> zero_padded(n, width).len() == width,
{
    lemma_decimal_text(n);
    let text = decimal_text(n);
    if n < pow10(width) && width > 0 {
        lemma_decimal_text_len(n, width);
    }
    if text.len() < width {
        let fill = zeros((width - text.len()) as nat);
        lemma_zeros((width - text.len()) as nat);
        lemma_decimal_value_concat(fill, text);
        assert(0 * pow10(text.len()) == 0);
    }
}

/// Whether `c` is an ASCII decimal digit.
pub fn digit(c: char) -> (yes: bool)
    ensures
        yes == is_digit(c),
{
    '0' <= c && c <= '9'
}

/// Whether the characters from `from` up to `to` are all digits.
pub fn digits_only(chars: &Vec<char>, from: usize, to: usize) -> (yes: bool)
    requires
        from <= to <= chars@.len(),
    ensures
        yes == all_digits(chars@.subrange(from as int, to as int)),
{
    let ghost part = chars@.subrange(from as int, to as int);
    let mut i: usize = from;
    while i < to
        invariant
            from <= i <= to <= chars@.len(),
            part == chars@.subrange(from as int, to as int),
            forall|j: int| 0 <= j < i - from ==> is_digit(#[trigger] part[j]),
        decreases to - i,
    {
        if !digit(chars[i]) {
            proof {
                assert(!is_digit(part[i - from]));
            }
            return false;
        }
        i += 1;
    }
    true
}

/// The number that the digits from `from` up to `to` name, where an `i128`
/// holds it.
pub fn parse_digits(chars: &Vec<char>, from: usize, to: usize) -> (value: Option<i128>)
    requires
        from <= to <= chars@.len(),
        all_digits(chars@.subrange(from as int, to as int)),
    ensures
        match value {
            Some(v) => v == decimal_value(chars@.subrange(from as int, to as int)),
            None => decimal_value(chars@.subrange(from as int, to as int)) > i128::MAX,
        },
{
    let ghost part = chars@.subrange(from as int, to as int);
    let mut value: i128 = 0;
    let mut i: usize = from;
    while i < to
        invariant
            from <= i <= to <= chars@.len(),
            part == chars@.subrange(from as int, to as int),
            all_digits(part),
            value == decimal_value(part.take(i - from)),
        decreases to - i,
    {
        let ghost n = i - from;
        proof {
            assert(is_digit(part[n]));
            assert(part.take(n + 1).drop_last() == part.take(n));
            lemma_decimal_value_front(part, n + 1);
        }
        let d: i128 = (chars[i] as u32 - '0' as u32) as i128;
        match value.checked_mul(10) {
            Some(tens) => match tens.checked_add(d) {
                Some(next) => value = next,
                None => return None,
            },
            None => return None,
        }
        i += 1;
    }
    proof {
        assert(part.take(to - from) == part);
    }
    Some(value)
}

/// The shortest numeral of `n`.
pub fn numeral(n: u128) -> (text: String)
    ensures
        text@ == decimal_text(n as nat),
    decreases n,
{
    let last: char = (('0' as u8) + (n % 10) as u8) as char;
    if n < 10 {
        let mut text = String::new();
        text.push(last);
        proof {
            assert(text@ == decimal_text(n as nat));
        }
        text
    } else {
        let mut text = numeral(n / 10);
        text.push(last);
        text
    }
}

/// Appends `n` zeros.
pub fn push_zeros(text: &mut String, n: usize)
    ensures
        final(text)@ == old(text)@ + zeros(n as nat),
{
    let ghost start = text@;
    let mut i: usize = 0;
    proof {
        assert(start + zeros(0) == start);
    }
    while i < n
        invariant
            i <= n,
            text@ == start + zeros(i as nat),
        decreases n - i,
    {
        text.push('0');
        i += 1;
        proof {
            assert(start + zeros(i as nat) == (start + zeros((i - 1) as nat)).push('0'));
        }
    }
}

/// The numeral of `n`, filled with zeros from the left up to `width` digits.
pub fn padded_numeral(n: u128, width: usize) -> (text: String)
    ensures
        text@ == zero_padded(n as nat, width as nat),
{
    let plain = numeral(n);
    proof {
        lemma_decimal_text(n as nat);
    }
    let digits = crate::text::chars_of(plain.as_str());
    if digits.len() < width {
        let mut text = String::new();
        push_zeros(&mut text, width - digits.len());
        vstd::string::StringExecFns::append(&mut text, plain.as_str());
        proof {
            assert(text@ == zero_padded(n as nat, width as nat));
        }
        text
    } else {
        plain
    }
}

/// Ten to the power of `n`, where a `u128` holds it.
pub fn power_of_ten(n: usize) -> (value: Option<u128>)
    ensures
        match value {
            Some(v) => v == pow10(n as nat),
            None => pow10(n as nat) > u128::MAX,
        },
{
    let mut value: u128 = 1;
    let mut i: usize = 0;
    while i < n
        invariant
            i <= n,
            value == pow10(i as nat),
        decreases n - i,
    {
        proof {
            lemma_pow10_monotone((i + 1) as nat, n as nat);
        }
        match value.checked_mul(10) {
            Some(next) => value = next,
            None => return None,
        }
        i += 1;
    }
    Some(value)
}

} // verus!
