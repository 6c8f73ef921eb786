//! Money as the decimal text that a record stores: exact subtraction for a
//! derived column and padding to scale for display. No number with a binary
//! fraction is built anywhere.
use vstd::prelude::*;
use vstd::string::*;
use crate::decimal::{
    all_digits, decimal_text, decimal_value, digits_only, is_digit, lemma_decimal_text,
    lemma_decimal_value_bound, lemma_decimal_value_concat, lemma_pow10_add, lemma_pow10_limits,
    lemma_pow10_monotone, lemma_pow10_positive, lemma_zero_padded, lemma_zeros, numeral,
    padded_numeral, parse_digits, pow10, power_of_ten, push_zeros, zero_padded, zeros,
};
use crate::text::{
    after, before, chars_of, index_of, lemma_prefix_len, lemma_prefix_len_is, lemma_trimmed,
    lemma_trimmed_of, prefix_len, trim, trimmed,
};

verus! {

/// The scale a Currency field displays at.
///
/// Two, always: DocType metadata carries no precision, so there is nothing per
/// field to read.
pub const MONEY_SCALE: usize = 2;

/// `t` without its sign: one leading `-` or `+`.
pub open spec fn unsigned(t: Seq<char>) -> Seq<char> {
    if t.len() > 0 && (t[0] == '-' || t[0] == '+') {
        t.drop_first()
    } else {
        t
    }
}

/// `t` carries a minus sign.
pub open spec fn negative(t: Seq<char>) -> bool {
    t.len() > 0 && t[0] == '-'
}

/// The number of units of ten to the power of minus `scale` that `raw` names,
/// whatever its size: a plain decimal, with white space round it allowed, a
/// sign, at least one digit before the point and at most `scale` after it.
pub open spec fn exact_units(raw: Seq<char>, scale: nat) -> Option<int> {
    let t = trimmed(raw);
    let whole = before(unsigned(t), '.');
    let places = after(unsigned(t), '.');
    if whole.len() > 0 && all_digits(whole) && all_digits(places) && places.len() <= scale {
        let size = decimal_value(whole) * pow10(scale) + decimal_value(places) * pow10(
            (scale - places.len()) as nat,
        );
        Some(
            if negative(t) {
                -size
            } else {
                size as int
            },
        )
    } else {
        None
    }
}

/// The units of `raw`, where their number is within what an `i128` and its
/// negation hold.
pub open spec fn units(raw: Seq<char>, scale: nat) -> Option<int> {
    match exact_units(raw, scale) {
        Some(n) => if -i128::MAX <= n <= i128::MAX {
            Some(n)
        } else {
            None
        },
        None => None,
    }
}

/// `n` units of ten to the power of minus `scale`, written out: a minus sign
/// where `n` is negative, the whole part, a point, and the places filled up to
/// `scale` (one place, a zero, where `scale` is zero).
pub open spec fn money_text(n: int, scale: nat) -> Seq<char> {
    let size = if n < 0 {
        -n
    } else {
        n
    };
    let sign = if n < 0 {
        seq!['-']
    } else {
        Seq::empty()
    };
    let whole = (size / pow10(scale) as int) as nat;
    let places = (size % pow10(scale) as int) as nat;
    sign + decimal_text(whole) + seq!['.'] + zero_padded(places, scale)
}

/// What `money_sub` returns.
pub open spec fn difference(a: Seq<char>, b: Seq<char>, scale: nat) -> Option<Seq<char>> {
    match (units(a, scale), units(b, scale)) {
        (Some(x), Some(y)) => if pow10(scale) <= u128::MAX && i128::MIN <= x - y <= i128::MAX {
            Some(money_text(x - y, scale))
        } else {
            None
        },
        _ => None,
    }
}

/// `t` without a leading `-`.
pub open spec fn without_minus(t: Seq<char>) -> Seq<char> {
    if negative(t) {
        t.drop_first()
    } else {
        t
    }
}

/// `t` is a plain decimal: an optional minus sign, digits and at most one
/// point, with a digit on at least one side of it.
pub open spec fn plain_decimal(t: Seq<char>) -> bool {
    let whole = before(without_minus(t), '.');
    let places = after(without_minus(t), '.');
    &&& whole.len() > 0 || places.len() > 0
    &&& all_digits(whole)
    &&& all_digits(places)
}

/// How many places stand after the point of `t`.
pub open spec fn places_of(t: Seq<char>) -> nat {
    after(without_minus(t), '.').len()
}

/// The number of units of ten to the power of minus `scale` that a plain decimal
/// with at most `scale` places names; a missing whole part stands for zero.
pub open spec fn plain_units(raw: Seq<char>, scale: nat) -> Option<int> {
    let t = trimmed(raw);
    let whole = before(without_minus(t), '.');
    let places = after(without_minus(t), '.');
    if plain_decimal(t) && places.len() <= scale {
        let size = decimal_value(whole) * pow10(scale) + decimal_value(places) * pow10(
            (scale - places.len()) as nat,
        );
        Some(
            if negative(t) {
                -size
            } else {
                size as int
            },
        )
    } else {
        None
    }
}

/// What `pad_money` returns: a plain decimal below scale gets a point, where it
/// has none, and zeros up to scale; anything else stays as it is.
pub open spec fn padded(raw: Seq<char>, scale: nat) -> Seq<char> {
    let t = trimmed(raw);
    if plain_decimal(t) && places_of(t) < scale {
        let point = if t.contains('.') {
            Seq::empty()
        } else {
            seq!['.']
        };
        t + point + zeros((scale - places_of(t)) as nat)
    } else {
        t
    }
}

/// The units of `raw` at `scale`, where it is a plain decimal that does not
/// exceed the scale and whose units an `i128` holds.
fn parse_units(raw: &str, scale: usize, unit: i128) -> (value: Option<i128>)
    requires
        unit == pow10(scale as nat),
    ensures
        match value {
            Some(v) => units(raw@, scale as nat) == Some(v as int),
            None => units(raw@, scale as nat) is None,
        },
{
    let inner = trim(raw);
    let chars = chars_of(inner);
    let len: usize = chars.len();
    if len == 0 {
        proof {
            lemma_prefix_len(unsigned(inner@), '.');
        }
        return None;
    }
    let minus = chars[0] == '-';
    let start: usize = if minus || chars[0] == '+' {
        1
    } else {
        0
    };
    let point: usize = index_of(&chars, start, len, '.');
    let ghost body = unsigned(inner@);
    proof {
        assert(body == chars@.subrange(start as int, len as int));
        assert(before(body, '.') == chars@.subrange(start as int, point as int));
    }
    let rest: usize = if point < len {
        point + 1
    } else {
        len
    };
    proof {
        assert(after(body, '.') == chars@.subrange(rest as int, len as int));
    }
    if start == point || !digits_only(&chars, start, point) || !digits_only(&chars, rest, len) || len
        - rest > scale {
        return None;
    }
    let places: usize = len - rest;
    let ghost whole_value = decimal_value(before(body, '.'));
    let ghost places_value = decimal_value(after(body, '.'));
    let ghost shift = pow10((scale - places) as nat);
    proof {
        lemma_decimal_value_bound(after(body, '.'));
        lemma_pow10_add(places as nat, (scale - places) as nat);
        lemma_pow10_positive((scale - places) as nat);
        lemma_pow10_positive(scale as nat);
        assert(places_value * shift < unit && places_value <= places_value * shift)
            by (nonlinear_arith)
            requires
                places_value < pow10(places as nat),
                shift > 0,
                unit == pow10(places as nat) * shift,
        ;
        assert(whole_value <= whole_value * unit) by (nonlinear_arith)
            requires
                unit > 0,
                whole_value >= 0,
        ;
        lemma_pow10_monotone((scale - places) as nat, scale as nat);
    }
    let whole: i128 = match parse_digits(&chars, start, point) {
        Some(n) => n,
        None => return None,
    };
    let fraction: i128 = match parse_digits(&chars, rest, len) {
        Some(n) => n,
        None => return None,
    };
    let step: i128 = match power_of_ten(scale - places) {
        Some(n) => n as i128,
        None => return None,
    };
    let moved: i128 = fraction * step;
    match whole.checked_mul(unit) {
        Some(high) => match high.checked_add(moved) {
            Some(size) => Some(
                if minus {
                    -size
                } else {
                    size
                },
            ),
            None => None,
        },
        None => None,
    }
}

/// Exact decimal subtraction, for a derived report column: `a` minus `b`, both
/// as stored, at `scale` places.
///
/// `None` where either side is not a plain decimal with a whole part, has more
/// places than the scale (refused, never rounded), or is beyond what the
/// arithmetic holds; so the caller shows nothing rather than a wrong number.
pub fn money_sub(a: &str, b: &str, scale: usize) -> (text: Option<String>)
    ensures
        match text {
            Some(shown) => difference(a@, b@, scale as nat) == Some(shown@),
            None => difference(a@, b@, scale as nat) is None,
        },
{
    let unit: u128 = match power_of_ten(scale) {
        Some(n) => n,
        None => return None,
    };
    proof {
        lemma_pow10_limits();
        lemma_pow10_positive(scale as nat);
        if scale >= 39 {
            lemma_pow10_monotone(39, scale as nat);
        } else {
            lemma_pow10_monotone(scale as nat, 38);
        }
    }
    let left: i128 = match parse_units(a, scale, unit as i128) {
        Some(n) => n,
        None => return None,
    };
    let right: i128 = match parse_units(b, scale, unit as i128) {
        Some(n) => n,
        None => return None,
    };
    let diff: i128 = match left.checked_sub(right) {
        Some(n) => n,
        None => return None,
    };
    let size: u128 = if diff < 0 {
        (-(diff + 1)) as u128 + 1
    } else {
        diff as u128
    };
    let mut text = String::new();
    if diff < 0 {
        text.push('-');
    }
    text.append(numeral(size / unit).as_str());
    text.push('.');
    text.append(padded_numeral(size % unit, scale).as_str());
    proof {
        assert(text@ =~= money_text(diff as int, scale as nat));
    }
    Some(text)
}

/// A text holds a point if and only if what stands behind its sign does.
pub proof fn lemma_point(t: Seq<char>)
    ensures
        t.contains('.') <==> prefix_len(without_minus(t), '.') < without_minus(t).len(),
{
    let body = without_minus(t);
    let n = prefix_len(body, '.') as int;
    lemma_prefix_len(body, '.');
    if n < body.len() {
        assert(t[n + (t.len() - body.len())] == '.');
    } else if t.contains('.') {
        let i = choose|i: int| 0 <= i < t.len() && t[i] == '.';
        assert(body[i - (t.len() - body.len())] == '.');
    }
}

/// Pads a stored decimal to `scale` places, for display only: zeros are
/// appended to the text and nothing is computed. A value with more places than
/// the scale is returned as it is, never rounded; so is anything that is not a
/// plain decimal.
///
/// The zeros of a plain decimal have to fit into one string.
pub fn pad_money(raw: &str, scale: usize) -> (text: String)
    requires
        plain_decimal(trimmed(raw@)) ==> scale <= isize::MAX,
    ensures
        text@ == padded(raw@, scale as nat),
{
    let inner = trim(raw);
    let chars = chars_of(inner);
    let len: usize = chars.len();
    let ghost body = without_minus(inner@);
    let start: usize = if len > 0 && chars[0] == '-' {
        1
    } else {
        0
    };
    let point: usize = index_of(&chars, start, len, '.');
    let rest: usize = if point < len {
        point + 1
    } else {
        len
    };
    proof {
        assert(body == chars@.subrange(start as int, len as int));
        assert(before(body, '.') == chars@.subrange(start as int, point as int));
        assert(after(body, '.') == chars@.subrange(rest as int, len as int));
    }
    let mut text = String::from_str(inner);
    if start == point && rest == len {
        return text;
    }
    if !digits_only(&chars, start, point) || !digits_only(&chars, rest, len) {
        return text;
    }
    let places: usize = len - rest;
    if places >= scale {
        return text;
    }
    proof {
        lemma_point(inner@);
    }
    if point == len {
        text.push('.');
    }
    push_zeros(&mut text, scale - places);
    proof {
        assert(text@ =~= padded(raw@, scale as nat));
    }
    text
}

/// The parts of `whole . places`, where `whole` holds digits only.
proof fn lemma_split_at_point(whole: Seq<char>, places: Seq<char>)
    requires
        all_digits(whole),
    ensures
        before(whole + seq!['.'] + places, '.') == whole,
        after(whole + seq!['.'] + places, '.') == places,
{
    let s = whole + seq!['.'] + places;
    assert forall|i: int| 0 <= i < whole.len() implies s[i] != '.' by {
        assert(s[i] == whole[i]);
        assert(is_digit(whole[i]));
    }
    lemma_prefix_len_is(s, '.', whole.len() as int);
    assert(s.take(whole.len() as int) == whole);
    assert(s.skip(whole.len() as int + 1) == places);
}

/// A written amount has no white space at either end, its own sign, and the
/// parts that it was written from.
proof fn lemma_money_text_parts(n: int, scale: nat)
    ensures
        trimmed(money_text(n, scale)) == money_text(n, scale),
        negative(money_text(n, scale)) == (n < 0),
        ({
            let size = if n < 0 {
                -n
            } else {
                n
            };
            let whole = decimal_text((size / pow10(scale) as int) as nat);
            let places = zero_padded((size % pow10(scale) as int) as nat, scale);
            let body = whole + seq!['.'] + places;
            &&& unsigned(money_text(n, scale)) == body
            &&& without_minus(money_text(n, scale)) == body
            &&& before(body, '.') == whole
            &&& after(body, '.') == places
            &&& whole.len() > 0
            &&& all_digits(whole)
            &&& all_digits(places)
        }),
{
    let size = if n < 0 {
        -n
    } else {
        n
    };
    let whole_value = (size / pow10(scale) as int) as nat;
    let places_value = (size % pow10(scale) as int) as nat;
    let whole = decimal_text(whole_value);
    let places = zero_padded(places_value, scale);
    let body = whole + seq!['.'] + places;
    let text = money_text(n, scale);
    lemma_decimal_text(whole_value);
    lemma_decimal_text(places_value);
    lemma_zero_padded(places_value, scale);
    lemma_split_at_point(whole, places);
    assert(is_digit(whole[0]));
    assert(is_digit(places.last()));
    assert(body[0] == whole[0]);
    assert(text.last() == places.last());
    if n < 0 {
        assert(text == seq!['-'] + body);
        assert(text.drop_first() == body);
    } else {
        assert(text == body);
    }
    lemma_trimmed_of(text);
}

/// What is written for a number of units names that number of units.
proof fn lemma_money_text_units(n: int, scale: nat)
    requires
        scale > 0,
    ensures
        exact_units(money_text(n, scale), scale) == Some(n),
{
    let size = if n < 0 {
        -n
    } else {
        n
    };
    let unit = pow10(scale) as int;
    let text = money_text(n, scale);
    let whole = before(unsigned(text), '.');
    let places = after(unsigned(text), '.');
    lemma_pow10_positive(scale);
    assert(size / unit >= 0) by (nonlinear_arith)
        requires
            size >= 0,
            unit > 0,
    ;
    lemma_money_text_parts(n, scale);
    lemma_decimal_text((size / unit) as nat);
    lemma_zero_padded((size % unit) as nat, scale);
    assert(decimal_value(whole) == size / unit);
    assert(places.len() == scale);
    assert(decimal_value(places) == size % unit);
    vstd::arithmetic::div_mod::lemma_fundamental_div_mod(size, unit);
    vstd::arithmetic::mul::lemma_mul_is_commutative(size / unit, unit);
    assert(pow10((scale - places.len()) as nat) == 1);
    assert(decimal_value(whole) * unit + decimal_value(places) * 1 == size);
}

/// The difference shown is exact: read back, it names what `a` names minus what
/// `b` names. (At scale zero the text carries one place, which the scale does
/// not admit.)
pub proof fn law_difference_is_exact(a: Seq<char>, b: Seq<char>, scale: nat)
    requires
        scale > 0,
        difference(a, b, scale) is Some,
    ensures
        exact_units(a, scale) is Some,
        exact_units(b, scale) is Some,
        exact_units(difference(a, b, scale)->0, scale) == Some(
            exact_units(a, scale)->0 - exact_units(b, scale)->0,
        ),
{
    lemma_money_text_units(units(a, scale)->0 - units(b, scale)->0, scale);
}

/// The difference shown stands at scale already: padding changes nothing in it.
pub proof fn law_difference_is_at_scale(a: Seq<char>, b: Seq<char>, scale: nat)
    requires
        scale > 0,
        difference(a, b, scale) is Some,
    ensures
        padded(difference(a, b, scale)->0, scale) == difference(a, b, scale)->0,
        places_of(difference(a, b, scale)->0) == scale,
{
    let n = units(a, scale)->0 - units(b, scale)->0;
    let size = if n < 0 {
        -n
    } else {
        n
    };
    lemma_pow10_positive(scale);
    lemma_money_text_parts(n, scale);
    lemma_zero_padded((size % pow10(scale) as int) as nat, scale);
}

/// Taking the sides the other way round changes the sign alone. (The one number
/// whose negation an `i128` lacks is left out.)
pub proof fn law_difference_swapped(a: Seq<char>, b: Seq<char>, scale: nat)
    requires
        difference(a, b, scale) is Some,
        units(a, scale)->0 - units(b, scale)->0 != i128::MIN,
    ensures
        difference(b, a, scale) is Some,
        ({
            let shown = difference(a, b, scale)->0;
            let swapped = difference(b, a, scale)->0;
            ||| units(a, scale) == units(b, scale) && shown == swapped
            ||| units(a, scale)->0 < units(b, scale)->0 && shown == seq!['-'] + swapped
            ||| units(a, scale)->0 > units(b, scale)->0 && swapped == seq!['-'] + shown
        }),
{
    let n = units(a, scale)->0 - units(b, scale)->0;
    assert(units(b, scale)->0 - units(a, scale)->0 == -n);
    if n < 0 {
        assert(money_text(n, scale) == seq!['-'] + money_text(-n, scale));
    } else if n > 0 {
        assert(money_text(-n, scale) == seq!['-'] + money_text(n, scale));
    }
}

/// A side with more places than the scale is refused, on whichever side it
/// stands.
pub proof fn law_over_scale_is_refused(a: Seq<char>, b: Seq<char>, scale: nat)
    requires
        after(unsigned(trimmed(a)), '.').len() > scale || after(unsigned(trimmed(b)), '.').len()
            > scale,
    ensures
        difference(a, b, scale) is None,
{
}

/// The parts of a padded decimal: the whole part stays, the places gain zeros.
proof fn lemma_padded_parts(raw: Seq<char>, scale: nat)
    requires
        plain_decimal(trimmed(raw)),
        places_of(trimmed(raw)) < scale,
    ensures
        ({
            let t = trimmed(raw);
            let whole = before(without_minus(t), '.');
            let places = after(without_minus(t), '.');
            let fill = zeros((scale - places.len()) as nat);
            let text = padded(raw, scale);
            &&& trimmed(text) == text
            &&& negative(text) == negative(t)
            &&& before(without_minus(text), '.') == whole
            &&& after(without_minus(text), '.') == places + fill
            &&& all_digits(places + fill)
        }),
{
    let t = trimmed(raw);
    let body = without_minus(t);
    let whole = before(body, '.');
    let places = after(body, '.');
    let fill = zeros((scale - places.len()) as nat);
    let text = padded(raw, scale);
    lemma_trimmed(raw);
    lemma_prefix_len(body, '.');
    lemma_zeros((scale - places.len()) as nat);
    let n = prefix_len(body, '.') as int;
    lemma_point(t);
    if n < body.len() {
        assert(body == whole + seq!['.'] + places);
    } else {
        assert(body == whole);
    }
    let longer = whole + seq!['.'] + (places + fill);
    if negative(t) {
        assert(t == seq!['-'] + body);
        assert(text == seq!['-'] + longer);
        assert(text.drop_first() == longer);
    } else {
        assert(text == longer);
        if whole.len() > 0 {
            assert(is_digit(whole[0]));
            assert(longer[0] == whole[0]);
        } else {
            assert(longer[0] == '.');
        }
    }
    lemma_split_at_point(whole, places + fill);
    assert(text.last() == fill.last());
    assert forall|i: int| 0 <= i < (places + fill).len() implies is_digit(
        #[trigger] (places + fill)[i],
    ) by {
        if i < places.len() {
            assert(is_digit(places[i]));
        } else {
            assert(is_digit(fill[i - places.len()]));
        }
    }
    lemma_trimmed_of(text);
}

/// Padding never alters the value: at every scale that admits the padded text,
/// it names what the stored text names.
pub proof fn law_padding_keeps_the_value(raw: Seq<char>, scale: nat, k: nat)
    requires
        k >= scale,
    ensures
        exact_units(padded(raw, scale), k) == exact_units(raw, k),
        plain_units(padded(raw, scale), k) == plain_units(raw, k),
{
    let t = trimmed(raw);
    lemma_trimmed(raw);
    if plain_decimal(t) && places_of(t) < scale {
        lemma_padded_parts(raw, scale);
        let body = without_minus(t);
        let places = after(body, '.');
        let extra = (scale - places.len()) as nat;
        let fill = zeros(extra);
        let text = padded(raw, scale);
        if t.len() > 0 && t[0] == '+' {
            lemma_prefix_len(body, '.');
            assert(prefix_len(body, '.') > 0);
            assert(before(body, '.')[0] == '+');
            assert(is_digit(before(body, '.')[0]));
        }
        if text.len() > 0 && text[0] == '+' {
            assert(t.len() == 0);
            assert(false);
        }
        lemma_zeros(extra);
        lemma_decimal_value_concat(places, fill);
        lemma_pow10_add(extra, (k - scale) as nat);
        assert(extra + (k - scale) as nat == (k - places.len()) as nat);
        vstd::arithmetic::mul::lemma_mul_is_associative(
            decimal_value(places) as int,
            pow10(extra) as int,
            pow10((k - scale) as nat) as int,
        );
    }
}

/// Padding appends to the stored text and changes nothing before that: what it
/// appends is zeros, after a point where there was none. At or over scale it
/// appends nothing.
pub proof fn law_padding_only_appends(raw: Seq<char>, scale: nat)
    ensures
        ({
            let t = trimmed(raw);
            let fill = padded(raw, scale).skip(t.len() as int);
            &&& padded(raw, scale) == t + fill
            &&& places_of(t) >= scale ==> fill.len() == 0
            &&& forall|i: int|
                0 <= i < fill.len() ==> #[trigger] fill[i] == '0' || (i == 0 && fill[i] == '.'
                    && !t.contains('.'))
        }),
{
    let t = trimmed(raw);
    assert(padded(raw, scale) =~= t + padded(raw, scale).skip(t.len() as int));
}

/// A plain decimal below scale stands at scale after padding.
pub proof fn law_padding_reaches_the_scale(raw: Seq<char>, scale: nat)
    requires
        plain_decimal(trimmed(raw)),
        places_of(trimmed(raw)) <= scale,
    ensures
        plain_decimal(padded(raw, scale)),
        places_of(padded(raw, scale)) == scale,
{
    if places_of(trimmed(raw)) < scale {
        lemma_padded_parts(raw, scale);
    }
}

/// Padding what is padded changes nothing.
pub proof fn law_padding_twice(raw: Seq<char>, scale: nat)
    ensures
        padded(padded(raw, scale), scale) == padded(raw, scale),
{
    let t = trimmed(raw);
    lemma_trimmed(raw);
    if plain_decimal(t) && places_of(t) < scale {
        lemma_padded_parts(raw, scale);
    }
}

} // verus!
