//! What holds of every amount of money: which texts are amounts, what they are
//! worth, and what subtracting and padding make of them.
use vstd::prelude::*;
use crate::decimal::{is_digit, pow10};
use crate::digits::{
    is_run, law_filling_keeps_the_worth, law_numeral_names_its_number, lemma_noughts, lemma_run,
    lemma_ten_to, noughts, ten_to, worth,
};
use crate::money::{
    difference, exact_units, lemma_point, money_text, padded, plain_decimal, unsigned, units,
    without_minus,
};
use crate::text::{
    after, before, is_blank, is_white_space, law_trimming, law_trimming_leaves_the_middle,
    lemma_prefix_len, lemma_prefix_len_is, prefix_len, trimmed,
};

verus! {

/// An amount as it may be written: white space, a sign, digits, a point, digits,
/// white space.
pub struct Amount {
    pub front: Seq<char>,
    pub sign: Seq<char>,
    pub whole: Seq<char>,
    /// Whether there is a point.
    pub pointed: bool,
    pub places: Seq<char>,
    pub back: Seq<char>,
}

impl Amount {
    /// The parts are what they are called, and there is a digit.
    pub open spec fn valid(self) -> bool {
        &&& is_blank(self.front)
        &&& self.sign == Seq::<char>::empty() || self.sign == seq!['-'] || self.sign == seq!['+']
        &&& is_run(self.whole)
        &&& is_run(self.places)
        &&& is_blank(self.back)
        &&& !self.pointed ==> self.places.len() == 0
        &&& self.whole.len() > 0 || self.places.len() > 0
    }

    /// The digits, with the point between them.
    pub open spec fn body(self) -> Seq<char> {
        if self.pointed {
            self.whole + seq!['.'] + self.places
        } else {
            self.whole
        }
    }

    /// The amount without the white space round it.
    pub open spec fn inner(self) -> Seq<char> {
        self.sign + self.body()
    }

    /// The amount as it is written.
    pub open spec fn text(self) -> Seq<char> {
        self.front + self.inner() + self.back
    }

    /// What the amount is worth, in units of which ten to the power of `scale` make
    /// one.
    pub open spec fn units(self, scale: nat) -> int {
        let size = worth(self.whole) * ten_to(scale) + worth(self.places) * ten_to(
            (scale - self.places.len()) as nat,
        );
        if self.sign == seq!['-'] {
            -size
        } else {
            size
        }
    }
}

/// The parts of a written amount are found again.
proof fn lemma_parts(x: Amount)
    requires
        x.valid(),
    ensures
        trimmed(x.text()) == x.inner(),
        unsigned(x.inner()) == x.body(),
        before(x.body(), '.') == x.whole,
        after(x.body(), '.') == x.places,
        x.inner().len() > 0,
        x.inner()[0] == '-' <==> x.sign == seq!['-'],
        x.inner()[0] == '+' <==> x.sign == seq!['+'],
        prefix_len(x.body(), '.') < x.body().len() <==> x.pointed,
{
    let body = x.body();
    let inner = x.inner();
    assert forall|i: int| 0 <= i < x.whole.len() implies body[i] != '.' by {
        assert('0' <= x.whole[i] <= '9');
        assert(body[i] == x.whole[i]);
    }
    if x.pointed {
        assert(body[x.whole.len() as int] == '.');
    }
    lemma_prefix_len_is(body, '.', x.whole.len() as int);
    assert(before(body, '.') =~= x.whole);
    assert(after(body, '.') =~= x.places);
    assert(body.len() > 0);
    if x.whole.len() > 0 {
        assert('0' <= x.whole[0] <= '9');
        assert(body[0] == x.whole[0]);
    } else {
        assert(body[0] == '.');
    }
    if x.places.len() > 0 {
        assert('0' <= x.places[x.places.len() - 1] <= '9');
        assert(body.last() == x.places.last());
    } else if x.pointed {
        assert(body.last() == '.');
    } else {
        assert('0' <= x.whole[x.whole.len() - 1] <= '9');
    }
    assert(inner.last() == body.last());
    if x.sign.len() > 0 {
        assert(inner[0] == x.sign[0]);
        assert(inner.drop_first() =~= body);
    } else {
        assert(inner =~= body);
    }
    assert(!is_white_space(inner[0]) && !is_white_space(inner.last()));
    law_trimming(x.front, inner, x.back);
}

/// An amount is read for what it is worth, however many digits it has: the whole
/// part counts in full, and each place a tenth of the one before.
pub proof fn law_amount_is_read(x: Amount, scale: nat)
    requires
        x.valid(),
        x.whole.len() > 0,
        x.places.len() <= scale,
    ensures
        exact_units(x.text(), scale) == Some(x.units(scale)),
{
    lemma_parts(x);
    lemma_run(x.whole);
    lemma_run(x.places);
    lemma_ten_to(scale);
    lemma_ten_to((scale - x.places.len()) as nat);
}

/// An amount with more places than the scale, or without a whole part, is not read.
pub proof fn law_amount_is_not_read(x: Amount, scale: nat)
    requires
        x.valid(),
        x.whole.len() == 0 || x.places.len() > scale,
    ensures
        exact_units(x.text(), scale) is None,
{
    lemma_parts(x);
}

/// The text that is read is an amount.
pub proof fn law_only_amounts_are_read(raw: Seq<char>, scale: nat) -> (x: Amount)
    requires
        exact_units(raw, scale) is Some,
    ensures
        x.valid(),
        x.text() == raw,
        x.whole.len() > 0,
        x.places.len() <= scale,
{
    let (front, back) = law_trimming_leaves_the_middle(raw);
    let t = trimmed(raw);
    let body = unsigned(t);
    lemma_prefix_len(body, '.');
    let sign = t.take(t.len() - body.len());
    let x = Amount {
        front,
        sign,
        whole: before(body, '.'),
        pointed: prefix_len(body, '.') < body.len(),
        places: after(body, '.'),
        back,
    };
    lemma_run(x.whole);
    lemma_run(x.places);
    if t.len() > 0 && t[0] == '-' {
        assert(sign =~= seq!['-']);
    } else if t.len() > 0 && t[0] == '+' {
        assert(sign =~= seq!['+']);
    } else {
        assert(sign =~= Seq::<char>::empty());
    }
    assert(x.body() =~= body);
    assert(x.inner() =~= t);
    assert(x.text() =~= raw);
    x
}

/// The text is a number of units written out: a minus sign exactly where it is
/// negative, the whole part without noughts in front, a point, and as many places
/// as the scale has (one, a nought, at scale zero).
pub open spec fn is_written(text: Seq<char>, n: int, scale: nat) -> bool {
    exists|whole: Seq<char>, places: Seq<char>| #[trigger]
        is_written_as(text, n, scale, whole, places)
}

/// The text is a number of units written out, with that whole part and those
/// places.
pub open spec fn is_written_as(
    text: Seq<char>,
    n: int,
    scale: nat,
    whole: Seq<char>,
    places: Seq<char>,
) -> bool {
    &&& is_run(whole)
    &&& is_run(places)
    &&& whole.len() > 0
    &&& whole.len() > 1 ==> whole[0] != '0'
    &&& places.len() == (if scale == 0 {
        1
    } else {
        scale
    })
    &&& n >= 0 ==> text == whole + seq!['.'] + places
    &&& n < 0 ==> text == seq!['-'] + whole + seq!['.'] + places
    &&& (if n < 0 {
        -n
    } else {
        n
    }) == worth(whole) * ten_to(scale) + worth(places)
}

proof fn lemma_written(n: int, scale: nat)
    ensures
        is_written(money_text(n, scale), n, scale),
{
    let size = if n < 0 {
        -n
    } else {
        n
    };
    let unit = pow10(scale) as int;
    lemma_ten_to(scale);
    let high = size / unit;
    let low = size % unit;
    assert(high >= 0) by (nonlinear_arith)
        requires
            size >= 0,
            unit > 0,
            high == size / unit,
    ;
    let whole = crate::decimal::decimal_text(high as nat);
    let places = crate::decimal::zero_padded(low as nat, scale);
    law_numeral_names_its_number(high as nat);
    law_filling_keeps_the_worth(low as nat, scale);
    crate::decimal::lemma_zero_padded(low as nat, scale);
    if scale == 0 {
        assert(unit == 1);
        assert(low == 0);
        assert(places =~= seq!['0']);
    }
    vstd::arithmetic::div_mod::lemma_fundamental_div_mod(size, unit);
    vstd::arithmetic::mul::lemma_mul_is_commutative(high, unit);
    let text = money_text(n, scale);
    if n < 0 {
        assert(text =~= seq!['-'] + whole + seq!['.'] + places);
    } else {
        assert(text =~= whole + seq!['.'] + places);
    }
    assert(is_written_as(text, n, scale, whole, places));
}

/// The difference of two amounts is owed: whatever their digits, it is shown, written
/// out, wherever both are within what the arithmetic holds and so is the difference.
pub proof fn law_difference_is_owed(a: Amount, b: Amount, scale: nat)
    requires
        a.valid(),
        b.valid(),
        a.whole.len() > 0,
        b.whole.len() > 0,
        a.places.len() <= scale,
        b.places.len() <= scale,
        -i128::MAX <= a.units(scale) <= i128::MAX,
        -i128::MAX <= b.units(scale) <= i128::MAX,
        i128::MIN <= a.units(scale) - b.units(scale) <= i128::MAX,
        ten_to(scale) <= u128::MAX,
    ensures
        difference(a.text(), b.text(), scale) is Some,
        is_written(
            difference(a.text(), b.text(), scale)->0,
            a.units(scale) - b.units(scale),
            scale,
        ),
{
    law_amount_is_read(a, scale);
    law_amount_is_read(b, scale);
    lemma_ten_to(scale);
    lemma_written(a.units(scale) - b.units(scale), scale);
}

/// The same over any two texts: where both are read, and the arithmetic holds them
/// and their difference, the difference is shown, and at a scale with places it
/// reads back as what it is.
pub proof fn law_difference_of_what_is_read(
    a: Seq<char>,
    b: Seq<char>,
    scale: nat,
    x: int,
    y: int,
)
    requires
        exact_units(a, scale) == Some(x),
        exact_units(b, scale) == Some(y),
        -i128::MAX <= x <= i128::MAX,
        -i128::MAX <= y <= i128::MAX,
        i128::MIN <= x - y <= i128::MAX,
        ten_to(scale) <= u128::MAX,
    ensures
        difference(a, b, scale) is Some,
        is_written(difference(a, b, scale)->0, x - y, scale),
        scale > 0 ==> exact_units(difference(a, b, scale)->0, scale) == Some(x - y),
{
    lemma_ten_to(scale);
    lemma_written(x - y, scale);
    if scale > 0 {
        crate::money::law_difference_is_exact(a, b, scale);
    }
}

/// No other difference is shown: both sides are amounts with a whole part and within
/// scale, and they, their difference and the unit are within what the arithmetic
/// holds.
pub proof fn law_no_other_difference(a: Seq<char>, b: Seq<char>, scale: nat) -> (sides: (
    Amount,
    Amount,
))
    requires
        difference(a, b, scale) is Some,
    ensures
        ({
            let (x, y) = sides;
            &&& x.valid() && y.valid()
            &&& x.text() == a && y.text() == b
            &&& x.whole.len() > 0 && y.whole.len() > 0
            &&& x.places.len() <= scale && y.places.len() <= scale
            &&& -i128::MAX <= x.units(scale) <= i128::MAX
            &&& -i128::MAX <= y.units(scale) <= i128::MAX
            &&& i128::MIN <= x.units(scale) - y.units(scale) <= i128::MAX
            &&& ten_to(scale) <= u128::MAX
        }),
{
    let x = law_only_amounts_are_read(a, scale);
    let y = law_only_amounts_are_read(b, scale);
    law_amount_is_read(x, scale);
    law_amount_is_read(y, scale);
    lemma_ten_to(scale);
    (x, y)
}

/// Padding fills the places of an amount up to scale with noughts, however many
/// digits it has: behind its places where it has a point, behind a new point where
/// it has none. At or over scale nothing is added; the white space round it goes.
pub proof fn law_padding_fills_the_places(x: Amount, scale: nat)
    requires
        x.valid(),
        x.sign != seq!['+'],
    ensures
        x.places.len() >= scale ==> padded(x.text(), scale) == x.inner(),
        x.places.len() < scale && x.pointed ==> padded(x.text(), scale) == x.inner() + noughts(
            (scale - x.places.len()) as nat,
        ),
        x.places.len() < scale && !x.pointed ==> padded(x.text(), scale) == x.inner() + seq!['.']
            + noughts(scale),
{
    lemma_parts(x);
    lemma_run(x.whole);
    lemma_run(x.places);
    lemma_noughts((scale - x.places.len()) as nat);
    lemma_noughts(scale);
    lemma_point(x.inner());
    assert(without_minus(x.inner()) == x.body());
    if x.places.len() < scale && x.pointed {
        assert(padded(x.text(), scale) =~= x.inner() + noughts((scale - x.places.len()) as nat));
    }
}

/// What is no such amount is shown as it is, but for the white space round it: a text
/// that holds another character than digits, points and minus signs, two points, a
/// minus sign behind its front, or no digit.
pub proof fn law_padding_passes_other_texts_through(
    l: Seq<char>,
    t: Seq<char>,
    r: Seq<char>,
    scale: nat,
)
    requires
        is_blank(l),
        is_blank(r),
        t.len() > 0 ==> !is_white_space(t[0]) && !is_white_space(t.last()),
        ({
            ||| exists|i: int|
                0 <= i < t.len() && !('0' <= #[trigger] t[i] <= '9') && t[i] != '.' && t[i] != '-'
            ||| exists|i: int, j: int|
                0 <= i < j < t.len() && #[trigger] t[i] == '.' && #[trigger] t[j] == '.'
            ||| exists|i: int| 0 < i < t.len() && #[trigger] t[i] == '-'
            ||| forall|i: int| 0 <= i < t.len() ==> !('0' <= #[trigger] t[i] <= '9')
        }),
    ensures
        padded(l + t + r, scale) == t,
{
    law_trimming(l, t, r);
    if plain_decimal(t) {
        let body = without_minus(t);
        let whole = before(body, '.');
        let places = after(body, '.');
        let n = prefix_len(body, '.') as int;
        let d = t.len() - body.len();
        lemma_prefix_len(body, '.');
        assert forall|i: int| d <= i < t.len() && i != d + n implies '0' <= #[trigger] t[i]
            <= '9' by {
            assert(body[i - d] == t[i]);
            if i < d + n {
                assert(is_digit(whole[i - d]));
            } else {
                assert(places[i - d - n - 1] == t[i]);
                assert(is_digit(places[i - d - n - 1]));
            }
        }
        if n < body.len() {
            assert(t[d + n] == '.');
        }
        assert(d == 1 ==> t[0] == '-');
        assert(d == 0 || d == 1);
        if whole.len() > 0 {
            assert('0' <= t[d] <= '9');
        } else {
            assert('0' <= t[d + n + 1] <= '9');
        }
        assert(false);
    }
}

} // verus!
