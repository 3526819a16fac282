//! Fixed-point decimal numbers.
//!
//! A [`Decimal`] is a 96-bit signed mantissa together with a scale of at most 28 decimal
//! places. Its view is the exact number it stands for, counted in units of `10^-28`, so
//! that comparing two decimals is comparing two integers. The arithmetic, the order and
//! the text form are those of the `rust_decimal` crate.

use vstd::prelude::*;
use vstd::arithmetic::power::pow;
use crate::text::{digits, digits_value};

verus! {

/// Largest magnitude of a mantissa: `2^96 - 1`.
pub const MAX_MANTISSA: i128 = 79_228_162_514_264_337_593_543_950_335;

/// Largest number of decimal places.
pub const MAX_SCALE: u32 = 28;

/// Whether a mantissa and a scale form a decimal.
pub open spec fn parts_valid(mantissa: i128, scale: u32) -> bool {
    &&& -MAX_MANTISSA <= mantissa <= MAX_MANTISSA
    &&& scale <= MAX_SCALE
}

/// The number `mantissa / 10^scale`, in units of `10^-28`.
pub open spec fn in_units(mantissa: int, scale: int) -> int {
    mantissa * pow(10, (MAX_SCALE - scale) as nat)
}

/// Whether a number of units lies between the smallest and the largest decimal.
pub open spec fn units_in_range(units: int) -> bool {
    -in_units(MAX_MANTISSA as int, 0) <= units <= in_units(MAX_MANTISSA as int, 0)
}

/// Whether a number of units is a multiple of `10^-scale` with a mantissa of at most 96 bits.
pub open spec fn fits_at_scale(units: int, scale: int) -> bool {
    exists|m: int| -MAX_MANTISSA <= m <= MAX_MANTISSA && units == #[trigger] in_units(m, scale)
}

/// The larger of two scales.
pub open spec fn common_scale(s1: u32, s2: u32) -> int {
    if s1 < s2 { s2 as int } else { s1 as int }
}

/// The last decimal digits of a number.
pub open spec fn last_digits(n: nat, places: nat) -> Seq<char>
    decreases places,
{
    if places == 0 {
        Seq::empty()
    } else {
        last_digits(n / 10, (places - 1) as nat).push((48 + n % 10) as char)
    }
}

/// A decimal written out: a minus sign where it is negative, its whole part, and a point and as
/// many places as the scale says, where it says any.
pub open spec fn decimal_text(mantissa: i128, scale: u32) -> Seq<char> {
    let n: nat = if mantissa < 0 {
        -mantissa as nat
    } else {
        mantissa as nat
    };
    let whole = digits((n / pow(10, scale as nat) as nat) as nat);
    let sign = if mantissa < 0 {
        seq!['-']
    } else {
        Seq::empty()
    };
    if scale == 0 {
        sign + whole
    } else {
        sign + (whole + seq!['.'] + last_digits(n, scale as nat))
    }
}

/// Whether a text is made of digits alone.
pub open spec fn all_digits(text: Seq<char>) -> bool {
    forall|i: int| 0 <= i < text.len() ==> '0' <= #[trigger] text[i] <= '9'
}

/// Whether a text begins with a sign.
pub open spec fn is_signed(text: Seq<char>) -> bool {
    text.len() > 0 && (text[0] == '-' || text[0] == '+')
}

/// The mantissa and the scale of a decimal that is written out: a sign or none, and digits, one
/// at least, with one point among them or none.
pub open spec fn written_decimal(text: Seq<char>) -> Option<(int, nat)> {
    let body = if is_signed(text) {
        text.skip(1)
    } else {
        text
    };
    let (whole, places) = match body.index_of_first('.') {
        Some(at) => (body.take(at), body.skip(at + 1)),
        None => (body, Seq::empty()),
    };
    let n = digits_value(whole + places);
    if (whole + places).len() > 0 && all_digits(whole + places) {
        Some((if is_signed(text) && text[0] == '-' { -n } else { n as int }, places.len()))
    } else {
        None
    }
}

/// Whether a text holds a character that no decimal holds: none of digits, points, underscores
/// and a sign at the beginning.
pub open spec fn has_stray_char(text: Seq<char>) -> bool {
    exists|i: int|
        0 <= i < text.len() && !('0' <= #[trigger] text[i] <= '9') && text[i] != '.' && text[i]
            != '_' && !(i == 0 && is_signed(text))
}

/// The mantissa and the scale that `rust_decimal::Decimal` reads from a text, if it reads any.
pub uninterp spec fn read_decimal(text: Seq<char>) -> Option<(i128, u32)>;

/// The mantissa and the scale that a text is read as. A decimal written out whose mantissa and
/// scale are in range is read as it stands; an empty text is refused, and so is one with a
/// character that no decimal holds. What else is read is up to the `rust_decimal` crate.
pub open spec fn parsed_decimal(text: Seq<char>) -> Option<(i128, u32)> {
    match written_decimal(text) {
        Some((m, s)) if -MAX_MANTISSA <= m <= MAX_MANTISSA && s <= MAX_SCALE => Some(
            (m as i128, s as u32),
        ),
        _ => if text.len() == 0 || (has_stray_char(text) && !text.contains('e') && !text.contains(
            'E',
        )) {
            None
        } else {
            read_decimal(text)
        },
    }
}

/// The mantissa and the scale of what `rust_decimal::Decimal::checked_add` returns.
pub uninterp spec fn decimal_sum(m1: i128, s1: u32, m2: i128, s2: u32) -> Option<(i128, u32)>;

/// The mantissa and the scale of what `rust_decimal::Decimal::checked_sub` returns.
pub uninterp spec fn decimal_difference(m1: i128, s1: u32, m2: i128, s2: u32) -> Option<(i128, u32)>;

/// Calls the order of `rust_decimal::Decimal` (`<`). The crate orders two decimals as the
/// numbers that they stand for, whatever their scales.
#[verifier::external_body]
fn outside_less(m1: i128, s1: u32, m2: i128, s2: u32) -> (less: bool)
    requires
        parts_valid(m1, s1),
        parts_valid(m2, s2),
    ensures
        less == (in_units(m1 as int, s1 as int) < in_units(m2 as int, s2 as int)),
{
    rust_decimal::Decimal::from_i128_with_scale(m1, s1)
        < rust_decimal::Decimal::from_i128_with_scale(m2, s2)
}

/// Calls `rust_decimal::Decimal::checked_add` and takes the result apart. The crate reports
/// an overflow only where the exact sum lies beyond the largest decimal. The sum is exact
/// where both operands and the sum fit 96 bits at the larger of the two scales; elsewhere
/// the crate may round, and the result is only named.
#[verifier::external_body]
fn outside_sum(m1: i128, s1: u32, m2: i128, s2: u32) -> (sum: Option<(i128, u32)>)
    requires
        parts_valid(m1, s1),
        parts_valid(m2, s2),
    ensures
        sum == decimal_sum(m1, s1, m2, s2),
        sum matches Some(p) ==> parts_valid(p.0, p.1),
        units_in_range(in_units(m1 as int, s1 as int) + in_units(m2 as int, s2 as int))
            ==> sum is Some,
        sum matches Some(p) ==> {
            let a = in_units(m1 as int, s1 as int);
            let b = in_units(m2 as int, s2 as int);
            let s = common_scale(s1, s2);
            fits_at_scale(a, s) && fits_at_scale(b, s) && fits_at_scale(a + b, s) ==> in_units(
                p.0 as int,
                p.1 as int,
            ) == a + b
        },
{
    rust_decimal::Decimal::from_i128_with_scale(m1, s1)
        .checked_add(rust_decimal::Decimal::from_i128_with_scale(m2, s2))
        .map(|d| (d.mantissa(), d.scale()))
}

/// Calls `rust_decimal::Decimal::checked_sub` and takes the result apart. As for the sum,
/// an overflow is reported only where the exact difference lies beyond the largest decimal,
/// and the difference is exact where both operands and the difference fit 96 bits at the
/// larger of the two scales; elsewhere the result is only named.
#[verifier::external_body]
fn outside_difference(m1: i128, s1: u32, m2: i128, s2: u32) -> (difference: Option<(i128, u32)>)
    requires
        parts_valid(m1, s1),
        parts_valid(m2, s2),
    ensures
        difference == decimal_difference(m1, s1, m2, s2),
        difference matches Some(p) ==> parts_valid(p.0, p.1),
        units_in_range(in_units(m1 as int, s1 as int) - in_units(m2 as int, s2 as int))
            ==> difference is Some,
        difference matches Some(p) ==> {
            let a = in_units(m1 as int, s1 as int);
            let b = in_units(m2 as int, s2 as int);
            let s = common_scale(s1, s2);
            fits_at_scale(a, s) && fits_at_scale(b, s) && fits_at_scale(a - b, s) ==> in_units(
                p.0 as int,
                p.1 as int,
            ) == a - b
        },
{
    rust_decimal::Decimal::from_i128_with_scale(m1, s1)
        .checked_sub(rust_decimal::Decimal::from_i128_with_scale(m2, s2))
        .map(|d| (d.mantissa(), d.scale()))
}

/// Calls the `Display` of `rust_decimal::Decimal`, which writes a decimal out with all its
/// places.
#[verifier::external_body]
fn outside_text(mantissa: i128, scale: u32) -> (text: String)
    requires
        parts_valid(mantissa, scale),
    ensures
        text@ == decimal_text(mantissa, scale),
{
    rust_decimal::Decimal::from_i128_with_scale(mantissa, scale).to_string()
}

/// Calls the `FromStr` of `rust_decimal::Decimal` and takes the result apart. A decimal written
/// out is read as it stands where its mantissa fits 96 bits and its scale is in range. An empty
/// text is refused, and so is one with a character that no decimal holds, unless an `e` makes it
/// a number with an exponent. What else is read is only named; what is read is a decimal.
#[verifier::external_body]
fn outside_parse(text: &str) -> (parsed: Option<(i128, u32)>)
    ensures
        parsed == read_decimal(text@),
        parsed matches Some(p) ==> parts_valid(p.0, p.1),
        written_decimal(text@) matches Some(w) ==> -MAX_MANTISSA <= w.0 <= MAX_MANTISSA && w.1
            <= MAX_SCALE ==> parsed == Some((w.0 as i128, w.1 as u32)),
        text@.len() == 0 ==> parsed is None,
        has_stray_char(text@) && !text@.contains('e') && !text@.contains('E') ==> parsed is None,
{
    text.parse::<rust_decimal::Decimal>().ok().map(|d| (d.mantissa(), d.scale()))
}

/// A decimal number: `mantissa / 10^scale`.
#[derive(Clone, Copy, Debug)]
pub struct Decimal {
    mantissa: i128,
    scale: u32,
}

impl View for Decimal {
    type V = int;

    /// The number, in units of `10^-28`.
    closed spec fn view(&self) -> int {
        in_units(self.mantissa as int, self.scale as int)
    }
}

impl Decimal {
    #[verifier::type_invariant]
    closed spec fn valid(self) -> bool {
        parts_valid(self.mantissa, self.scale)
    }

    /// The mantissa, as a number.
    pub closed spec fn mantissa_part(self) -> i128 {
        self.mantissa
    }

    /// The number of decimal places, as a number.
    pub closed spec fn scale_part(self) -> u32 {
        self.scale
    }

    /// The decimal with the given parts.
    pub closed spec fn of_parts(mantissa: i128, scale: u32) -> Decimal {
        Decimal { mantissa, scale }
    }

    /// Whether the parts are in range, as those of every decimal at run time are.
    pub open spec fn in_range(self) -> bool {
        parts_valid(self.mantissa_part(), self.scale_part())
    }

    /// Whether `self + other` is a decimal.
    pub open spec fn adds(self, other: Decimal) -> bool {
        decimal_sum(
            self.mantissa_part(),
            self.scale_part(),
            other.mantissa_part(),
            other.scale_part(),
        ) is Some
    }

    /// Whether `self - other` is a decimal.
    pub open spec fn subtracts(self, other: Decimal) -> bool {
        decimal_difference(
            self.mantissa_part(),
            self.scale_part(),
            other.mantissa_part(),
            other.scale_part(),
        ) is Some
    }

    /// What `self + other` is.
    pub open spec fn spec_plus(self, other: Decimal) -> Decimal {
        let p = decimal_sum(
            self.mantissa_part(),
            self.scale_part(),
            other.mantissa_part(),
            other.scale_part(),
        )->0;
        Decimal::of_parts(p.0, p.1)
    }

    /// What `self - other` is.
    pub open spec fn spec_minus(self, other: Decimal) -> Decimal {
        let p = decimal_difference(
            self.mantissa_part(),
            self.scale_part(),
            other.mantissa_part(),
            other.scale_part(),
        )->0;
        Decimal::of_parts(p.0, p.1)
    }

    /// The text of a decimal.
    pub open spec fn spec_text(self) -> Seq<char> {
        decimal_text(self.mantissa_part(), self.scale_part())
    }

    /// What a text is read as.
    pub open spec fn spec_parse(text: Seq<char>) -> Option<Decimal> {
        match parsed_decimal(text) {
            Some(p) => Some(Decimal::of_parts(p.0, p.1)),
            None => None,
        }
    }

    /// Zero.
    pub open spec fn spec_zero() -> Decimal {
        Decimal::of_parts(0, 0)
    }

    /// The decimal itself where it is positive, else zero.
    pub open spec fn spec_positive_part(self) -> Decimal {
        if self@ < 0 { Decimal::spec_zero() } else { self }
    }

    /// The decimal without its sign.
    pub open spec fn spec_abs(self) -> Decimal {
        if self.mantissa_part() < 0 {
            Decimal::of_parts((-self.mantissa_part()) as i128, self.scale_part())
        } else {
            self
        }
    }

    /// The decimal with the other sign.
    pub open spec fn spec_negated(self) -> Decimal {
        Decimal::of_parts((-self.mantissa_part()) as i128, self.scale_part())
    }

    /// The decimal `num / 10^scale`.
    pub fn new(num: i64, scale: u32) -> (d: Decimal)
        requires
            scale <= MAX_SCALE,
        ensures
            d == Decimal::of_parts(num as i128, scale),
            d.mantissa_part() == num,
            d.scale_part() == scale,
            d@ == in_units(num as int, scale as int),
    {
        Decimal { mantissa: num as i128, scale }
    }

    /// The decimal with the given parts, where there is one.
    pub fn from_parts(mantissa: i128, scale: u32) -> (d: Option<Decimal>)
        ensures
            d == (if parts_valid(mantissa, scale) {
                Some(Decimal::of_parts(mantissa, scale))
            } else {
                None::<Decimal>
            }),
            d matches Some(x) ==> x.mantissa_part() == mantissa && x.scale_part() == scale && x@
                == in_units(mantissa as int, scale as int),
    {
        if -MAX_MANTISSA <= mantissa && mantissa <= MAX_MANTISSA && scale <= MAX_SCALE {
            Some(Decimal { mantissa, scale })
        } else {
            None
        }
    }

    /// Zero.
    pub fn zero() -> (d: Decimal)
        ensures
            d == Decimal::spec_zero(),
            d.mantissa_part() == 0,
            d.scale_part() == 0,
            d@ == 0,
    {
        let d = Decimal { mantissa: 0, scale: 0 };
        assert(in_units(0, 0) == 0) by (nonlinear_arith);
        d
    }

    /// The mantissa.
    pub fn mantissa(&self) -> (m: i128)
        ensures
            m == self.mantissa_part(),
    {
        self.mantissa
    }

    /// The number of decimal places.
    pub fn scale(&self) -> (s: u32)
        ensures
            s == self.scale_part(),
    {
        self.scale
    }

    /// Whether this is the smaller number.
    pub fn less_than(&self, other: &Decimal) -> (less: bool)
        ensures
            less == (self@ < other@),
    {
        proof {
            use_type_invariant(self);
            use_type_invariant(other);
        }
        outside_less(self.mantissa, self.scale, other.mantissa, other.scale)
    }

    /// Whether the number is above zero.
    pub fn is_positive(&self) -> (positive: bool)
        ensures
            positive == (self@ > 0),
    {
        Decimal::zero().less_than(self)
    }

    /// Whether the number is zero.
    pub fn is_zero(&self) -> (zero: bool)
        ensures
            zero == (self@ == 0),
    {
        !self.is_positive() && !self.less_than(&Decimal::zero())
    }

    /// `self + other`, where the sum is a decimal.
    pub fn checked_plus(&self, other: &Decimal) -> (sum: Option<Decimal>)
        ensures
            sum == (if self.adds(*other) {
                Some(self.spec_plus(*other))
            } else {
                None::<Decimal>
            }),
            sum matches Some(d) ==> sums_exactly(*self, *other) ==> d@ == self@ + other@,
            units_in_range(self@ + other@) ==> sum is Some,
    {
        proof {
            use_type_invariant(self);
            use_type_invariant(other);
        }
        match outside_sum(self.mantissa, self.scale, other.mantissa, other.scale) {
            Some((mantissa, scale)) => Some(Decimal { mantissa, scale }),
            None => None,
        }
    }

    /// `self - other`, where the difference is a decimal.
    pub fn checked_minus(&self, other: &Decimal) -> (difference: Option<Decimal>)
        ensures
            difference == (if self.subtracts(*other) {
                Some(self.spec_minus(*other))
            } else {
                None::<Decimal>
            }),
            difference matches Some(d) ==> subtracts_exactly(*self, *other) ==> d@ == self@
                - other@,
            units_in_range(self@ - other@) ==> difference is Some,
    {
        proof {
            use_type_invariant(self);
            use_type_invariant(other);
        }
        match outside_difference(self.mantissa, self.scale, other.mantissa, other.scale) {
            Some((mantissa, scale)) => Some(Decimal { mantissa, scale }),
            None => None,
        }
    }

    /// `self - other`, unless the difference is beyond the largest decimal.
    pub fn minus(&self, other: &Decimal) -> (difference: Decimal)
        requires
            units_in_range(self@ - other@),
        ensures
            difference == self.spec_minus(*other),
            subtracts_exactly(*self, *other) ==> difference@ == self@ - other@,
    {
        match self.checked_minus(other) {
            Some(difference) => difference,
            None => Decimal::zero(),
        }
    }

    /// The larger of the number and zero.
    pub fn positive_part(&self) -> (d: Decimal)
        ensures
            d == self.spec_positive_part(),
            d@ == (if self@ < 0 { 0int } else { self@ }),
    {
        if self.less_than(&Decimal::zero()) {
            Decimal::zero()
        } else {
            *self
        }
    }

    /// The number without its sign.
    pub fn abs(&self) -> (d: Decimal)
        ensures
            d == self.spec_abs(),
            d@ == (if self@ < 0 { -self@ } else { self@ }),
    {
        proof {
            use_type_invariant(self);
            lemma_units_sign(self.mantissa as int, self.scale as int);
        }
        if self.mantissa < 0 {
            proof {
                lemma_units_negate(self.mantissa as int, self.scale as int);
            }
            Decimal { mantissa: -self.mantissa, scale: self.scale }
        } else {
            *self
        }
    }

    /// The number with the other sign.
    pub fn negated(&self) -> (d: Decimal)
        ensures
            d == self.spec_negated(),
            d@ == -self@,
    {
        proof {
            use_type_invariant(self);
            lemma_units_negate(self.mantissa as int, self.scale as int);
        }
        Decimal { mantissa: -self.mantissa, scale: self.scale }
    }

    /// The number as text, with all its decimal places.
    pub fn to_text(&self) -> (text: String)
        ensures
            text@ == self.spec_text(),
    {
        proof {
            use_type_invariant(self);
        }
        outside_text(self.mantissa, self.scale)
    }

    /// Reads a number.
    pub fn parse(text: &str) -> (d: Option<Decimal>)
        ensures
            d == Decimal::spec_parse(text@),
    {
        match outside_parse(text) {
            Some((mantissa, scale)) => Some(Decimal { mantissa, scale }),
            None => None,
        }
    }
}

/// A decimal is made up of its parts: they are what it was made of, they make it again, and its
/// number is theirs.
pub proof fn lemma_parts(d: Decimal, mantissa: i128, scale: u32)
    ensures
        Decimal::of_parts(mantissa, scale).mantissa_part() == mantissa,
        Decimal::of_parts(mantissa, scale).scale_part() == scale,
        Decimal::of_parts(d.mantissa_part(), d.scale_part()) == d,
        d@ == in_units(d.mantissa_part() as int, d.scale_part() as int),
{
}

/// Zero is no units.
pub proof fn lemma_zero()
    ensures
        Decimal::spec_zero()@ == 0,
{
    lemma_units_sign(0, 0);
}

/// A decimal without its sign is as far from zero as with it.
pub proof fn lemma_abs(d: Decimal)
    requires
        d.in_range(),
    ensures
        d.spec_abs()@ == (if d@ < 0 {
            -d@
        } else {
            d@
        }),
{
    lemma_units_sign(d.mantissa as int, d.scale as int);
    lemma_units_negate(d.mantissa as int, d.scale as int);
}

/// Whether the sum of two decimals needs no rounding: both and the sum fit the larger of
/// their scales.
pub open spec fn sums_exactly(a: Decimal, b: Decimal) -> bool {
    let s = common_scale(a.scale_part(), b.scale_part());
    fits_at_scale(a@, s) && fits_at_scale(b@, s) && fits_at_scale(a@ + b@, s)
}

/// Whether the difference of two decimals needs no rounding.
pub open spec fn subtracts_exactly(a: Decimal, b: Decimal) -> bool {
    let s = common_scale(a.scale_part(), b.scale_part());
    fits_at_scale(a@, s) && fits_at_scale(b@, s) && fits_at_scale(a@ - b@, s)
}

/// The number has the sign of its mantissa.
proof fn lemma_units_sign(m: int, scale: int)
    ensures
        m < 0 ==> in_units(m, scale) < 0,
        m > 0 ==> in_units(m, scale) > 0,
        m == 0 ==> in_units(m, scale) == 0,
{
    vstd::arithmetic::power::lemma_pow_positive(10, (MAX_SCALE - scale) as nat);
    let p = pow(10, (MAX_SCALE - scale) as nat);
    assert(m < 0 ==> m * p < 0) by (nonlinear_arith)
        requires
            p > 0,
    ;
    assert(m > 0 ==> m * p > 0) by (nonlinear_arith)
        requires
            p > 0,
    ;
    assert(m == 0 ==> m * p == 0) by (nonlinear_arith);
}

/// Negating the mantissa negates the number.
proof fn lemma_units_negate(m: int, scale: int)
    ensures
        in_units(-m, scale) == -in_units(m, scale),
{
    let p = pow(10, (MAX_SCALE - scale) as nat);
    assert((-m) * p == -(m * p)) by (nonlinear_arith);
}

/// A number's digits stand for it.
proof fn lemma_digits(n: nat)
    ensures
        digits(n).len() > 0,
        all_digits(digits(n)),
        digits_value(digits(n)) == n,
    decreases n,
{
    reveal_with_fuel(digits_value, 2);
    if n >= 10 {
        lemma_digits(n / 10);
        assert(digits(n).drop_last() =~= digits(n / 10));
    } else {
        assert(digits(n).drop_last() =~= Seq::<char>::empty());
    }
}

/// The last digits of a number stand for its remainder.
proof fn lemma_last_digits(n: nat, places: nat)
    ensures
        last_digits(n, places).len() == places,
        all_digits(last_digits(n, places)),
        digits_value(last_digits(n, places)) == n % pow(10, places) as nat,
    decreases places,
{
    reveal(pow);
    vstd::arithmetic::power::lemma_pow_positive(10, places);
    if places > 0 {
        let fewer = (places - 1) as nat;
        lemma_last_digits(n / 10, fewer);
        vstd::arithmetic::power::lemma_pow_positive(10, fewer);
        assert(last_digits(n, places).drop_last() =~= last_digits(n / 10, fewer));
        vstd::arithmetic::div_mod::lemma_mod_breakdown(n as int, 10, pow(10, fewer));
        assert(pow(10, places) == 10 * pow(10, fewer));
    }
}

/// Digits in front of others stand for their number, moved by as many places.
proof fn lemma_digits_joined(a: Seq<char>, b: Seq<char>)
    requires
        all_digits(a),
        all_digits(b),
    ensures
        digits_value(a + b) == digits_value(a) * pow(10, b.len()) + digits_value(b),
    decreases b.len(),
{
    reveal(pow);
    if b.len() == 0 {
        assert(a + b =~= a);
    } else {
        let fewer = b.drop_last();
        assert(all_digits(fewer));
        lemma_digits_joined(a, fewer);
        assert((a + b).drop_last() =~= a + fewer);
        let d = digits_value(a);
        let p = pow(10, fewer.len());
        assert(pow(10, b.len()) == 10 * p);
        assert(10 * (d * p) == d * (10 * p)) by (nonlinear_arith);
    }
}

/// The text of a decimal is read back as the same decimal, with the same number of places.
pub proof fn law_text_is_read_back(mantissa: i128, scale: u32)
    requires
        parts_valid(mantissa, scale),
    ensures
        Decimal::spec_parse(Decimal::of_parts(mantissa, scale).spec_text()) == Some(
            Decimal::of_parts(mantissa, scale),
        ),
{
    let n: nat = if mantissa < 0 {
        -mantissa as nat
    } else {
        mantissa as nat
    };
    let p = pow(10, scale as nat);
    vstd::arithmetic::power::lemma_pow_positive(10, scale as nat);
    let whole = digits((n / p as nat) as nat);
    let places = last_digits(n, scale as nat);
    lemma_digits((n / p as nat) as nat);
    lemma_last_digits(n, scale as nat);
    lemma_digits_joined(whole, places);
    vstd::arithmetic::div_mod::lemma_fundamental_div_mod(n as int, p);
    assert(digits_value(whole + places) == n) by {
        assert((n / p as nat) * p == p * (n as int / p)) by (nonlinear_arith)
            requires
                p > 0,
        ;
    }
    let text = decimal_text(mantissa, scale);
    let body = if scale == 0 {
        whole
    } else {
        whole + seq!['.'] + places
    };
    if mantissa < 0 {
        assert(text.skip(1) =~= body);
    } else {
        assert(text =~= body);
        assert(text[0] == whole[0]);
    }
    body.index_of_first_ensures('.');
    if scale == 0 {
        assert(whole + places =~= whole);
    } else {
        assert(body[whole.len() as int] == '.');
        assert(body.contains('.'));
        let at = body.index_of_first('.')->0;
        assert(at == whole.len()) by {
            if at < whole.len() {
                assert(body[at] == whole[at]);
            }
        }
        assert(body.take(at) =~= whole);
        assert(body.skip(at + 1) =~= places);
    }
}

impl PartialEq for Decimal {
    fn eq(&self, other: &Decimal) -> (same: bool) {
        !self.less_than(other) && !other.less_than(self)
    }
}

impl vstd::std_specs::cmp::PartialEqSpecImpl for Decimal {
    open spec fn obeys_eq_spec() -> bool {
        true
    }

    open spec fn eq_spec(&self, other: &Decimal) -> bool {
        self@ == other@
    }
}

} // verus!
