//! Fixed-precision decimal numbers: a 96-bit mantissa and a scale of at most 28 decimal places.
//!
//! The arithmetic itself is `rust_decimal`'s. [`Dec`] is the mathematical model of a value, and
//! the functions on it say what each operation gives: exactly, wherever the exact result can be
//! held, and by a name for the library's rounding where it cannot.
use crate::text::{digits, is_digit, lemma_digits};
use vstd::prelude::*;

verus! {

/// Ten to the power `n`.
pub open spec fn pow10(n: nat) -> int
    decreases n,
{
    if n == 0 {
        1
    } else {
        10 * pow10((n - 1) as nat)
    }
}

/// The largest mantissa: 96 bits, all set.
pub open spec fn max_mantissa() -> int {
    79228162514264337593543950335
}

/// The model of a decimal number: `m` divided by ten to the power `s`.
pub struct Dec {
    pub m: int,
    pub s: nat,
}

pub open spec fn abs_int(x: int) -> int {
    if x < 0 {
        -x
    } else {
        x
    }
}

/// The quotient of `n` by the positive `d`, rounded to the nearest integer, ties to even.
pub open spec fn half_even(n: int, d: int) -> int {
    let q = abs_int(n) / d;
    let r = abs_int(n) % d;
    let up: int = if 2 * r > d || (2 * r == d && q % 2 == 1) {
        q + 1
    } else {
        q
    };
    if n < 0 {
        -up
    } else {
        up
    }
}

impl Dec {
    /// The mantissa and the scale are within their limits.
    pub open spec fn valid(self) -> bool {
        abs_int(self.m) <= max_mantissa() && self.s <= 28
    }

    /// The value in units of the smallest scale, by which numbers are compared.
    pub open spec fn units(self) -> int {
        self.m * pow10((28 - self.s) as nat)
    }

    /// The same number with its sign turned.
    pub open spec fn negated(self) -> Dec {
        Dec { m: -self.m, s: self.s }
    }

    /// The number without its sign.
    pub open spec fn magnitude(self) -> Dec {
        Dec { m: abs_int(self.m), s: self.s }
    }

    /// Rounded to at most `dp` decimal places, ties to even.
    pub open spec fn rounded(self, dp: nat) -> Dec {
        if self.s <= dp {
            self
        } else {
            Dec { m: half_even(self.m, pow10((self.s - dp) as nat)), s: dp }
        }
    }

    /// The largest whole number that is not above this one.
    pub open spec fn floored(self) -> Dec {
        Dec { m: self.m / pow10(self.s), s: 0 }
    }

    /// The decimal text: a sign where negative, and the digits with a point before the last
    /// `s` of them.
    pub open spec fn text(self) -> Seq<char> {
        let d = padded(digits(abs_int(self.m) as nat), self.s + 1);
        let sign = if self.m < 0 {
            seq!['-']
        } else {
            Seq::empty()
        };
        if self.s == 0 {
            sign + d
        } else {
            sign + d.subrange(0, d.len() - self.s) + seq!['.'] + d.subrange(
                d.len() - self.s,
                d.len() as int,
            )
        }
    }
}

/// `d` with zeros put before it up to the length `n`.
pub open spec fn padded(d: Seq<char>, n: nat) -> Seq<char> {
    if d.len() >= n {
        d
    } else {
        Seq::new((n - d.len()) as nat, |i: int| '0') + d
    }
}

pub open spec fn zero() -> Dec {
    Dec { m: 0, s: 0 }
}

pub open spec fn whole(n: int) -> Dec {
    Dec { m: n, s: 0 }
}

pub open spec fn max_nat(a: nat, b: nat) -> nat {
    if a >= b {
        a
    } else {
        b
    }
}

/// The sum of the two mantissas at the larger of the two scales.
pub open spec fn aligned_sum(a: Dec, b: Dec) -> Dec {
    let s = max_nat(a.s, b.s);
    Dec { m: a.m * pow10((s - a.s) as nat) + b.m * pow10((s - b.s) as nat), s }
}

/// What `rust_decimal::Decimal::checked_add` returns where the sum at the larger scale has more
/// than 96 bits.
pub uninterp spec fn rounded_sum(m1: int, s1: nat, m2: int, s2: nat) -> Option<(int, nat)>;

/// What `rust_decimal::Decimal::checked_sub` returns where the difference at the larger scale has
/// more than 96 bits.
pub uninterp spec fn rounded_difference(m1: int, s1: nat, m2: int, s2: nat) -> Option<(int, nat)>;

/// What `rust_decimal::Decimal::checked_mul` returns where the product has more than 96 bits or
/// a scale above 28.
pub uninterp spec fn rounded_product(m1: int, s1: nat, m2: int, s2: nat) -> Option<(int, nat)>;

/// What `rust_decimal::Decimal::checked_div` returns where the divisor's mantissa does not divide
/// the dividend's: a mantissa and a scale.
pub uninterp spec fn rounded_quotient(m1: int, s1: nat, m2: int, s2: nat) -> Option<(int, nat)>;

/// What `rust_decimal::Decimal::from_str` reads from a text: a mantissa and a scale, or nothing.
pub uninterp spec fn parsed_parts(text: Seq<char>) -> Option<(int, nat)>;

/// The number of a mantissa and a scale, if they are within their limits.
pub open spec fn of_parts(p: Option<(int, nat)>) -> Option<Dec> {
    match p {
        Some(q) => if (Dec { m: q.0, s: q.1 }).valid() {
            Some(Dec { m: q.0, s: q.1 })
        } else {
            None
        },
        None => None,
    }
}

/// `q` is what rounding makes of `n / d`: it has the sign of that, if it is not zero, and differs
/// from it by no more than one, or by the 27th digit of its own.
pub open spec fn rounds_to(n: int, d: int, q: int) -> bool {
    &&& abs_int(q * d - n) * pow10(27) <= abs_int(d) * (pow10(27) + abs_int(q))
    &&& q != 0 ==> (q < 0) == ((n < 0) != (d < 0))
}

/// `a + b`, where `long` is what comes of a sum that does not fit as it is.
pub open spec fn sum_with(a: Dec, b: Dec, long: Option<(int, nat)>) -> Option<Dec> {
    if a.m == 0 {
        Some(b)
    } else if b.m == 0 {
        Some(a)
    } else if aligned_sum(a, b).valid() {
        Some(aligned_sum(a, b))
    } else {
        of_parts(long)
    }
}

/// `a + b`, or nothing where it cannot be held.
pub open spec fn sum(a: Dec, b: Dec) -> Option<Dec> {
    sum_with(a, b, rounded_sum(a.m, a.s, b.m, b.s))
}

/// `a - b`, where `long` is what comes of a difference that does not fit as it is.
pub open spec fn difference_with(a: Dec, b: Dec, long: Option<(int, nat)>) -> Option<Dec> {
    if a.m == 0 {
        Some(b.negated())
    } else if b.m == 0 {
        Some(a)
    } else if aligned_sum(a, b.negated()).valid() {
        Some(aligned_sum(a, b.negated()))
    } else {
        of_parts(long)
    }
}

/// `a - b`, or nothing where it cannot be held.
pub open spec fn difference(a: Dec, b: Dec) -> Option<Dec> {
    difference_with(a, b, rounded_difference(a.m, a.s, b.m, b.s))
}

/// `a * b`, where `long` is what comes of a product that does not fit as it is: the product, rounded.
pub open spec fn product_with(a: Dec, b: Dec, long: Option<(int, nat)>) -> Option<Dec> {
    let p = Dec { m: a.m * b.m, s: a.s + b.s };
    if p.m == 0 {
        Some(zero())
    } else if p.valid() {
        Some(p)
    } else {
        match of_parts(long) {
            Some(d) => if rounds_to(a.units() * b.units(), pow10(28), d.units()) {
                Some(d)
            } else {
                None
            },
            None => None,
        }
    }
}

/// `a * b`, or nothing where it cannot be held.
pub open spec fn product(a: Dec, b: Dec) -> Option<Dec> {
    product_with(a, b, rounded_product(a.m, a.s, b.m, b.s))
}

/// The quotient's mantissa, where the division leaves no remainder.
pub open spec fn exact_ratio(m1: int, m2: int) -> int {
    let q = abs_int(m1) / abs_int(m2);
    if (m1 < 0) != (m2 < 0) {
        -q
    } else {
        q
    }
}

/// The hundred-millionths in `a / b`, where they are a whole number of at most 18 digits.
pub open spec fn short_ratio(a: Dec, b: Dec) -> Option<int> {
    let n = a.m * pow10(8 + b.s);
    let d = b.m * pow10(a.s);
    if abs_int(n) % abs_int(d) == 0 && abs_int(n) / abs_int(d) < 1_000_000_000_000_000_000 {
        Some(exact_ratio(n, d))
    } else {
        None
    }
}

/// `a / b`, where `long` is what comes of a division that leaves a remainder. If the quotient has
/// few places all the same, its value is exact, and `long` only decides at which scale it stands;
/// otherwise `long` is the quotient, rounded.
pub open spec fn quotient_with(a: Dec, b: Dec, long: Option<(int, nat)>) -> Option<Dec> {
    if b.m == 0 {
        None
    } else if a.m == 0 {
        Some(zero())
    } else if abs_int(a.m) % abs_int(b.m) == 0 {
        let q = exact_ratio(a.m, b.m);
        if a.s >= b.s {
            Some(Dec { m: q, s: (a.s - b.s) as nat })
        } else if abs_int(q) * pow10((b.s - a.s) as nat) <= max_mantissa() {
            Some(Dec { m: q * pow10((b.s - a.s) as nat), s: 0 })
        } else {
            None
        }
    } else {
        match (short_ratio(a, b), of_parts(long)) {
            (Some(n), Some(d)) => Some(
                if d.valid() && d.units() == (Dec { m: n, s: 8 }).units() {
                    d
                } else {
                    Dec { m: n, s: 8 }
                },
            ),
            (Some(n), None) => Some(Dec { m: n, s: 8 }),
            (None, Some(d)) => if rounds_to(a.units() * pow10(28), b.units(), d.units()) {
                Some(d)
            } else {
                None
            },
            (None, None) => None,
        }
    }
}

/// `a / b`, or nothing where `b` is zero or the quotient cannot be held.
pub open spec fn quotient(a: Dec, b: Dec) -> Option<Dec> {
    quotient_with(a, b, rounded_quotient(a.m, a.s, b.m, b.s))
}

/// The number that a text stands for, or nothing.
pub open spec fn parsed(text: Seq<char>) -> Option<Dec> {
    of_parts(parsed_parts(text))
}

/// [`sum`] of two results, nothing where either is missing.
pub open spec fn sum_of(a: Option<Dec>, b: Option<Dec>) -> Option<Dec> {
    match (a, b) {
        (Some(x), Some(y)) => sum(x, y),
        _ => None,
    }
}

/// [`difference`] of two results, nothing where either is missing.
pub open spec fn difference_of(a: Option<Dec>, b: Option<Dec>) -> Option<Dec> {
    match (a, b) {
        (Some(x), Some(y)) => difference(x, y),
        _ => None,
    }
}

/// [`product`] of two results, nothing where either is missing.
pub open spec fn product_of(a: Option<Dec>, b: Option<Dec>) -> Option<Dec> {
    match (a, b) {
        (Some(x), Some(y)) => product(x, y),
        _ => None,
    }
}

/// [`quotient`] of two results, nothing where either is missing.
pub open spec fn quotient_of(a: Option<Dec>, b: Option<Dec>) -> Option<Dec> {
    match (a, b) {
        (Some(x), Some(y)) => quotient(x, y),
        _ => None,
    }
}

/// [`Dec::rounded`] of a result.
pub open spec fn rounded_of(a: Option<Dec>, dp: nat) -> Option<Dec> {
    match a {
        Some(x) => Some(x.rounded(dp)),
        None => None,
    }
}

/// [`Dec::magnitude`] of a result.
pub open spec fn magnitude_of(a: Option<Dec>) -> Option<Dec> {
    match a {
        Some(x) => Some(x.magnitude()),
        None => None,
    }
}

/// How one number stands to another.
#[derive(Clone, Copy, PartialEq, Eq, Structural, Debug)]
pub enum Relation {
    Less,
    Equal,
    Greater,
}

/// The relation of two integers.
pub open spec fn relation_of(a: int, b: int) -> Relation {
    if a < b {
        Relation::Less
    } else if a == b {
        Relation::Equal
    } else {
        Relation::Greater
    }
}

/// A decimal number.
#[derive(Clone, Copy, Debug)]
pub struct Decimal {
    mantissa: i128,
    scale: u32,
}

impl View for Decimal {
    type V = Dec;

    closed spec fn view(&self) -> Dec {
        Dec { m: self.mantissa as int, s: self.scale as nat }
    }
}

/// The model of an optional number.
pub open spec fn opt_view(d: Option<Decimal>) -> Option<Dec> {
    match d {
        Some(x) => Some(x@),
        None => None,
    }
}

/// A price of an asset.
pub type Price = Decimal;

/// A traded volume.
pub type Volume = Decimal;

/// An account balance.
pub type Balance = Decimal;

impl Decimal {
    #[verifier::type_invariant]
    pub closed spec fn inv(self) -> bool {
        self@.valid()
    }

    /// `num` divided by ten to the power `scale`.
    pub fn new(num: i64, scale: u32) -> (r: Decimal)
        requires
            scale <= 28,
        ensures
            r@ == (Dec { m: num as int, s: scale as nat }),
    {
        Decimal { mantissa: num as i128, scale }
    }

    /// The number with the given mantissa and scale, if they are within the limits.
    pub fn from_parts(mantissa: i128, scale: u32) -> (r: Option<Decimal>)
        ensures
            (Dec { m: mantissa as int, s: scale as nat }).valid() ==> r is Some && r->0@ == (Dec {
                m: mantissa as int,
                s: scale as nat,
            }),
            !(Dec { m: mantissa as int, s: scale as nat }).valid() ==> r is None,
    {
        if scale <= 28 && mantissa <= 79228162514264337593543950335 && mantissa
            >= -79228162514264337593543950335 {
            Some(Decimal { mantissa, scale })
        } else {
            None
        }
    }

    /// A whole number.
    pub fn from_u32(n: u32) -> (r: Decimal)
        ensures
            r@ == whole(n as int),
    {
        Decimal { mantissa: n as i128, scale: 0 }
    }

    pub fn zero() -> (r: Decimal)
        ensures
            r@ == zero(),
    {
        Decimal { mantissa: 0, scale: 0 }
    }

    pub fn one() -> (r: Decimal)
        ensures
            r@ == whole(1),
    {
        Decimal { mantissa: 1, scale: 0 }
    }

    pub fn mantissa(&self) -> (r: i128)
        ensures
            r as int == self@.m,
    {
        self.mantissa
    }

    pub fn scale(&self) -> (r: u32)
        ensures
            r as nat == self@.s,
            r <= 28,
    {
        proof {
            use_type_invariant(self);
        }
        self.scale
    }

    /// The number without its sign.
    pub fn abs(&self) -> (r: Decimal)
        ensures
            r@ == self@.magnitude(),
    {
        proof {
            use_type_invariant(self);
        }
        if self.mantissa < 0 {
            Decimal { mantissa: -self.mantissa, scale: self.scale }
        } else {
            *self
        }
    }

    /// `self + other`, or nothing where the sum cannot be held.
    pub fn checked_add(&self, other: &Decimal) -> (r: Option<Decimal>)
        ensures
            opt_view(r) == sum(self@, other@),
    {
        proof {
            use_type_invariant(self);
            use_type_invariant(other);
        }
        match outside_add(self.mantissa, self.scale, other.mantissa, other.scale) {
            Some(p) => Some(Decimal { mantissa: p.0, scale: p.1 }),
            None => None,
        }
    }

    /// `self - other`, or nothing where the difference cannot be held.
    pub fn checked_sub(&self, other: &Decimal) -> (r: Option<Decimal>)
        ensures
            opt_view(r) == difference(self@, other@),
            self@.valid() && other@.valid(),
    {
        proof {
            use_type_invariant(self);
            use_type_invariant(other);
        }
        match outside_sub(self.mantissa, self.scale, other.mantissa, other.scale) {
            Some(p) => Some(Decimal { mantissa: p.0, scale: p.1 }),
            None => None,
        }
    }

    /// `self * other`, or nothing where the product cannot be held.
    pub fn checked_mul(&self, other: &Decimal) -> (r: Option<Decimal>)
        ensures
            opt_view(r) == product(self@, other@),
            self@.valid() && other@.valid(),
    {
        proof {
            use_type_invariant(self);
            use_type_invariant(other);
        }
        match outside_mul(self.mantissa, self.scale, other.mantissa, other.scale) {
            Some(p) => Some(Decimal { mantissa: p.0, scale: p.1 }),
            None => None,
        }
    }

    /// `self / other`, or nothing where `other` is zero or the quotient cannot be held.
    pub fn checked_div(&self, other: &Decimal) -> (r: Option<Decimal>)
        ensures
            opt_view(r) == quotient(self@, other@),
    {
        proof {
            use_type_invariant(self);
            use_type_invariant(other);
        }
        match outside_div(self.mantissa, self.scale, other.mantissa, other.scale) {
            Some(p) => Some(Decimal { mantissa: p.0, scale: p.1 }),
            None => None,
        }
    }

    /// Rounded to at most `dp` decimal places, ties to even.
    pub fn round_dp(&self, dp: u32) -> (r: Decimal)
        ensures
            r@ == self@.rounded(dp as nat),
    {
        proof {
            use_type_invariant(self);
        }
        let p = outside_round_dp(self.mantissa, self.scale, dp);
        Decimal { mantissa: p.0, scale: p.1 }
    }

    /// The largest whole number that is not above this one.
    pub fn floor(&self) -> (r: Decimal)
        ensures
            r@ == self@.floored(),
    {
        proof {
            use_type_invariant(self);
        }
        let p = outside_floor(self.mantissa, self.scale);
        Decimal { mantissa: p.0, scale: p.1 }
    }

    /// Rounded to a whole number, ties to even.
    pub fn round(&self) -> (r: Decimal)
        ensures
            r@ == self@.rounded(0),
    {
        self.round_dp(0)
    }

    /// How this number stands to another, by value, whatever the scales.
    pub fn relation(&self, other: &Decimal) -> (r: Relation)
        ensures
            r == relation_of(self@.units(), other@.units()),
    {
        proof {
            use_type_invariant(self);
            use_type_invariant(other);
        }
        outside_order(self.mantissa, self.scale, other.mantissa, other.scale)
    }

    pub fn lt(&self, other: &Decimal) -> (r: bool)
        ensures
            r == (self@.units() < other@.units()),
    {
        matches!(self.relation(other), Relation::Less)
    }

    pub fn le(&self, other: &Decimal) -> (r: bool)
        ensures
            r == (self@.units() <= other@.units()),
    {
        !matches!(self.relation(other), Relation::Greater)
    }

    pub fn same_value(&self, other: &Decimal) -> (r: bool)
        ensures
            r == (self@.units() == other@.units()),
    {
        matches!(self.relation(other), Relation::Equal)
    }

    pub fn is_zero(&self) -> (r: bool)
        ensures
            r == (self@.m == 0),
    {
        self.mantissa == 0
    }

    /// The decimal text of the number, which [`Decimal::parse`] reads back as it was.
    pub fn to_string(&self) -> (r: String)
        ensures
            r@ == self@.text(),
            parsed(r@) == Some(self@),
    {
        proof {
            use_type_invariant(self);
        }
        outside_text(self.mantissa, self.scale)
    }

    /// The number that a text stands for, or nothing where it stands for none.
    pub fn parse(text: &str) -> (r: Option<Decimal>)
        ensures
            opt_view(r) == parsed(text@),
    {
        match outside_parse(text) {
            Some(p) => Some(Decimal { mantissa: p.0, scale: p.1 }),
            None => None,
        }
    }
}

impl PartialEq for Decimal {
    fn eq(&self, other: &Decimal) -> (r: bool) {
        self.same_value(other)
    }
}

impl vstd::std_specs::cmp::PartialEqSpecImpl for Decimal {
    open spec fn obeys_eq_spec() -> bool {
        true
    }

    open spec fn eq_spec(&self, other: &Decimal) -> bool {
        self@.units() == other@.units()
    }
}

/// The model of a mantissa and a scale.
pub open spec fn parts(m: i128, s: u32) -> Dec {
    Dec { m: m as int, s: s as nat }
}

/// The model of an optional mantissa and scale.
pub open spec fn opt_parts(p: Option<(i128, u32)>) -> Option<Dec> {
    match p {
        Some(q) => Some(parts(q.0, q.1)),
        None => None,
    }
}

/// The mantissa and the scale, if there are any, are within their limits.
pub open spec fn opt_valid(p: Option<(i128, u32)>) -> bool {
    match p {
        Some(q) => parts(q.0, q.1).valid(),
        None => true,
    }
}

/// `rust_decimal::Decimal::checked_add`: a zero operand gives the other one back as it is;
/// otherwise the sum has the larger of the two scales if it then fits in 96 bits. What comes of a
/// longer sum is only named.
#[verifier::external_body]
fn outside_add(m1: i128, s1: u32, m2: i128, s2: u32) -> (r: Option<(i128, u32)>)
    requires
        parts(m1, s1).valid(),
        parts(m2, s2).valid(),
    ensures
        opt_parts(r) == sum_with(
            parts(m1, s1),
            parts(m2, s2),
            rounded_sum(m1 as int, s1 as nat, m2 as int, s2 as nat),
        ),
        opt_valid(r),
{
    rust_decimal::Decimal::from_i128_with_scale(m1, s1)
        .checked_add(rust_decimal::Decimal::from_i128_with_scale(m2, s2))
        .map(|d| (d.mantissa(), d.scale()))
}

/// `rust_decimal::Decimal::checked_sub`: the difference has the larger of the two scales if
/// it then fits in 96 bits, and a zero operand leaves the other one's scale. What comes of a longer
/// difference is only named.
#[verifier::external_body]
fn outside_sub(m1: i128, s1: u32, m2: i128, s2: u32) -> (r: Option<(i128, u32)>)
    requires
        parts(m1, s1).valid(),
        parts(m2, s2).valid(),
    ensures
        opt_parts(r) == difference_with(
            parts(m1, s1),
            parts(m2, s2),
            rounded_difference(m1 as int, s1 as nat, m2 as int, s2 as nat),
        ),
        opt_valid(r),
{
    rust_decimal::Decimal::from_i128_with_scale(m1, s1)
        .checked_sub(rust_decimal::Decimal::from_i128_with_scale(m2, s2))
        .map(|d| (d.mantissa(), d.scale()))
}

/// `rust_decimal::Decimal::checked_mul`: zero if either operand is, otherwise the product of
/// the mantissas at the sum of the scales if that fits. What comes of a longer product is only named;
/// it is that product rounded, at 28 places or at a mantissa that takes no further digit, with the
/// sign of the product.
#[verifier::external_body]
fn outside_mul(m1: i128, s1: u32, m2: i128, s2: u32) -> (r: Option<(i128, u32)>)
    requires
        parts(m1, s1).valid(),
        parts(m2, s2).valid(),
    ensures
        opt_parts(r) == product_with(
            parts(m1, s1),
            parts(m2, s2),
            rounded_product(m1 as int, s1 as nat, m2 as int, s2 as nat),
        ),
        opt_valid(r),
{
    rust_decimal::Decimal::from_i128_with_scale(m1, s1)
        .checked_mul(rust_decimal::Decimal::from_i128_with_scale(m2, s2))
        .map(|d| (d.mantissa(), d.scale()))
}

/// `rust_decimal::Decimal::checked_div`: nothing for a zero divisor, zero for a zero
/// dividend, and where the mantissas divide without a remainder, their ratio at the difference of
/// the scales. A quotient of at most eight decimal places and 18 digits is exact in value: while
/// there is a remainder, the division takes nine more places at a time. The scale at which such a
/// quotient stands, and what comes of any other division, is only named; it is that quotient rounded,
/// at 28 places or at a mantissa that takes no further digit, with the sign of the quotient.
#[verifier::external_body]
fn outside_div(m1: i128, s1: u32, m2: i128, s2: u32) -> (r: Option<(i128, u32)>)
    requires
        parts(m1, s1).valid(),
        parts(m2, s2).valid(),
    ensures
        opt_parts(r) == quotient_with(
            parts(m1, s1),
            parts(m2, s2),
            rounded_quotient(m1 as int, s1 as nat, m2 as int, s2 as nat),
        ),
        opt_valid(r),
{
    rust_decimal::Decimal::from_i128_with_scale(m1, s1)
        .checked_div(rust_decimal::Decimal::from_i128_with_scale(m2, s2))
        .map(|d| (d.mantissa(), d.scale()))
}

/// `rust_decimal::Decimal::round_dp`: ties go to even, and a number of no more than `dp` places
/// stays as it is.
#[verifier::external_body]
fn outside_round_dp(m: i128, s: u32, dp: u32) -> (r: (i128, u32))
    requires
        parts(m, s).valid(),
    ensures
        parts(r.0, r.1) == parts(m, s).rounded(dp as nat),
        parts(r.0, r.1).valid(),
{
    let d = rust_decimal::Decimal::from_i128_with_scale(m, s).round_dp(dp);
    (d.mantissa(), d.scale())
}

/// `rust_decimal::Decimal::floor`: the largest whole number that is not above the given one.
#[verifier::external_body]
fn outside_floor(m: i128, s: u32) -> (r: (i128, u32))
    requires
        parts(m, s).valid(),
    ensures
        parts(r.0, r.1) == parts(m, s).floored(),
        parts(r.0, r.1).valid(),
{
    let d = rust_decimal::Decimal::from_i128_with_scale(m, s).floor();
    (d.mantissa(), d.scale())
}

/// The `cmp` of `rust_decimal::Decimal`: an order by value, whatever the scales.
#[verifier::external_body]
fn outside_order(m1: i128, s1: u32, m2: i128, s2: u32) -> (r: Relation)
    requires
        parts(m1, s1).valid(),
        parts(m2, s2).valid(),
    ensures
        r == relation_of(parts(m1, s1).units(), parts(m2, s2).units()),
{
    let a = rust_decimal::Decimal::from_i128_with_scale(m1, s1);
    let b = rust_decimal::Decimal::from_i128_with_scale(m2, s2);
    match a.cmp(&b) {
        std::cmp::Ordering::Less => Relation::Less,
        std::cmp::Ordering::Equal => Relation::Equal,
        std::cmp::Ordering::Greater => Relation::Greater,
    }
}

/// The `to_string` of `rust_decimal::Decimal`: every decimal place that the scale holds is written,
/// and its own `from_str` reads the same mantissa and scale back.
#[verifier::external_body]
fn outside_text(m: i128, s: u32) -> (r: String)
    requires
        parts(m, s).valid(),
    ensures
        r@ == parts(m, s).text(),
        parsed_parts(r@) == Some((m as int, s as nat)),
{
    rust_decimal::Decimal::from_i128_with_scale(m, s).to_string()
}

/// `rust_decimal::Decimal::from_str`: what it reads is a function of the text, which is named. Its
/// error is dropped, as every caller only asks whether there was one.
#[verifier::external_body]
fn outside_parse(text: &str) -> (r: Option<(i128, u32)>)
    ensures
        opt_parts(r) == of_parts(parsed_parts(text@)),
        opt_valid(r),
{
    text.parse::<rust_decimal::Decimal>().ok().map(|d| (d.mantissa(), d.scale()))
}

/// `a + b` on results.
pub fn add_opt(a: Option<Decimal>, b: Option<Decimal>) -> (r: Option<Decimal>)
    ensures
        opt_view(r) == sum_of(opt_view(a), opt_view(b)),
{
    match (a, b) {
        (Some(x), Some(y)) => x.checked_add(&y),
        _ => None,
    }
}

/// `a - b` on results.
pub fn sub_opt(a: Option<Decimal>, b: Option<Decimal>) -> (r: Option<Decimal>)
    ensures
        opt_view(r) == difference_of(opt_view(a), opt_view(b)),
{
    match (a, b) {
        (Some(x), Some(y)) => x.checked_sub(&y),
        _ => None,
    }
}

/// `a * b` on results.
pub fn mul_opt(a: Option<Decimal>, b: Option<Decimal>) -> (r: Option<Decimal>)
    ensures
        opt_view(r) == product_of(opt_view(a), opt_view(b)),
{
    match (a, b) {
        (Some(x), Some(y)) => x.checked_mul(&y),
        _ => None,
    }
}

/// `a / b` on results.
pub fn div_opt(a: Option<Decimal>, b: Option<Decimal>) -> (r: Option<Decimal>)
    ensures
        opt_view(r) == quotient_of(opt_view(a), opt_view(b)),
{
    match (a, b) {
        (Some(x), Some(y)) => x.checked_div(&y),
        _ => None,
    }
}

/// A result rounded to at most `dp` places.
pub fn round_opt(a: Option<Decimal>, dp: u32) -> (r: Option<Decimal>)
    ensures
        opt_view(r) == rounded_of(opt_view(a), dp as nat),
{
    match a {
        Some(x) => Some(x.round_dp(dp)),
        None => None,
    }
}

/// A result without its sign.
pub fn abs_opt(a: Option<Decimal>) -> (r: Option<Decimal>)
    ensures
        opt_view(r) == magnitude_of(opt_view(a)),
{
    match a {
        Some(x) => Some(x.abs()),
        None => None,
    }
}

/// The text of a number is not empty and holds digits, a sign and a point only.
pub proof fn lemma_text_chars(d: Dec)
    ensures
        d.text().len() >= 1,
        forall|i: int|
            0 <= i < d.text().len() ==> is_digit(#[trigger] d.text()[i]) || d.text()[i] == '-'
                || d.text()[i] == '.',
{
    lemma_digits(abs_int(d.m) as nat);
    let p = padded(digits(abs_int(d.m) as nat), d.s + 1);
    assert forall|i: int| 0 <= i < p.len() implies is_digit(#[trigger] p[i]) by {
        if digits(abs_int(d.m) as nat).len() < d.s + 1 {
            let k = (d.s + 1) - digits(abs_int(d.m) as nat).len();
            if i >= k {
                assert(p[i] == digits(abs_int(d.m) as nat)[i - k]);
            }
        }
    }
}

/// A power of ten is positive.
pub proof fn lemma_pow10_positive(n: nat)
    ensures
        pow10(n) >= 1,
    decreases n,
{
    if n > 0 {
        lemma_pow10_positive((n - 1) as nat);
    }
}

/// Powers of ten multiply by adding their exponents.
pub proof fn lemma_pow10_add(a: nat, b: nat)
    ensures
        pow10(a + b) == pow10(a) * pow10(b),
    decreases a,
{
    if a > 0 {
        lemma_pow10_add((a - 1) as nat, b);
        let x = pow10((a - 1) as nat);
        let y = pow10(b);
        assert(pow10((a + b) as nat) == 10 * pow10((a - 1 + b) as nat));
        assert(10 * (x * y) == (10 * x) * y) by (nonlinear_arith);
    }
}

proof fn lemma_aligned_units(a: Dec, b: Dec)
    requires
        a.s <= 28,
        b.s <= 28,
    ensures
        aligned_sum(a, b).units() == a.units() + b.units(),
{
    let s = max_nat(a.s, b.s);
    let p = pow10((28 - s) as nat);
    let x = pow10((s - a.s) as nat);
    let y = pow10((s - b.s) as nat);
    lemma_pow10_add((s - a.s) as nat, (28 - s) as nat);
    lemma_pow10_add((s - b.s) as nat, (28 - s) as nat);
    assert((s - a.s) + (28 - s) == 28 - a.s);
    assert((s - b.s) + (28 - s) == 28 - b.s);
    assert((a.m * x + b.m * y) * p == a.m * (x * p) + b.m * (y * p)) by (nonlinear_arith);
}

/// A sum that fits at the larger scale is exact.
pub proof fn law_sum_is_exact(a: Dec, b: Dec)
    requires
        a.valid(),
        b.valid(),
        aligned_sum(a, b).valid(),
    ensures
        sum(a, b) is Some,
        sum(a, b)->0.units() == a.units() + b.units(),
{
    lemma_aligned_units(a, b);
    lemma_zero_units(a);
    lemma_zero_units(b);
}

/// A difference that fits at the larger scale is exact.
pub proof fn law_difference_is_exact(a: Dec, b: Dec)
    requires
        a.valid(),
        b.valid(),
        aligned_sum(a, b.negated()).valid(),
    ensures
        difference(a, b) is Some,
        difference(a, b)->0.units() == a.units() - b.units(),
{
    lemma_aligned_units(a, b.negated());
    lemma_zero_units(a);
    lemma_zero_units(b);
    let p = pow10((28 - b.s) as nat);
    let m = b.m;
    assert((-m) * p == -(m * p)) by (nonlinear_arith);
}

proof fn lemma_zero_units(a: Dec)
    ensures
        a.m == 0 ==> a.units() == 0,
{
    let p = pow10((28 - a.s) as nat);
    let m = a.m;
    assert(m == 0 ==> m * p == 0) by (nonlinear_arith);
}

/// A difference is within the limits.
pub proof fn lemma_difference_valid(a: Dec, b: Dec)
    requires
        a.valid(),
        b.valid(),
        difference(a, b) is Some,
    ensures
        difference(a, b)->0.valid(),
{
}

proof fn lemma_exact_ratio(x: int, y: int)
    requires
        y != 0,
        abs_int(x) % abs_int(y) == 0,
    ensures
        exact_ratio(x, y) * y == x,
        abs_int(exact_ratio(x, y)) == abs_int(x) / abs_int(y),
{
    let u = abs_int(x);
    let v = abs_int(y);
    let q = u / v;
    assert(q * v == u && q >= 0) by (nonlinear_arith)
        requires
            u % v == 0,
            u >= 0,
            v > 0,
            q == u / v,
    ;
    assert((-q) * v == -(q * v)) by (nonlinear_arith);
    assert(q * (-v) == -(q * v)) by (nonlinear_arith);
    assert((-q) * (-v) == q * v) by (nonlinear_arith);
}

/// A division is exact where the mantissas divide without a remainder, or the quotient has at most
/// eight decimal places and 18 digits: the quotient times the divisor is the dividend.
pub proof fn law_quotient_is_exact(a: Dec, b: Dec)
    requires
        a.valid(),
        b.valid(),
        b.m != 0,
        short_ratio(a, b) is Some || (quotient(a, b) is Some && abs_int(a.m) % abs_int(b.m) == 0),
    ensures
        quotient(a, b) is Some,
        quotient(a, b)->0.units() * b.units() == a.units() * pow10(28),
{
    let pa = pow10((28 - a.s) as nat);
    let pb = pow10((28 - b.s) as nat);
    let t = pow10(28);
    lemma_pow10_positive(a.s);
    lemma_pow10_positive(b.s);
    lemma_pow10_positive((28 - a.s) as nat);
    lemma_pow10_positive((28 - b.s) as nat);
    lemma_pow10_add(a.s, (28 - a.s) as nat);
    lemma_pow10_add(b.s, (28 - b.s) as nat);
    assert(a.s + (28 - a.s) == 28 && b.s + (28 - b.s) == 28);
    let ta = pow10(a.s);
    let tb = pow10(b.s);
    let m1 = a.m;
    let m2 = b.m;
    if m1 == 0 {
        lemma_zero_units(a);
        lemma_zero_units(zero());
        assert(0 * b.units() == 0 && 0 * t == 0) by (nonlinear_arith);
    } else if abs_int(m1) % abs_int(m2) == 0 {
        lemma_exact_ratio(m1, m2);
        let k = exact_ratio(m1, m2);
        if a.s >= b.s {
            let e = (a.s - b.s) as nat;
            let pe = pow10((28 - e) as nat);
            lemma_pow10_add((28 - e) as nat, (28 - b.s) as nat);
            lemma_pow10_add((28 - a.s) as nat, 28);
            assert((28 - e) + (28 - b.s) == (28 - a.s) + 28);
            assert((k * pe) * (m2 * pb) == (m1 * pa) * t) by (nonlinear_arith)
                requires
                    k * m2 == m1,
                    pe * pb == pa * t,
            ;
        } else {
            let e = (b.s - a.s) as nat;
            let pe = pow10(e);
            lemma_pow10_positive(e);
            lemma_pow10_add(e, (28 - b.s) as nat);
            assert(e + (28 - b.s) == 28 - a.s);
            if short_ratio(a, b) is Some {
                lemma_short_whole(a, b);
            }
            assert(abs_int(k) * pe <= max_mantissa());
            assert(((k * pe) * t) * (m2 * pb) == (m1 * pa) * t) by (nonlinear_arith)
                requires
                    k * m2 == m1,
                    pa == pe * pb,
            ;
        }
    } else {
        let n = short_ratio(a, b)->0;
        let x = m1 * pow10(8 + b.s);
        let y = m2 * ta;
        assert(y != 0) by (nonlinear_arith)
            requires
                y == m2 * ta,
                m2 != 0,
                ta >= 1,
        ;
        lemma_exact_ratio(x, y);
        let w = pow10(20);
        assert(quotient(a, b)->0.units() == n * w);
        lemma_pow10_add(8, b.s);
        lemma_pow10_add(8, 20);
        let h = pow10(8);
        assert(n * (m2 * ta) == m1 * (h * tb));
        assert(((n * w) * (m2 * pb)) * ta == ((m1 * pa) * t) * ta) by {
            assert(((n * w) * (m2 * pb)) * ta == (n * (m2 * ta)) * (w * pb)) by (nonlinear_arith);
            assert((m1 * (h * tb)) * (w * pb) == m1 * ((h * w) * (tb * pb))) by (nonlinear_arith);
            assert(((m1 * pa) * t) * ta == m1 * (t * (ta * pa))) by (nonlinear_arith);
        }
        let l = (n * w) * (m2 * pb);
        let r = (m1 * pa) * t;
        assert(l == r) by (nonlinear_arith)
            requires
                l * ta == r * ta,
                ta >= 1,
        ;
    }
}

/// A whole quotient of few digits fits.
proof fn lemma_short_whole(a: Dec, b: Dec)
    requires
        a.valid(),
        b.valid(),
        b.m != 0,
        a.s < b.s,
        abs_int(a.m) % abs_int(b.m) == 0,
        short_ratio(a, b) is Some,
    ensures
        abs_int(exact_ratio(a.m, b.m)) * pow10((b.s - a.s) as nat) <= max_mantissa(),
{
    let k = exact_ratio(a.m, b.m);
    let m2 = b.m;
    let ta = pow10(a.s);
    let e = (b.s - a.s) as nat;
    let pe = pow10(e);
    let h = pow10(8);
    let x = a.m * pow10(8 + b.s);
    let y = b.m * ta;
    let n = short_ratio(a, b)->0;
    lemma_pow10_positive(a.s);
    lemma_pow10_positive(e);
    lemma_pow10_positive(8);
    lemma_pow10_add(8, b.s);
    lemma_pow10_add(a.s, e);
    assert(a.s + e == b.s);
    lemma_exact_ratio(a.m, b.m);
    assert(y != 0) by (nonlinear_arith)
        requires
            y == m2 * ta,
            m2 != 0,
            ta >= 1,
    ;
    lemma_exact_ratio(x, y);
    assert((k * m2) * (h * (ta * pe)) == (k * pe * h) * (m2 * ta)) by (nonlinear_arith);
    let z = k * pe * h;
    assert(n == z) by (nonlinear_arith)
        requires
            n * y == z * y,
            y != 0,
    ;
    let v = abs_int(k);
    assert(abs_int(z) == v * pe * h) by (nonlinear_arith)
        requires
            z == k * pe * h,
            v == abs_int(k),
            pe >= 1,
            h >= 1,
    ;
    assert(v * pe <= v * pe * h) by (nonlinear_arith)
        requires
            v >= 0,
            pe >= 1,
            h >= 1,
    ;
}

proof fn lemma_exact_rounds(n: int, d: int, q: int)
    requires
        q * d == n,
        d != 0,
    ensures
        rounds_to(n, d, q),
{
    let t = pow10(27);
    lemma_pow10_positive(27);
    let e = abs_int(d);
    let f = abs_int(q);
    assert(0 * t == 0 && e * (t + f) >= 0) by (nonlinear_arith)
        requires
            e >= 0,
            f >= 0,
            t >= 1,
    ;
    if q > 0 {
        assert((n < 0) == (d < 0)) by (nonlinear_arith)
            requires
                q * d == n,
                q > 0,
        ;
    } else if q < 0 {
        assert((n < 0) == (d > 0)) by (nonlinear_arith)
            requires
                q * d == n,
                q < 0,
        ;
    }
}

/// The sign of a number is that of its mantissa.
pub proof fn lemma_units_sign(a: Dec)
    ensures
        a.units() == 0 <==> a.m == 0,
        a.units() > 0 <==> a.m > 0,
{
    let p = pow10((28 - a.s) as nat);
    let m = a.m;
    lemma_pow10_positive((28 - a.s) as nat);
    assert((m * p == 0 <==> m == 0) && (m * p > 0 <==> m > 0)) by (nonlinear_arith)
        requires
            p >= 1,
    ;
}

/// A quotient is what rounding makes of the dividend divided by the divisor.
pub proof fn law_quotient_is_rounded(a: Dec, b: Dec)
    requires
        a.valid(),
        b.valid(),
        quotient(a, b) is Some,
    ensures
        quotient(a, b)->0.valid(),
        rounds_to(a.units() * pow10(28), b.units(), quotient(a, b)->0.units()),
{
    lemma_units_sign(a);
    lemma_units_sign(b);
    let q = quotient(a, b)->0;
    let t = pow10(28);
    if a.m == 0 {
        lemma_units_sign(zero());
        assert(0 * t == 0 && 0 * b.units() == 0) by (nonlinear_arith);
        lemma_exact_rounds(a.units() * t, b.units(), q.units());
    } else if abs_int(a.m) % abs_int(b.m) == 0 {
        law_quotient_is_exact(a, b);
        lemma_exact_rounds(a.units() * t, b.units(), q.units());
        lemma_exact_ratio(a.m, b.m);
        let k = exact_ratio(a.m, b.m);
        let u = abs_int(a.m);
        let v = abs_int(b.m);
        assert(u / v <= u) by (nonlinear_arith)
            requires
                u >= 0,
                v >= 1,
        ;
        if a.s < b.s {
            let pe = pow10((b.s - a.s) as nat);
            lemma_pow10_positive((b.s - a.s) as nat);
            assert(abs_int(k * pe) == abs_int(k) * pe) by (nonlinear_arith)
                requires
                    pe >= 1,
            ;
        }
    } else if short_ratio(a, b) is Some {
        law_quotient_is_exact(a, b);
        lemma_exact_rounds(a.units() * t, b.units(), q.units());
        let x = a.m * pow10(8 + b.s);
        let ta = pow10(a.s);
        let m2 = b.m;
        let y = m2 * ta;
        lemma_pow10_positive(a.s);
        assert(y != 0) by (nonlinear_arith)
            requires
                y == m2 * ta,
                m2 != 0,
                ta >= 1,
        ;
        lemma_exact_ratio(x, y);
    }
}

/// A product is what rounding makes of the factors multiplied.
pub proof fn law_product_is_rounded(a: Dec, b: Dec)
    requires
        a.valid(),
        b.valid(),
        product(a, b) is Some,
    ensures
        product(a, b)->0.valid(),
        rounds_to(a.units() * b.units(), pow10(28), product(a, b)->0.units()),
{
    let p = Dec { m: a.m * b.m, s: a.s + b.s };
    lemma_pow10_positive(28);
    if p.m == 0 {
        let x = a.m;
        let y = b.m;
        assert(x == 0 || y == 0) by (nonlinear_arith)
            requires
                x * y == 0,
        ;
        lemma_units_sign(a);
        lemma_units_sign(b);
        lemma_units_sign(zero());
        let u = a.units();
        let v = b.units();
        assert(u * v == 0) by (nonlinear_arith)
            requires
                u == 0 || v == 0,
        ;
        assert(0 * pow10(28) == 0) by (nonlinear_arith);
        lemma_exact_rounds(u * v, pow10(28), 0);
    } else if p.valid() {
        law_product_is_exact(a, b);
        lemma_exact_rounds(a.units() * b.units(), pow10(28), product(a, b)->0.units());
    }
}

/// A product that fits is exact: its value is that of the factors multiplied.
pub proof fn law_product_is_exact(a: Dec, b: Dec)
    requires
        a.valid(),
        b.valid(),
        (Dec { m: a.m * b.m, s: a.s + b.s }).valid(),
    ensures
        product(a, b) is Some,
        product(a, b)->0.units() * pow10(28) == a.units() * b.units(),
{
    let p = pow10((28 - a.s) as nat);
    let q = pow10((28 - b.s) as nat);
    let t = pow10((28 - (a.s + b.s)) as nat);
    lemma_pow10_add((28 - (a.s + b.s)) as nat, 28);
    lemma_pow10_add((28 - a.s) as nat, (28 - b.s) as nat);
    assert((28 - (a.s + b.s)) + 28 == (28 - a.s) + (28 - b.s));
    assert(t * pow10(28) == p * q);
    let m = a.m;
    let n = b.m;
    let u = pow10(28);
    assert((m * n) * t * u == (m * n) * (t * u)) by (nonlinear_arith);
    assert((m * n) * (p * q) == (m * p) * (n * q)) by (nonlinear_arith);
    if m * n == 0 {
        assert(0 * t * u == 0) by (nonlinear_arith);
        assert(zero().units() == 0 * pow10(28));
        assert((m * p) * (n * q) == 0) by (nonlinear_arith)
            requires
                (m * n) * (p * q) == (m * p) * (n * q),
                m * n == 0,
        ;
    }
}

/// Rounding to a number of places gives a number of that many places, no farther from the number
/// than half of the last place; a number that has no more places stays what it is.
pub proof fn law_rounding_is_nearest(d: Dec, dp: nat)
    requires
        d.s <= 28,
        dp <= 28,
    ensures
        d.rounded(dp).s <= 28,
        d.rounded(dp).units() % pow10((28 - dp) as nat) == 0,
        2 * (d.rounded(dp).units() - d.units()) <= pow10((28 - dp) as nat),
        2 * (d.units() - d.rounded(dp).units()) <= pow10((28 - dp) as nat),
        d.units() % pow10((28 - dp) as nat) == 0 ==> d.rounded(dp).units() == d.units(),
{
    let p = pow10((28 - dp) as nat);
    lemma_pow10_positive((28 - dp) as nat);
    if d.s <= dp {
        let e = pow10((dp - d.s) as nat);
        lemma_pow10_add((dp - d.s) as nat, (28 - dp) as nat);
        assert((dp - d.s) + (28 - dp) == 28 - d.s);
        let m = d.m;
        let k = m * e;
        assert(m * (e * p) == k * p) by (nonlinear_arith)
            requires
                k == m * e,
        ;
        assert(k * p % p == 0) by (nonlinear_arith)
            requires
                p >= 1,
        ;
    } else {
        let e = pow10((d.s - dp) as nat);
        let w = pow10((28 - d.s) as nat);
        lemma_pow10_positive((d.s - dp) as nat);
        lemma_pow10_positive((28 - d.s) as nat);
        lemma_pow10_add((d.s - dp) as nat, (28 - d.s) as nat);
        assert((d.s - dp) + (28 - d.s) == 28 - dp);
        let m = d.m;
        let h = half_even(m, e);
        let u = abs_int(m);
        let q = u / e;
        let r = u % e;
        assert(u == q * e + r && 0 <= r < e) by (nonlinear_arith)
            requires
                q == u / e,
                r == u % e,
                e >= 1,
        ;
        let g = abs_int(h);
        assert(g == q || g == q + 1) by {
            assert(q >= 0) by (nonlinear_arith)
                requires
                    q == u / e,
                    u >= 0,
                    e >= 1,
            ;
        }
        assert(2 * (g * e - u) <= e && 2 * (u - g * e) <= e) by {
            if g == q {
                assert(2 * r <= e);
            } else {
                assert((q + 1) * e == q * e + e) by (nonlinear_arith);
                assert(2 * r >= e);
            }
        }
        assert((-g) * e == -(g * e)) by (nonlinear_arith);
        let x = h * e - m;
        assert(2 * x <= e && -2 * x <= e);
        assert(h * p == (h * e) * w) by (nonlinear_arith)
            requires
                p == e * w,
        ;
        assert(h * p - m * w == x * w) by (nonlinear_arith)
            requires
                h * p == (h * e) * w,
                x == h * e - m,
        ;
        assert(2 * (x * w) <= p && -2 * (x * w) <= p) by (nonlinear_arith)
            requires
                2 * x <= e,
                -2 * x <= e,
                p == e * w,
                w >= 1,
        ;
        assert(h * p % p == 0) by (nonlinear_arith)
            requires
                p >= 1,
        ;
    }
    let a = d.rounded(dp).units();
    let b = d.units();
    if b % p == 0 && d.s > dp {
        assert((a - b) % p == 0) by {
            let i = a / p;
            let j = b / p;
            assert(a == i * p && b == j * p) by (nonlinear_arith)
                requires
                    a % p == 0,
                    b % p == 0,
                    i == a / p,
                    j == b / p,
                    p >= 1,
            ;
            assert(a - b == (i - j) * p) by (nonlinear_arith)
                requires
                    a == i * p,
                    b == j * p,
            ;
            let k = i - j;
            assert(k * p % p == 0) by (nonlinear_arith)
                requires
                    p >= 1,
            ;
        }
        let x = a - b;
        let k = x / p;
        assert(x == k * p) by (nonlinear_arith)
            requires
                x % p == 0,
                k == x / p,
                p >= 1,
        ;
        assert(k == 0) by (nonlinear_arith)
            requires
                x == k * p,
                2 * x <= p,
                -2 * x <= p,
                p >= 1,
        ;
        assert(0 * p == 0) by (nonlinear_arith);
    }
}

/// Where a dividend is a whole number of hundred-millionths of its divisor, of at most 18 digits,
/// the quotient is exactly that number.
pub proof fn law_quotient_of_multiple(a: Dec, b: Dec, k: int)
    requires
        a.valid(),
        b.valid(),
        b.m != 0,
        a.units() * pow10(8) == k * b.units(),
        abs_int(k) < 1_000_000_000_000_000_000,
    ensures
        quotient(a, b) is Some,
        quotient(a, b)->0.valid(),
        quotient(a, b)->0.units() == k * pow10(20),
{
    let pa = pow10((28 - a.s) as nat);
    let pb = pow10((28 - b.s) as nat);
    let ta = pow10(a.s);
    let tb = pow10(b.s);
    let h = pow10(8);
    let t = pow10(28);
    let m1 = a.m;
    let m2 = b.m;
    lemma_pow10_positive(a.s);
    lemma_pow10_positive(b.s);
    lemma_pow10_positive(28);
    lemma_pow10_positive(20);
    lemma_pow10_positive((28 - b.s) as nat);
    lemma_pow10_add(a.s, (28 - a.s) as nat);
    lemma_pow10_add(b.s, (28 - b.s) as nat);
    assert(a.s + (28 - a.s) == 28 && b.s + (28 - b.s) == 28);
    lemma_pow10_add(8, b.s);
    let x = m1 * pow10(8 + b.s);
    let y = m2 * ta;
    // x = k * y
    assert(x * t == (k * y) * t) by {
        assert((m1 * (h * tb)) * (ta * pa) == ((m1 * pa) * h) * (ta * tb)) by (nonlinear_arith);
        assert((k * (m2 * pb)) * (ta * tb) == (k * (m2 * ta)) * (tb * pb)) by (nonlinear_arith);
    }
    let z = k * y;
    assert(x == z) by (nonlinear_arith)
        requires
            x * t == z * t,
            t >= 1,
    ;
    assert(y != 0) by (nonlinear_arith)
        requires
            y == m2 * ta,
            m2 != 0,
            ta >= 1,
    ;
    let f = abs_int(k);
    let v = abs_int(y);
    assert(abs_int(x) == f * v) by (nonlinear_arith)
        requires
            x == k * y,
            f == abs_int(k),
            v == abs_int(y),
    ;
    assert((f * v) % v == 0 && (f * v) / v == f) by (nonlinear_arith)
        requires
            v >= 1,
    ;
    assert(short_ratio(a, b) is Some);
    law_quotient_is_exact(a, b);
    law_quotient_is_rounded(a, b);
    let q = quotient(a, b)->0.units();
    let u = b.units();
    lemma_pow10_add(8, 20);
    lemma_units_sign(b);
    let w = pow10(20);
    assert(q * u == (k * w) * u) by {
        assert((a.units() * h) * w == a.units() * (h * w)) by (nonlinear_arith);
        assert((k * u) * w == (k * w) * u) by (nonlinear_arith);
    }
    let kw = k * w;
    assert(q == kw) by (nonlinear_arith)
        requires
            q * u == kw * u,
            u != 0,
    ;
}

/// A quotient reaches a number exactly when the dividend reaches that many divisors, but for a
/// hundred units of the smallest scale on either side.
pub proof fn law_quotient_reaches(a: Dec, b: Dec, k: int)
    requires
        a.valid(),
        b.valid(),
        b.units() > 0,
        quotient(a, b) is Some,
        0 < k <= pow10(29),
    ensures
        a.units() * pow10(28) >= b.units() * (k + 102) ==> quotient(a, b)->0.units() >= k,
        quotient(a, b)->0.units() >= k ==> a.units() * pow10(28) >= b.units() * (k - 102),
{
    law_quotient_is_rounded(a, b);
    let t = pow10(27);
    lemma_pow10_positive(27);
    assert(pow10(28) == 10 * t);
    assert(pow10(29) == 10 * pow10(28));
    let q = quotient(a, b)->0.units();
    let n = a.units() * pow10(28);
    let d = b.units();
    let e = q * d - n;
    let g = abs_int(q);
    assert(e * t <= d * (t + g) && -e * t <= d * (t + g)) by (nonlinear_arith)
        requires
            abs_int(e) * t <= d * (t + g),
            t >= 1,
    ;
    if n >= d * (k + 102) && q < k {
        assert(n - q * d >= d * 102 + d * (k - q)) by (nonlinear_arith)
            requires
                n >= d * (k + 102),
        ;
        if q >= 0 {
            assert((d * 102 + d * (k - q)) * t > d * (t + q)) by (nonlinear_arith)
                requires
                    0 <= q < k,
                    k <= 100 * t,
                    d > 0,
                    t >= 1,
            ;
            assert((n - q * d) * t >= (d * 102 + d * (k - q)) * t) by (nonlinear_arith)
                requires
                    n - q * d >= d * 102 + d * (k - q),
                    t >= 1,
            ;
        } else {
            let p = -q;
            assert((d * 102 + d * (k + p)) * t > d * (t + p)) by (nonlinear_arith)
                requires
                    p > 0,
                    k > 0,
                    d > 0,
                    t >= 1,
            ;
            assert((n - q * d) * t >= (d * 102 + d * (k + p)) * t) by (nonlinear_arith)
                requires
                    n - q * d >= d * 102 + d * (k - q),
                    p == -q,
                    t >= 1,
            ;
        }
        assert(false);
    }
    if q >= k && n < d * (k - 102) {
        // The error grows more slowly than the quotient.
        let x = q - k;
        assert(q * d - n > d * 102 + d * x) by (nonlinear_arith)
            requires
                n < d * (k - 102),
                x == q - k,
        ;
        assert((d * 102 + d * x) * t >= d * (t + q)) by (nonlinear_arith)
            requires
                q == x + k,
                x >= 0,
                0 < k <= 100 * t,
                d > 0,
                t >= 1,
        ;
        assert((q * d - n) * t > (d * 102 + d * x) * t) by (nonlinear_arith)
            requires
                q * d - n > d * 102 + d * x,
                t >= 1,
        ;
        assert(false);
    }
}

} // verus!
