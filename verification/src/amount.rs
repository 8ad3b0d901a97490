//! Token amounts: 256-bit unsigned integers, and amounts that carry the number
//! of decimal places they are written in.

use crate::codec::{lemma_split, u64_to_vec, u8_to_vec, Encode};
use vstd::bytes::spec_u64_to_le_bytes;
use vstd::prelude::*;

verus! {

/// One more than the largest limb.
pub open spec fn limb_base() -> nat {
    0x1_0000_0000_0000_0000
}

/// One more than the largest 256-bit unsigned integer.
pub open spec fn uint_limit() -> nat {
    limb_base() * limb_base() * limb_base() * limb_base()
}

/// Ten to the power of `n`.
pub open spec fn pow10(n: nat) -> nat
    decreases n,
{
    if n == 0 {
        1
    } else {
        10 * pow10((n - 1) as nat)
    }
}

/// The number of decimal places of the native token.
pub const NATIVE_MAX_DECIMAL_PLACES: u8 = 6;

/// A 256-bit unsigned integer, least significant limb first.
#[derive(Clone, Copy, Debug, PartialEq, Eq, Structural)]
pub struct Uint(pub u64, pub u64, pub u64, pub u64);

impl View for Uint {
    type V = nat;

    open spec fn view(&self) -> nat {
        self.0 as nat + limb_base() * (self.1 as nat + limb_base() * (self.2 as nat + limb_base()
            * self.3 as nat))
    }
}

/// The low limb of a double-width number.
fn low_limb(x: u128) -> (r: u64)
    ensures
        r == x % 0x1_0000_0000_0000_0000,
{
    (x % 0x1_0000_0000_0000_0000u128) as u64
}

/// The high limb of a double-width number.
fn high_limb(x: u128) -> (r: u64)
    ensures
        r == x / 0x1_0000_0000_0000_0000,
{
    (x / 0x1_0000_0000_0000_0000u128) as u64
}

/// Every value is below the limit, and equal values have equal limbs.
pub proof fn lemma_uint_view(a: Uint, b: Uint)
    ensures
        a@ < uint_limit(),
        a@ == b@ <==> a == b,
{
    assert(uint_limit() == 0x1_0000_0000_0000_0000_0000_0000_0000_0000_0000_0000_0000_0000_0000_0000_0000_0000);
}

/// The number `n`.
pub open spec fn uint_from(n: nat) -> Uint {
    Uint(
        (n % limb_base()) as u64,
        (n / limb_base() % limb_base()) as u64,
        (n / limb_base() / limb_base() % limb_base()) as u64,
        (n / limb_base() / limb_base() / limb_base()) as u64,
    )
}

/// A number that is not too large is represented.
pub proof fn lemma_uint_from(n: nat)
    requires
        n < uint_limit(),
    ensures
        uint_from(n)@ == n,
{
}

impl Uint {
    /// The number zero.
    pub fn zero() -> (r: Uint)
        ensures
            r@ == 0,
    {
        Uint(0, 0, 0, 0)
    }

    /// Whether this is zero.
    pub fn is_zero(&self) -> (r: bool)
        ensures
            r == (self@ == 0),
    {
        self.0 == 0 && self.1 == 0 && self.2 == 0 && self.3 == 0
    }

    /// Whether this is less than `other`.
    pub fn less_than(&self, other: &Uint) -> (r: bool)
        ensures
            r == (self@ < other@),
    {
        if self.3 != other.3 {
            self.3 < other.3
        } else if self.2 != other.2 {
            self.2 < other.2
        } else if self.1 != other.1 {
            self.1 < other.1
        } else {
            self.0 < other.0
        }
    }

    /// The sum, if it fits into 256 bits.
    pub fn checked_add(&self, other: &Uint) -> (r: Option<Uint>)
        ensures
            match r {
                Some(sum) => sum@ == self@ + other@,
                None => self@ + other@ >= uint_limit(),
            },
    {
        let s0: u128 = self.0 as u128 + other.0 as u128;
        let s1: u128 = self.1 as u128 + other.1 as u128 + high_limb(s0) as u128;
        let s2: u128 = self.2 as u128 + other.2 as u128 + high_limb(s1) as u128;
        let s3: u128 = self.3 as u128 + other.3 as u128 + high_limb(s2) as u128;
        if high_limb(s3) != 0 {
            None
        } else {
            Some(Uint(low_limb(s0), low_limb(s1), low_limb(s2), low_limb(s3)))
        }
    }

    /// The difference, if it is not negative.
    pub fn checked_sub(&self, other: &Uint) -> (r: Option<Uint>)
        ensures
            match r {
                Some(difference) => difference@ == self@ - other@,
                None => self@ < other@,
            },
    {
        let base: u128 = 0x1_0000_0000_0000_0000;
        let d0: u128 = base + self.0 as u128 - other.0 as u128;
        let d1: u128 = base + self.1 as u128 + high_limb(d0) as u128 - 1 - other.1 as u128;
        let d2: u128 = base + self.2 as u128 + high_limb(d1) as u128 - 1 - other.2 as u128;
        let d3: u128 = base + self.3 as u128 + high_limb(d2) as u128 - 1 - other.3 as u128;
        if high_limb(d3) == 0 {
            None
        } else {
            Some(Uint(low_limb(d0), low_limb(d1), low_limb(d2), low_limb(d3)))
        }
    }

    /// Ten times this number, if it fits into 256 bits.
    pub fn checked_mul_ten(&self) -> (r: Option<Uint>)
        ensures
            match r {
                Some(product) => product@ == 10 * self@,
                None => 10 * self@ >= uint_limit(),
            },
    {
        let p0: u128 = self.0 as u128 * 10;
        let p1: u128 = self.1 as u128 * 10 + high_limb(p0) as u128;
        let p2: u128 = self.2 as u128 * 10 + high_limb(p1) as u128;
        let p3: u128 = self.3 as u128 * 10 + high_limb(p2) as u128;
        if high_limb(p3) != 0 {
            None
        } else {
            Some(Uint(low_limb(p0), low_limb(p1), low_limb(p2), low_limb(p3)))
        }
    }

    /// The quotient and the remainder by ten.
    pub fn div_rem_ten(&self) -> (r: (Uint, u64))
        ensures
            self@ == 10 * r.0@ + r.1,
            r.1 < 10,
    {
        let base: u128 = 0x1_0000_0000_0000_0000;
        let n3: u128 = self.3 as u128;
        let n2: u128 = (n3 % 10) * base + self.2 as u128;
        let n1: u128 = (n2 % 10) * base + self.1 as u128;
        let n0: u128 = (n1 % 10) * base + self.0 as u128;
        (
            Uint((n0 / 10) as u64, (n1 / 10) as u64, (n2 / 10) as u64, (n3 / 10) as u64),
            (n0 % 10) as u64,
        )
    }
}

impl Encode for Uint {
    open spec fn encoding(&self) -> Seq<u8> {
        spec_u64_to_le_bytes(self.0) + spec_u64_to_le_bytes(self.1) + spec_u64_to_le_bytes(self.2)
            + spec_u64_to_le_bytes(self.3)
    }

    open spec fn fits(&self) -> bool {
        true
    }

    fn serialize_to_vec(&self) -> (r: Vec<u8>) {
        let mut r: Vec<u8> = u64_to_vec(self.0);
        r.append(&mut u64_to_vec(self.1));
        r.append(&mut u64_to_vec(self.2));
        r.append(&mut u64_to_vec(self.3));
        r
    }
}

/// The encoding of a number has 32 bytes, and differs for different numbers.
pub proof fn lemma_uint_encoding(a: Uint, b: Uint)
    ensures
        a.encoding().len() == 32,
        a.encoding() == b.encoding() ==> a == b,
{
    vstd::bytes::lemma_auto_spec_u64_to_from_le_bytes();
    let (a0, b0) = (spec_u64_to_le_bytes(a.0), spec_u64_to_le_bytes(b.0));
    let (a1, b1) = (spec_u64_to_le_bytes(a.1), spec_u64_to_le_bytes(b.1));
    let (a2, b2) = (spec_u64_to_le_bytes(a.2), spec_u64_to_le_bytes(b.2));
    let (a3, b3) = (spec_u64_to_le_bytes(a.3), spec_u64_to_le_bytes(b.3));
    if a.encoding() == b.encoding() {
        lemma_split(a0 + a1 + a2, a3, b0 + b1 + b2, b3);
        lemma_split(a0 + a1, a2, b0 + b1, b2);
        lemma_split(a0, a1, b0, b1);
        assert(vstd::bytes::spec_u64_from_le_bytes(a0) == a.0);
        assert(vstd::bytes::spec_u64_from_le_bytes(a1) == a.1);
        assert(vstd::bytes::spec_u64_from_le_bytes(a2) == a.2);
        assert(vstd::bytes::spec_u64_from_le_bytes(a3) == a.3);
    }
}

/// A number of tokens, counted in the smallest unit of the token.
#[derive(Clone, Copy, Debug, PartialEq, Eq, Structural)]
pub struct Amount {
    pub raw: Uint,
}

impl View for Amount {
    type V = nat;

    open spec fn view(&self) -> nat {
        self.raw@
    }
}

impl Amount {
    /// No tokens.
    pub fn zero() -> (r: Amount)
        ensures
            r@ == 0,
    {
        Amount { raw: Uint::zero() }
    }

    /// Whether there are no tokens.
    pub fn is_zero(&self) -> (r: bool)
        ensures
            r == (self@ == 0),
    {
        self.raw.is_zero()
    }
}

/// The number one, in the smallest unit of a [`Dec`], which has twelve decimal places.
pub const DEC_ONE: u64 = 1_000_000_000_000;

/// A signed fixed-point number: its multiple of the smallest unit, in 256 bits and
/// two's complement.
#[derive(Clone, Copy, Debug, PartialEq, Eq, Structural)]
pub struct Dec {
    pub raw: Uint,
}

/// The number that `dec` is, counted in its smallest unit.
pub open spec fn dec_units(dec: Dec) -> int {
    if dec.raw@ < uint_limit() / 2 {
        dec.raw@ as int
    } else {
        dec.raw@ - uint_limit()
    }
}

/// Whether a commission rate is bounded inside 0-1.
pub open spec fn rate_in_bounds(rate: Dec) -> bool {
    0 <= dec_units(rate) <= DEC_ONE
}

impl Dec {
    /// Whether this can be a commission rate: a number from zero to one.
    pub fn is_rate(&self) -> (r: bool)
        ensures
            r == rate_in_bounds(*self),
    {
        proof {
            lemma_uint_view(self.raw, self.raw);
        }
        self.raw.3 == 0 && self.raw.2 == 0 && self.raw.1 == 0 && self.raw.0 <= DEC_ONE
    }
}

impl Encode for Dec {
    open spec fn encoding(&self) -> Seq<u8> {
        self.raw.encoding()
    }

    open spec fn fits(&self) -> bool {
        true
    }

    fn serialize_to_vec(&self) -> (r: Vec<u8>) {
        self.raw.serialize_to_vec()
    }
}

/// Why the precision of an amount cannot be changed as asked.
#[derive(Clone, Copy, Debug, PartialEq, Eq, Structural)]
pub enum AmountError {
    /// Fewer decimal places were asked for than the amount has.
    PrecisionDecrease,
    /// The amount does not fit into 256 bits at the precision asked for.
    PrecisionOverflow,
}

/// An amount together with the number of its digits after the decimal point.
#[derive(Clone, Copy, Debug, PartialEq, Eq, Structural)]
pub struct DenominatedAmount {
    pub amount: Amount,
    pub denom: u8,
}

impl View for DenominatedAmount {
    type V = DenominatedAmount;

    open spec fn view(&self) -> DenominatedAmount {
        *self
    }
}

impl Encode for DenominatedAmount {
    open spec fn encoding(&self) -> Seq<u8> {
        self.amount.raw.encoding() + seq![self.denom]
    }

    open spec fn fits(&self) -> bool {
        true
    }

    fn serialize_to_vec(&self) -> (r: Vec<u8>) {
        let mut r: Vec<u8> = self.amount.raw.serialize_to_vec();
        r.append(&mut u8_to_vec(self.denom));
        r
    }
}

/// The encoding of an amount has 33 bytes, and differs for different amounts.
pub proof fn lemma_amount_encoding(a: DenominatedAmount, b: DenominatedAmount)
    ensures
        a.encoding().len() == 33,
        a.encoding() == b.encoding() ==> a == b,
{
    lemma_uint_encoding(a.amount.raw, b.amount.raw);
    lemma_uint_encoding(b.amount.raw, a.amount.raw);
    if a.encoding() == b.encoding() {
        let (x, y) = (seq![a.denom], seq![b.denom]);
        lemma_split(a.amount.raw.encoding(), x, b.amount.raw.encoding(), y);
        assert(x[0] == y[0]);
    }
}

/// Whether `a` is worth less than `b`: `a.amount / 10^a.denom < b.amount / 10^b.denom`.
pub open spec fn worth_less(a: DenominatedAmount, b: DenominatedAmount) -> bool {
    a.amount@ * pow10(b.denom as nat) < b.amount@ * pow10(a.denom as nat)
}

/// Whether `a` and `b` are worth the same.
pub open spec fn worth_same(a: DenominatedAmount, b: DenominatedAmount) -> bool {
    a.amount@ * pow10(b.denom as nat) == b.amount@ * pow10(a.denom as nat)
}

/// Whether `a` can be written with `denom` decimal places: the scale and the
/// scaled amount both have to fit into 256 bits.
pub open spec fn precision_fits(a: DenominatedAmount, denom: u8) -> bool {
    &&& pow10((denom - a.denom) as nat) < uint_limit()
    &&& a.amount@ * pow10((denom - a.denom) as nat) < uint_limit()
}

/// Whether `a` can be written with the decimal places of the native token.
pub open spec fn fits_native(a: DenominatedAmount) -> bool {
    a.denom <= NATIVE_MAX_DECIMAL_PLACES && precision_fits(a, NATIVE_MAX_DECIMAL_PLACES)
}

/// `a`, written with the decimal places of the native token.
pub open spec fn native_amount(a: DenominatedAmount) -> DenominatedAmount {
    DenominatedAmount {
        amount: Amount {
            raw: uint_from(a.amount@ * pow10((NATIVE_MAX_DECIMAL_PLACES - a.denom) as nat)),
        },
        denom: NATIVE_MAX_DECIMAL_PLACES,
    }
}

/// Writing an amount with the decimal places of the native token keeps its worth.
/// Where it has these already, it stays as it is.
pub proof fn lemma_native_amount(a: DenominatedAmount)
    requires
        fits_native(a),
    ensures
        worth_same(a, native_amount(a)),
        fits_native(native_amount(a)),
        native_amount(native_amount(a)) == native_amount(a),
        a.denom == NATIVE_MAX_DECIMAL_PLACES ==> native_amount(a) == a,
{
    let from = a.denom as nat;
    let native = NATIVE_MAX_DECIMAL_PLACES as nat;
    let diff = (native - from) as nat;
    let x = a.amount@;
    let (p, q) = (pow10(diff), pow10(from));
    lemma_uint_from(x * p);
    lemma_pow10_add(diff, from);
    assert(x * (p * q) == (x * p) * q) by (nonlinear_arith);
    let y = native_amount(a).amount@;
    assert(pow10(0) == 1);
    assert(y * 1 == y && x * 1 == x) by (nonlinear_arith);
    lemma_uint_view(native_amount(a).amount.raw, uint_from(y));
    lemma_uint_view(a.amount.raw, uint_from(x));
    lemma_uint_view(a.amount.raw, a.amount.raw);
    lemma_uint_from(x);
}

/// Amounts that are worth the same as a third are worth the same.
pub proof fn lemma_worth_same_as_third(
    a: DenominatedAmount,
    b: DenominatedAmount,
    c: DenominatedAmount,
)
    requires
        worth_same(a, c),
        worth_same(b, c),
    ensures
        worth_same(a, b),
{
    let (x, y, z) = (a.amount@, b.amount@, c.amount@);
    let (p, q, r) = (pow10(a.denom as nat), pow10(b.denom as nat), pow10(c.denom as nat));
    lemma_pow10_positive(c.denom as nat);
    assert((x * q) * r == (x * r) * q) by (nonlinear_arith);
    assert((y * p) * r == (y * r) * p) by (nonlinear_arith);
    assert((z * p) * q == (z * q) * p) by (nonlinear_arith);
    assert(x * q == y * p) by (nonlinear_arith)
        requires
            (x * q) * r == (y * p) * r,
            r >= 1,
    ;
}

pub proof fn lemma_pow10_positive(n: nat)
    ensures
        pow10(n) >= 1,
    decreases n,
{
    if n > 0 {
        lemma_pow10_positive((n - 1) as nat);
    }
}

/// Powers of ten multiply by adding exponents.
pub proof fn lemma_pow10_add(m: nat, n: nat)
    ensures
        pow10(m + n) == pow10(m) * pow10(n),
    decreases m,
{
    if m > 0 {
        lemma_pow10_add((m - 1) as nat, n);
        assert(pow10(m + n) == 10 * pow10((m + n - 1) as nat));
        assert((m + n - 1) as nat == (m - 1) as nat + n);
        let p = pow10((m - 1) as nat);
        let q = pow10(n);
        assert(10 * (p * q) == (10 * p) * q) by (nonlinear_arith);
    } else {
        assert(pow10(0) * pow10(n) == pow10(n)) by (nonlinear_arith)
            requires
                pow10(0) == 1,
        ;
    }
}

/// Powers of ten grow with the exponent.
pub proof fn lemma_pow10_monotonic(m: nat, n: nat)
    requires
        m <= n,
    ensures
        pow10(m) <= pow10(n),
    decreases n,
{
    if m < n {
        lemma_pow10_monotonic(m, (n - 1) as nat);
    }
}

/// `a` times ten to the power of `n`, if it fits into 256 bits.
fn checked_scale(a: &Uint, n: u8) -> (r: Option<Uint>)
    ensures
        match r {
            Some(scaled) => scaled@ == a@ * pow10(n as nat),
            None => a@ * pow10(n as nat) >= uint_limit(),
        },
{
    let mut scaled: Uint = *a;
    let mut i: u8 = 0;
    proof {
        assert(a@ * 1 == a@) by (nonlinear_arith);
    }
    while i < n
        invariant
            i <= n,
            scaled@ == a@ * pow10(i as nat),
        decreases n - i,
    {
        proof {
            let x = a@;
            let p = pow10(i as nat);
            assert(x * (10 * p) == 10 * (x * p)) by (nonlinear_arith);
        }
        match scaled.checked_mul_ten() {
            Some(next) => {
                scaled = next;
            },
            None => {
                proof {
                    lemma_pow10_monotonic((i + 1) as nat, n as nat);
                    let x = a@;
                    let p = pow10((i + 1) as nat);
                    let q = pow10(n as nat);
                    assert(x * p <= x * q) by (nonlinear_arith)
                        requires
                            p <= q,
                            0 <= x,
                    ;
                }
                return None;
            },
        }
        i = i + 1;
    }
    Some(scaled)
}

/// The quotient of `a` by ten to the power of `n`, and whether a remainder is left.
fn div_pow10(a: &Uint, n: u8) -> (r: (Uint, bool))
    ensures
        r.0@ * pow10(n as nat) <= a@ < (r.0@ + 1) * pow10(n as nat),
        r.1 == (a@ != r.0@ * pow10(n as nat)),
{
    let mut quotient: Uint = *a;
    let mut inexact: bool = false;
    let mut i: u8 = 0;
    proof {
        assert(a@ * 1 == a@ && (a@ + 1) * 1 == a@ + 1) by (nonlinear_arith);
    }
    while i < n
        invariant
            i <= n,
            quotient@ * pow10(i as nat) <= a@ < (quotient@ + 1) * pow10(i as nat),
            inexact == (a@ != quotient@ * pow10(i as nat)),
        decreases n - i,
    {
        let (next, digit) = quotient.div_rem_ten();
        proof {
            lemma_pow10_positive(i as nat);
            let q = quotient@ as int;
            let x = next@ as int;
            let d = digit as int;
            let p = pow10(i as nat) as int;
            assert(pow10((i + 1) as nat) == 10 * p);
            assert(q * p == x * (10 * p) + d * p) by (nonlinear_arith)
                requires
                    q == 10 * x + d,
            ;
            assert((q + 1) * p == q * p + p) by (nonlinear_arith);
            assert((x + 1) * (10 * p) == x * (10 * p) + 10 * p) by (nonlinear_arith);
            assert(0 <= d * p <= 9 * p && (d == 0 <==> d * p == 0)) by (nonlinear_arith)
                requires
                    0 <= d <= 9,
                    p >= 1,
            ;
        }
        inexact = inexact || digit != 0;
        quotient = next;
        i = i + 1;
    }
    (quotient, inexact)
}

/// Comparing `x` with the quotient `t` of `y` by `d`.
proof fn lemma_compare_with_quotient(x: int, y: int, t: int, d: int, p: int)
    requires
        t * d <= y < (t + 1) * d,
        d >= 1,
        p >= 1,
    ensures
        x * (d * p) < y * p <==> x < t || (x == t && y != t * d),
{
    assert(x * (d * p) == (x * d) * p) by (nonlinear_arith);
    assert(x * d < y <==> (x * d) * p < y * p) by (nonlinear_arith)
        requires
            p >= 1,
    ;
    assert(x < t ==> x * d < t * d) by (nonlinear_arith)
        requires
            d >= 1,
    ;
    assert(x > t ==> x * d >= (t + 1) * d) by (nonlinear_arith)
        requires
            d >= 1,
    ;
}

/// Comparing the quotient `t` of `x` by `d` with `y`.
proof fn lemma_compare_quotient(x: int, y: int, t: int, d: int, q: int)
    requires
        t * d <= x < (t + 1) * d,
        d >= 1,
        q >= 1,
    ensures
        x * q < y * (d * q) <==> t < y,
{
    assert(y * (d * q) == (y * d) * q) by (nonlinear_arith);
    assert(x < y * d <==> x * q < (y * d) * q) by (nonlinear_arith)
        requires
            q >= 1,
    ;
    assert(t < y ==> (t + 1) * d <= y * d) by (nonlinear_arith)
        requires
            d >= 1,
    ;
    assert(t >= y ==> t * d >= y * d) by (nonlinear_arith)
        requires
            d >= 1,
    ;
}

impl DenominatedAmount {
    /// Whether this is worth less than `other`.
    pub fn less_than(&self, other: &DenominatedAmount) -> (r: bool)
        ensures
            r == worth_less(*self, *other),
    {
        if self.denom <= other.denom {
            let diff: u8 = other.denom - self.denom;
            let (quotient, inexact) = div_pow10(&other.amount.raw, diff);
            proof {
                lemma_pow10_add(diff as nat, self.denom as nat);
                lemma_pow10_positive(diff as nat);
                lemma_pow10_positive(self.denom as nat);
                lemma_compare_with_quotient(
                    self.amount@ as int,
                    other.amount@ as int,
                    quotient@ as int,
                    pow10(diff as nat) as int,
                    pow10(self.denom as nat) as int,
                );
                lemma_uint_view(self.amount.raw, quotient);
            }
            self.amount.raw.less_than(&quotient) || (self.amount.raw == quotient && inexact)
        } else {
            let diff: u8 = self.denom - other.denom;
            let (quotient, _) = div_pow10(&self.amount.raw, diff);
            proof {
                lemma_pow10_add(diff as nat, other.denom as nat);
                lemma_pow10_positive(diff as nat);
                lemma_pow10_positive(other.denom as nat);
                lemma_compare_quotient(
                    self.amount@ as int,
                    other.amount@ as int,
                    quotient@ as int,
                    pow10(diff as nat) as int,
                    pow10(other.denom as nat) as int,
                );
            }
            quotient.less_than(&other.amount.raw)
        }
    }

    /// The same amount written with `denom` decimal places.
    pub fn increase_precision(&self, denom: u8) -> (r: Result<DenominatedAmount, AmountError>)
        ensures
            match r {
                Ok(a) => denom >= self.denom && precision_fits(*self, denom) && a.denom == denom
                    && a.amount@ == self.amount@ * pow10((denom - self.denom) as nat),
                Err(AmountError::PrecisionDecrease) => denom < self.denom,
                Err(AmountError::PrecisionOverflow) => denom >= self.denom && !precision_fits(
                    *self,
                    denom,
                ),
            },
    {
        if denom < self.denom {
            return Err(AmountError::PrecisionDecrease);
        }
        let diff: u8 = denom - self.denom;
        let one: Uint = Uint(1, 0, 0, 0);
        proof {
            assert(one@ == 1);
            assert(one@ * pow10(diff as nat) == pow10(diff as nat)) by (nonlinear_arith)
                requires
                    one@ == 1,
            ;
        }
        match checked_scale(&one, diff) {
            Some(scale) => {
                match checked_scale(&self.amount.raw, diff) {
                    Some(scaled) => {
                        proof {
                            lemma_uint_view(scale, scale);
                            lemma_uint_view(scaled, scaled);
                        }
                        Ok(DenominatedAmount { amount: Amount { raw: scaled }, denom })
                    },
                    None => Err(AmountError::PrecisionOverflow),
                }
            },
            None => Err(AmountError::PrecisionOverflow),
        }
    }

    /// The same amount written with the decimal places of the native token.
    pub fn to_native(&self) -> (r: Result<DenominatedAmount, AmountError>)
        ensures
            match r {
                Ok(a) => fits_native(*self) && a == native_amount(*self),
                Err(AmountError::PrecisionDecrease) => self.denom > NATIVE_MAX_DECIMAL_PLACES,
                Err(AmountError::PrecisionOverflow) => self.denom <= NATIVE_MAX_DECIMAL_PLACES
                    && !fits_native(*self),
            },
    {
        let r: Result<DenominatedAmount, AmountError> = self.increase_precision(
            NATIVE_MAX_DECIMAL_PLACES,
        );
        proof {
            if let Ok(a) = r {
                lemma_uint_view(a.amount.raw, a.amount.raw);
                lemma_uint_from(a.amount@);
                lemma_uint_view(a.amount.raw, uint_from(a.amount@));
            }
        }
        r
    }
}

} // verus!
