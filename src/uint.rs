//! 256-bit unsigned and signed values as plain words, their decimal text,
//! and the arithmetic on them, which `ethers` and `fixedpointmath` perform.
use ethers::types::{I256, U256};
use fixedpointmath::FixedPoint;
use vstd::prelude::*;

verus! {

/// 2^64, the base of one word.
pub open spec fn word_base() -> nat {
    0x1_0000_0000_0000_0000
}

/// 2^256, one past the largest unsigned value.
pub open spec fn u256_modulus() -> nat {
    word_base() * word_base() * word_base() * word_base()
}

/// 2^255, the magnitude of the most negative signed value.
pub open spec fn i256_half() -> nat {
    u256_modulus() / 2
}

/// The scale of a fixed-point number: `1.0` is held as `10^18`.
pub open spec fn fixed_one() -> nat {
    1_000_000_000_000_000_000
}

/// An unsigned 256-bit integer, least significant word first.
#[derive(Clone, Copy, Debug, PartialEq, Eq, Structural)]
pub struct Uint256 {
    pub w0: u64,
    pub w1: u64,
    pub w2: u64,
    pub w3: u64,
}

impl Uint256 {
    /// The number that the four words hold.
    pub open spec fn value(self) -> nat {
        self.w0 as nat + word_base() * (self.w1 as nat + word_base() * (self.w2 as nat
            + word_base() * self.w3 as nat))
    }

    pub fn zero() -> (r: Uint256)
        ensures
            r.value() == 0,
    {
        Uint256 { w0: 0, w1: 0, w2: 0, w3: 0 }
    }

    pub fn from_u64(v: u64) -> (r: Uint256)
        ensures
            r.value() == v,
    {
        Uint256 { w0: v, w1: 0, w2: 0, w3: 0 }
    }

    pub fn is_zero(&self) -> (r: bool)
        ensures
            r == (self.value() == 0),
    {
        proof {
            lemma_value_zero(*self);
        }
        self.w0 == 0 && self.w1 == 0 && self.w2 == 0 && self.w3 == 0
    }
}

/// The value is zero exactly when every word is.
pub proof fn lemma_value_zero(x: Uint256)
    ensures
        (x.value() == 0) == (x.w0 == 0 && x.w1 == 0 && x.w2 == 0 && x.w3 == 0),
{
    let b = word_base();
    let inner2 = x.w2 as nat + b * x.w3 as nat;
    let inner1 = x.w1 as nat + b * inner2;
    assert(b * x.w3 as nat == 0 ==> x.w3 == 0) by (nonlinear_arith)
        requires b > 0;
    assert(b * inner2 == 0 ==> inner2 == 0) by (nonlinear_arith)
        requires b > 0;
    assert(b * inner1 == 0 ==> inner1 == 0) by (nonlinear_arith)
        requires b > 0;
}

/// Four words hold less than 2^256.
pub proof fn lemma_value_bound(x: Uint256)
    ensures
        x.value() < u256_modulus(),
{
    let b = word_base();
    let v2 = x.w2 as nat + b * x.w3 as nat;
    let v1 = x.w1 as nat + b * v2;
    assert(v2 < b * b) by (nonlinear_arith)
        requires x.w2 < b, x.w3 < b, v2 == x.w2 as nat + b * x.w3 as nat;
    assert(v1 < b * b * b) by (nonlinear_arith)
        requires x.w1 < b, v2 < b * b, v1 == x.w1 as nat + b * v2;
    assert(x.value() < b * b * b * b) by (nonlinear_arith)
        requires x.w0 < b, v1 < b * b * b, x.value() == x.w0 as nat + b * v1;
}

/// A signed integer held as a sign and a magnitude; zero is never negative.
#[derive(Clone, Copy, Debug, PartialEq, Eq, Structural)]
pub struct Signed256 {
    pub negative: bool,
    pub magnitude: Uint256,
}

impl Signed256 {
    pub open spec fn wf(self) -> bool {
        self.negative ==> self.magnitude.value() > 0
    }

    /// The integer that the sign and the magnitude stand for.
    pub open spec fn value(self) -> int {
        if self.negative {
            -(self.magnitude.value() as int)
        } else {
            self.magnitude.value() as int
        }
    }

    pub fn from_unsigned(m: Uint256) -> (r: Signed256)
        ensures
            r.wf(),
            r.value() == m.value(),
    {
        Signed256 { negative: false, magnitude: m }
    }
}

// Decimal text.

pub open spec fn is_digit(c: char) -> bool {
    48 <= c as u32 && c as u32 <= 57
}

pub open spec fn all_digits(s: Seq<char>) -> bool {
    forall|i: int| 0 <= i < s.len() ==> is_digit(#[trigger] s[i])
}

pub open spec fn digit_value(c: char) -> nat {
    (c as u32 - 48) as nat
}

/// The number that a run of decimal digits reads as; the empty run reads as zero.
pub open spec fn dec_value(s: Seq<char>) -> nat
    decreases s.len(),
{
    if s.len() == 0 {
        0
    } else {
        dec_value(s.drop_last()) * 10 + digit_value(s.last())
    }
}

pub open spec fn digit_char(d: nat) -> char {
    ((d + 48) as u32) as char
}

/// The shortest decimal writing of `n`: no leading zeros, and `0` for zero.
pub open spec fn dec_string(n: nat) -> Seq<char>
    decreases n,
{
    if n < 10 {
        seq![digit_char(n)]
    } else {
        dec_string(n / 10).push(digit_char(n % 10))
    }
}

/// The decimal writing of a signed number: a minus sign before the digits
/// of a negative one.
pub open spec fn signed_dec_string(v: int) -> Seq<char> {
    if v < 0 {
        seq!['-'] + dec_string((-v) as nat)
    } else {
        dec_string(v as nat)
    }
}

/// Whether `s` starts with a sign character that the signed reading consumes.
pub open spec fn has_sign(s: Seq<char>) -> bool {
    s.len() > 0 && (s[0] == '+' || s[0] == '-')
}

/// The digits of a signed decimal writing, after an optional sign.
pub open spec fn unsigned_part(s: Seq<char>) -> Seq<char> {
    if has_sign(s) {
        s.skip(1)
    } else {
        s
    }
}

/// The integer that an optionally signed decimal writing reads as.
pub open spec fn signed_dec_value(s: Seq<char>) -> int {
    if has_sign(s) && s[0] == '-' {
        -(dec_value(s.skip(1)) as int)
    } else {
        dec_value(unsigned_part(s)) as int
    }
}

/// Whether a signed decimal writing is read as a signed 256-bit value: its
/// digits lie in [0, 2^255), or, after a `-`, in [1, 2^255].
pub open spec fn signed_dec_fits(s: Seq<char>) -> bool {
    &&& all_digits(unsigned_part(s))
    &&& if has_sign(s) && s[0] == '-' {
        0 < dec_value(s.skip(1)) <= i256_half()
    } else {
        dec_value(unsigned_part(s)) < i256_half()
    }
}

/// The decimal writing of a number is made of digits, and reading it back
/// gives the number.
pub proof fn lemma_dec_round_trip(n: nat)
    ensures
        all_digits(dec_string(n)),
        dec_value(dec_string(n)) == n,
    decreases n,
{
    let d = n % 10;
    assert(digit_value(digit_char(d)) == d && is_digit(digit_char(d)));
    if n < 10 {
        let s = dec_string(n);
        assert(s.drop_last() =~= Seq::<char>::empty());
        assert(dec_value(s) == dec_value(s.drop_last()) * 10 + digit_value(s.last()));
    } else {
        lemma_dec_round_trip(n / 10);
        let p = dec_string(n / 10);
        let s = dec_string(n);
        assert(s.drop_last() =~= p);
        assert(dec_value(s) == dec_value(p) * 10 + digit_value(s.last()));
        assert(n == (n / 10) * 10 + n % 10);
        assert forall|i: int| 0 <= i < s.len() implies is_digit(#[trigger] s[i]) by {
            if i < p.len() {
                assert(s[i] == p[i]);
            }
        }
    }
}

// Trusted calls into `ethers` and `fixedpointmath`.

/// Relies on `U256::from_dec_str`: it reads the digits from the left, fails on
/// any other character and on a value of 2^256 or more, and reads "" as zero.
#[verifier::external_body]
pub(crate) fn u256_from_dec_str(s: &str) -> (r: Option<Uint256>)
    ensures
        r is Some <==> (all_digits(s@) && dec_value(s@) < u256_modulus()),
        r matches Some(v) ==> v.value() == dec_value(s@),
{
    match U256::from_dec_str(s) {
        Ok(v) => Some(Uint256 { w0: v.0[0], w1: v.0[1], w2: v.0[2], w3: v.0[3] }),
        Err(_) => None,
    }
}

/// Relies on `I256::from_dec_str`, which takes an optional `+` or `-`, reads the
/// rest as `U256::from_dec_str` does, and fails where the sign and magnitude
/// do not make an `I256` of that sign (so "-0" fails), and on
/// `I256::into_sign_and_abs`, which splits the result into sign and magnitude.
#[verifier::external_body]
pub(crate) fn i256_from_dec_str(s: &str) -> (r: Option<Signed256>)
    ensures
        r is Some <==> signed_dec_fits(s@),
        r matches Some(v) ==> v.wf() && v.value() == signed_dec_value(s@),
{
    match I256::from_dec_str(s) {
        Ok(v) => {
            let (sign, abs) = v.into_sign_and_abs();
            let magnitude = Uint256 { w0: abs.0[0], w1: abs.0[1], w2: abs.0[2], w3: abs.0[3] };
            Some(Signed256 { negative: sign.is_negative(), magnitude })
        },
        Err(_) => None,
    }
}

/// Relies on `U256`'s `Display`: decimal digits without leading zeros.
#[verifier::external_body]
pub(crate) fn u256_to_dec_string(x: Uint256) -> (r: String)
    ensures
        r@ == dec_string(x.value()),
{
    U256([x.w0, x.w1, x.w2, x.w3]).to_string()
}

/// Relies on `U256::checked_add`: `None` exactly when the sum reaches 2^256.
#[verifier::external_body]
pub(crate) fn u256_checked_add(a: Uint256, b: Uint256) -> (r: Option<Uint256>)
    ensures
        r is Some <==> a.value() + b.value() < u256_modulus(),
        r matches Some(v) ==> v.value() == a.value() + b.value(),
{
    let r = U256([a.w0, a.w1, a.w2, a.w3]).checked_add(U256([b.w0, b.w1, b.w2, b.w3]));
    r.map(|v| Uint256 { w0: v.0[0], w1: v.0[1], w2: v.0[2], w3: v.0[3] })
}

/// Relies on `U256::checked_sub`: `None` exactly when `b` exceeds `a`.
#[verifier::external_body]
pub(crate) fn u256_checked_sub(a: Uint256, b: Uint256) -> (r: Option<Uint256>)
    ensures
        r is Some <==> b.value() <= a.value(),
        r matches Some(v) ==> v.value() == a.value() - b.value(),
{
    let r = U256([a.w0, a.w1, a.w2, a.w3]).checked_sub(U256([b.w0, b.w1, b.w2, b.w3]));
    r.map(|v| Uint256 { w0: v.0[0], w1: v.0[1], w2: v.0[2], w3: v.0[3] })
}

/// Relies on `U256::checked_mul`: `None` exactly when the product reaches 2^256.
#[verifier::external_body]
pub(crate) fn u256_checked_mul(a: Uint256, b: Uint256) -> (r: Option<Uint256>)
    ensures
        r is Some <==> a.value() * b.value() < u256_modulus(),
        r matches Some(v) ==> v.value() == a.value() * b.value(),
{
    let r = U256([a.w0, a.w1, a.w2, a.w3]).checked_mul(U256([b.w0, b.w1, b.w2, b.w3]));
    r.map(|v| Uint256 { w0: v.0[0], w1: v.0[1], w2: v.0[2], w3: v.0[3] })
}

/// Relies on `U256`'s `%`, which panics on a zero divisor.
#[verifier::external_body]
pub(crate) fn u256_rem(a: Uint256, b: Uint256) -> (r: Uint256)
    requires
        b.value() != 0,
    ensures
        r.value() == a.value() % b.value(),
{
    let v = U256([a.w0, a.w1, a.w2, a.w3]) % U256([b.w0, b.w1, b.w2, b.w3]);
    Uint256 { w0: v.0[0], w1: v.0[1], w2: v.0[2], w3: v.0[3] }
}

/// Relies on `FixedPoint::mul_down`: the product divided by `10^18`, rounded
/// down. It panics when the quotient does not fit; a product below 2^256
/// leaves it room.
#[verifier::external_body]
pub(crate) fn fixed_mul_down(a: Uint256, b: Uint256) -> (r: Uint256)
    requires
        a.value() * b.value() < u256_modulus(),
    ensures
        r.value() == a.value() * b.value() / fixed_one(),
{
    let x = FixedPoint::from(U256([a.w0, a.w1, a.w2, a.w3]));
    let v = x.mul_down(FixedPoint::from(U256([b.w0, b.w1, b.w2, b.w3]))).raw();
    Uint256 { w0: v.0[0], w1: v.0[1], w2: v.0[2], w3: v.0[3] }
}

} // verus!
