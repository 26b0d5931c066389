//! Numbers of the generated Luau code.
//!
//! A number is held exactly, as the decimal digits that Rust's shortest
//! round-trip formatting of an `f64` gives: `digits * 10^exp`, with a sign.
//! Its text is the one `Display` gives for that `f64`.
use vstd::prelude::*;
use crate::text::{digit, nat_chars, nat_text, push_char, push_range, push_zeros, zeros};

verus! {

/// An `f64` value of the configuration or of the generated code.
#[derive(Clone, Copy, PartialEq, Eq, Structural, Debug)]
pub enum Num {
    /// `(-1)^neg * digits * 10^exp`.
    Finite { neg: bool, digits: u64, exp: i32 },
    /// Positive or negative infinity.
    Inf { neg: bool },
    /// Not a number.
    NaN,
}

impl Num {
    /// The digits carry no trailing zero after the decimal point, and zero
    /// has exponent 0: the shape of a shortest round-trip decimal.
    pub open spec fn wf(self) -> bool {
        match self {
            Num::Finite { neg, digits, exp } => {
                &&& digits == 0 ==> exp == 0
                &&& exp < 0 ==> digits % 10 != 0
            },
            _ => true,
        }
    }

    /// The number that a non-negative integer stands for.
    pub fn from_u64(v: u64) -> (r: Num)
        ensures
            r.wf(),
            r == (Num::Finite { neg: false, digits: v, exp: 0 }),
            num_text(r) == nat_text(v as nat),
    {
        Num::Finite { neg: false, digits: v, exp: 0 }
    }

    /// The number that an integer stands for.
    pub fn from_i64(v: i64) -> (r: Num)
        ensures
            r.wf(),
            r == (if v < 0 {
                Num::Finite { neg: true, digits: (-(v as int)) as u64, exp: 0 }
            } else {
                Num::Finite { neg: false, digits: v as u64, exp: 0 }
            }),
            num_text(r) == if v < 0 {
                seq!['-'] + nat_text((-(v as int)) as nat)
            } else {
                nat_text(v as nat)
            },
    {
        if v < 0 {
            let d: u64 = if v == i64::MIN {
                9223372036854775808u64
            } else {
                (-v) as u64
            };
            Num::Finite { neg: true, digits: d, exp: 0 }
        } else {
            Num::Finite { neg: false, digits: v as u64, exp: 0 }
        }
    }
}

/// The sign in front of a negative number.
pub open spec fn sign_text(neg: bool) -> Seq<char> {
    if neg {
        seq!['-']
    } else {
        seq![]
    }
}

/// The text of `digits * 10^exp` without its sign: the digits with the
/// decimal point placed, padded with zeros, never in exponent form.
pub open spec fn magnitude_text(digits: nat, exp: int) -> Seq<char> {
    let d = nat_text(digits);
    if exp >= 0 {
        d + zeros(exp as nat)
    } else if d.len() > -exp {
        d.take(d.len() + exp) + seq!['.'] + d.skip(d.len() + exp)
    } else {
        seq!['0', '.'] + zeros((-exp - d.len()) as nat) + d
    }
}

/// The text of a number in the generated code.
pub open spec fn num_text(n: Num) -> Seq<char> {
    match n {
        Num::Finite { neg, digits, exp } => sign_text(neg) + magnitude_text(digits as nat, exp as int),
        Num::Inf { neg } => if neg {
            "-inf"@
        } else {
            "inf"@
        },
        Num::NaN => "NaN"@,
    }
}

/// Appends the text of `n`.
pub fn push_num(s: &mut String, n: &Num)
    ensures
        final(s)@ == old(s)@ + num_text(*n),
{
    match n {
        Num::Finite { neg, digits, exp } => {
            let ghost s0 = s@;
            if *neg {
                push_char(s, '-');
            }
            let ghost s1 = s@;
            assert(s1 == s0 + sign_text(*neg));
            let d = nat_chars(*digits);
            let e = *exp as i64;
            if e >= 0 {
                push_range(s, &d, 0, d.len());
                push_zeros(s, e as u64);
                assert(d@.subrange(0, d@.len() as int) =~= d@);
            } else {
                let k: usize = (-e) as usize;
                if d.len() > k {
                    let cut = d.len() - k;
                    push_range(s, &d, 0, cut);
                    push_char(s, '.');
                    push_range(s, &d, cut, d.len());
                    assert(d@.take(cut as int) =~= d@.subrange(0, cut as int));
                    assert(d@.skip(cut as int) =~= d@.subrange(cut as int, d@.len() as int));
                    assert(s@ =~= s1 + (d@.take(cut as int) + seq!['.'] + d@.skip(cut as int)));
                } else {
                    push_char(s, '0');
                    push_char(s, '.');
                    push_zeros(s, (k - d.len()) as u64);
                    push_range(s, &d, 0, d.len());
                    assert(d@.subrange(0, d@.len() as int) =~= d@);
                    assert(s@ =~= s1 + (seq!['0', '.'] + zeros((k - d.len()) as nat) + d@));
                }
            }
            assert(s@ =~= s0 + num_text(*n));
        },
        Num::Inf { neg } => {
            if *neg {
                s.append("-inf");
            } else {
                s.append("inf");
            }
        },
        Num::NaN => {
            s.append("NaN");
        },
    }
}

} // verus!

verus! {

/// `10^e`.
pub open spec fn pow10(e: nat) -> nat
    decreases e,
{
    if e == 0 {
        1
    } else {
        10 * pow10((e - 1) as nat)
    }
}

/// The value of a number turned into a `u32` the way Rust's `as` does:
/// truncated toward zero, saturated at both ends, NaN as 0.
pub open spec fn num_to_u32(n: Num) -> u32 {
    match n {
        Num::Finite { neg, digits, exp } => {
            let v: int = if exp >= 0 {
                digits * pow10(exp as nat)
            } else {
                digits as int / pow10((-exp) as nat) as int
            };
            if neg {
                0
            } else if v > u32::MAX {
                u32::MAX
            } else {
                v as u32
            }
        },
        Num::Inf { neg } => if neg {
            0
        } else {
            u32::MAX
        },
        Num::NaN => 0,
    }
}

proof fn lemma_pow10_pos(e: nat)
    ensures
        pow10(e) >= 1,
    decreases e,
{
    if e > 0 {
        lemma_pow10_pos((e - 1) as nat);
    }
}

proof fn lemma_pow10_mono(a: nat, b: nat)
    requires
        a <= b,
    ensures
        pow10(a) <= pow10(b),
    decreases b,
{
    if a < b {
        lemma_pow10_mono(a, (b - 1) as nat);
        lemma_pow10_pos((b - 1) as nat);
    }
}

proof fn lemma_mul_mono(d: nat, p: nat, q: nat)
    requires
        p <= q,
    ensures
        d * p <= d * q,
{
    assert(d * p <= d * q) by (nonlinear_arith)
        requires
            p <= q,
    ;
}

impl Num {
    /// The number as a `u32`, as Rust's `as` turns an `f64` into one.
    pub fn to_u32(&self) -> (r: u32)
        ensures
            r == num_to_u32(*self),
    {
        match self {
            Num::Finite { neg, digits, exp } => {
                if *neg {
                    return 0;
                }
                if *exp >= 0 {
                    if *digits == 0 {
                        assert(0 * pow10(*exp as nat) == 0) by (nonlinear_arith);
                        return 0;
                    }
                    let mut v: u64 = *digits;
                    proof {
                        lemma_pow10_pos(*exp as nat);
                        lemma_mul_mono(*digits as nat, 1, pow10(*exp as nat));
                    }
                    if v > 4294967295 {
                        return u32::MAX;
                    }
                    let mut k: i32 = 0;
                    while k < *exp
                        invariant
                            *self == (Num::Finite { neg: *neg, digits: *digits, exp: *exp }),
                            !*neg,
                            0 <= k <= *exp,
                            v == *digits * pow10(k as nat),
                            v <= 4294967295,
                        decreases *exp - k,
                    {
                        assert(pow10((k + 1) as nat) == 10 * pow10(k as nat));
                        assert(*digits * (10 * pow10(k as nat)) == 10 * (*digits * pow10(k as nat)))
                            by (nonlinear_arith);
                        v = v * 10;
                        k += 1;
                        assert(v == *digits * pow10(k as nat));
                        if v > 4294967295 {
                            proof {
                                lemma_pow10_mono(k as nat, *exp as nat);
                                lemma_mul_mono(*digits as nat, pow10(k as nat), pow10(*exp as nat));
                            }
                            return u32::MAX;
                        }
                    }
                    v as u32
                } else {
                    let e: i64 = -(*exp as i64);
                    let mut v: u64 = *digits;
                    let mut k: i64 = 0;
                    assert(*digits as int / 1 == *digits);
                    while k < e && v > 0
                        invariant
                            0 <= k <= e,
                            e == -(*exp as int),
                            v == *digits as int / pow10(k as nat) as int,
                        decreases e - k,
                    {
                        proof {
                            lemma_pow10_pos(k as nat);
                            vstd::arithmetic::div_mod::lemma_div_denominator(
                                *digits as int,
                                pow10(k as nat) as int,
                                10,
                            );
                            assert(pow10((k + 1) as nat) == 10 * pow10(k as nat));
                            assert(pow10(k as nat) * 10 == 10 * pow10(k as nat));
                        }
                        v = v / 10;
                        k += 1;
                    }
                    proof {
                        if k < e {
                            lemma_pow10_pos(k as nat);
                            lemma_pow10_mono(k as nat, e as nat);
                            vstd::arithmetic::div_mod::lemma_div_is_ordered_by_denominator(
                                *digits as int,
                                pow10(k as nat) as int,
                                pow10(e as nat) as int,
                            );
                            vstd::arithmetic::div_mod::lemma_div_pos_is_pos(
                                *digits as int,
                                pow10(e as nat) as int,
                            );
                        }
                    }
                    if v > 4294967295 {
                        u32::MAX
                    } else {
                        v as u32
                    }
                }
            },
            Num::Inf { neg } => if *neg {
                0
            } else {
                u32::MAX
            },
            Num::NaN => 0,
        }
    }
}

} // verus!

verus! {

/// `digits * 10^(exp - base)`, with the sign: the number counted in units
/// of `10^base`, for a `base` no larger than `exp`.
pub open spec fn scaled(neg: bool, digits: u64, exp: i32, base: int) -> int {
    let m = digits * pow10((exp - base) as nat);
    if neg {
        -m
    } else {
        m
    }
}

/// The smaller of two exponents: the unit in which two numbers are both
/// whole.
pub open spec fn common_base(a: i32, b: i32) -> int {
    if a <= b {
        a as int
    } else {
        b as int
    }
}

/// `a < b` as `f64`s compare: NaN is unordered, the infinities bound
/// everything else, finite numbers compare by value.
pub open spec fn num_lt(a: Num, b: Num) -> bool {
    match (a, b) {
        (Num::NaN, _) => false,
        (_, Num::NaN) => false,
        (Num::Inf { neg: na }, Num::Inf { neg: nb }) => na && !nb,
        (Num::Inf { neg }, Num::Finite { .. }) => neg,
        (Num::Finite { .. }, Num::Inf { neg }) => !neg,
        (
            Num::Finite { neg: na, digits: da, exp: ea },
            Num::Finite { neg: nb, digits: db, exp: eb },
        ) => scaled(na, da, ea, common_base(ea, eb)) < scaled(nb, db, eb, common_base(ea, eb)),
    }
}

/// `a <= b` as `f64`s compare.
pub open spec fn num_le(a: Num, b: Num) -> bool {
    match (a, b) {
        (Num::NaN, _) => false,
        (_, Num::NaN) => false,
        (Num::Inf { neg: na }, Num::Inf { neg: nb }) => na || !nb,
        (Num::Inf { neg }, Num::Finite { .. }) => neg,
        (Num::Finite { .. }, Num::Inf { neg }) => !neg,
        (
            Num::Finite { neg: na, digits: da, exp: ea },
            Num::Finite { neg: nb, digits: db, exp: eb },
        ) => scaled(na, da, ea, common_base(ea, eb)) <= scaled(nb, db, eb, common_base(ea, eb)),
    }
}

proof fn lemma_pow10_20()
    ensures
        pow10(20) == 100000000000000000000,
{
    reveal_with_fuel(pow10, 21);
}

proof fn lemma_pow10_19()
    ensures
        pow10(19) == 10000000000000000000,
{
    reveal_with_fuel(pow10, 20);
}

/// How `da * 10^d` compares with `db`: -1, 0 or 1.
fn shifted_order(da: u64, d: u32, db: u64) -> (r: i8)
    ensures
        r == -1 <==> da * pow10(d as nat) < db,
        r == 0 <==> da * pow10(d as nat) == db,
        r == 1 <==> da * pow10(d as nat) > db,
{
    if da == 0 {
        assert(0 * pow10(d as nat) == 0) by (nonlinear_arith);
        return if db == 0 {
            0
        } else {
            -1
        };
    }
    if d >= 20 {
        proof {
            lemma_pow10_20();
            lemma_pow10_mono(20, d as nat);
            let p = pow10(d as nat);
            assert(da * p >= p) by (nonlinear_arith)
                requires
                    da >= 1,
                    p >= 0,
            ;
        }
        return 1;
    }
    let mut v: u128 = da as u128;
    let mut k: u32 = 0;
    assert(pow10(0) == 1);
    assert(da * pow10(0) == da);
    while k < d
        invariant
            k <= d < 20,
            v == da * pow10(k as nat),
        decreases d - k,
    {
        proof {
            lemma_pow10_mono((k + 1) as nat, 19);
            lemma_pow10_19();
            lemma_mul_mono(da as nat, pow10((k + 1) as nat), pow10(19));
            assert(da * pow10(19) <= 18446744073709551615 * 10000000000000000000) by (nonlinear_arith)
                requires
                    da <= 18446744073709551615,
                    pow10(19) == 10000000000000000000,
            ;
            assert(pow10((k + 1) as nat) == 10 * pow10(k as nat));
            assert(da * (10 * pow10(k as nat)) == 10 * (da * pow10(k as nat))) by (nonlinear_arith);
        }
        v = v * 10;
        k += 1;
    }
    if v < db as u128 {
        -1
    } else if v == db as u128 {
        0
    } else {
        1
    }
}

/// How `da * 10^ea` compares with `db * 10^eb`: -1, 0 or 1.
fn magnitude_order(da: u64, ea: i32, db: u64, eb: i32) -> (r: i8)
    ensures
        ({
            let x = da * pow10((ea - common_base(ea, eb)) as nat);
            let y = db * pow10((eb - common_base(ea, eb)) as nat);
            &&& r == -1 <==> x < y
            &&& r == 0 <==> x == y
            &&& r == 1 <==> x > y
        }),
{
    if ea >= eb {
        let d: u32 = (ea as i64 - eb as i64) as u32;
        assert(pow10(0) == 1);
        assert(db * pow10(0) == db);
        shifted_order(da, d, db)
    } else {
        let d: u32 = (eb as i64 - ea as i64) as u32;
        assert(pow10(0) == 1);
        assert(da * pow10(0) == da);
        let r = shifted_order(db, d, da);
        -r
    }
}

impl Num {
    /// How two finite numbers compare by value: -1, 0 or 1.
    fn finite_order(na: bool, da: u64, ea: i32, nb: bool, db: u64, eb: i32) -> (r: i8)
        ensures
            ({
                let x = scaled(na, da, ea, common_base(ea, eb));
                let y = scaled(nb, db, eb, common_base(ea, eb));
                &&& r == -1 <==> x < y
                &&& r == 0 <==> x == y
                &&& r == 1 <==> x > y
            }),
    {
        let ghost base = common_base(ea, eb);
        proof {
            lemma_pow10_pos((ea - base) as nat);
            lemma_mul_mono(da as nat, 1, pow10((ea - base) as nat));
            lemma_pow10_pos((eb - base) as nat);
            lemma_mul_mono(db as nat, 1, pow10((eb - base) as nat));
            assert(0 * pow10((ea - base) as nat) == 0) by (nonlinear_arith);
            assert(0 * pow10((eb - base) as nat) == 0) by (nonlinear_arith);
        }
        let za = da == 0;
        let zb = db == 0;
        if !na && !nb {
            magnitude_order(da, ea, db, eb)
        } else if na && nb {
            let r = magnitude_order(da, ea, db, eb);
            -r
        } else if na {
            if za && zb {
                0
            } else {
                -1
            }
        } else {
            if za && zb {
                0
            } else {
                1
            }
        }
    }

    /// `self < other`, as `f64`s compare.
    pub fn lt(&self, other: &Num) -> (r: bool)
        ensures
            r == num_lt(*self, *other),
    {
        match (self, other) {
            (Num::NaN, _) => false,
            (_, Num::NaN) => false,
            (Num::Inf { neg: na }, Num::Inf { neg: nb }) => *na && !*nb,
            (Num::Inf { neg }, Num::Finite { .. }) => *neg,
            (Num::Finite { .. }, Num::Inf { neg }) => !*neg,
            (
                Num::Finite { neg: na, digits: da, exp: ea },
                Num::Finite { neg: nb, digits: db, exp: eb },
            ) => Num::finite_order(*na, *da, *ea, *nb, *db, *eb) == -1,
        }
    }

    /// `self <= other`, as `f64`s compare.
    pub fn le(&self, other: &Num) -> (r: bool)
        ensures
            r == num_le(*self, *other),
    {
        match (self, other) {
            (Num::NaN, _) => false,
            (_, Num::NaN) => false,
            (Num::Inf { neg: na }, Num::Inf { neg: nb }) => *na || !*nb,
            (Num::Inf { neg }, Num::Finite { .. }) => *neg,
            (Num::Finite { .. }, Num::Inf { neg }) => !*neg,
            (
                Num::Finite { neg: na, digits: da, exp: ea },
                Num::Finite { neg: nb, digits: db, exp: eb },
            ) => Num::finite_order(*na, *da, *ea, *nb, *db, *eb) != 1,
        }
    }
}

} // verus!
