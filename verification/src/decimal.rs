//! Plain decimal byte strings, and their exact value at a fixed scale.
//!
//! A magnitude field of a source row (a price or an amount) is a decimal
//! literal: an optional minus sign, integer digits, and optionally a dot
//! followed by fraction digits. Its value at precision `p` is the literal's
//! magnitude times ten to the `p`, rounded half to even, stored exactly as an
//! integer so that downstream arithmetic never reintroduces rounding error.
//!
//! The grammar is deliberately exactly that plain notation, which is what
//! the vendor's exports write: exponent forms, a leading plus sign, a bare
//! leading dot, infinities and not-a-number spellings — which a
//! floating-point parser would also take — are rejected as malformed, so
//! that every accepted magnitude has one exact reading.

use vstd::prelude::*;
use crate::digits::{
    lemma_padded_digits, lemma_u_digits, padded_digits, u_digits,
    all_digits, digits_val, is_digit, lemma_digits_val_append, lemma_digits_val_bound,
    lemma_digits_val_zero_iff, lemma_pow10_mono, lemma_pow10_pos, pow10, pow10_u64,
};

verus! {

/// Index of the first dot byte of `u`, or `u.len()` if there is none.
pub open spec fn first_dot(u: Seq<u8>) -> int
    decreases u.len(),
{
    if u.len() == 0 {
        0
    } else if u[0] == 46 {
        0
    } else {
        1 + first_dot(u.skip(1))
    }
}

pub proof fn lemma_first_dot(u: Seq<u8>)
    ensures
        0 <= first_dot(u) <= u.len(),
        first_dot(u) < u.len() ==> u[first_dot(u)] == 46,
        forall|j: int| 0 <= j < first_dot(u) ==> u[j] != 46,
    decreases u.len(),
{
    if u.len() > 0 && u[0] != 46 {
        lemma_first_dot(u.skip(1));
        assert(forall|j: int| 0 <= j < u.skip(1).len() ==> u.skip(1)[j] == u[j + 1]);
        assert forall|j: int| 0 <= j < first_dot(u) implies u[j] != 46 by {
            if j > 0 {
                assert(u.skip(1)[j - 1] != 46);
                assert(u.skip(1)[j - 1] == u[j]);
            }
        }
    }
}

pub proof fn lemma_first_dot_at(u: Seq<u8>, i: int)
    requires
        0 <= i <= u.len(),
        forall|j: int| 0 <= j < i ==> u[j] != 46,
        i == u.len() || u[i] == 46,
    ensures
        first_dot(u) == i,
    decreases i,
{
    if i == 0 {
    } else {
        assert(u[0] != 46);
        lemma_first_dot_at(u.skip(1), i - 1);
        assert(forall|j: int| 0 <= j < u.skip(1).len() ==> u.skip(1)[j] == u[j + 1]);
    }
}

/// The string carries a leading minus sign.
pub open spec fn is_negative(s: Seq<u8>) -> bool {
    s.len() > 0 && s[0] == 45
}

/// The string with any leading minus sign removed.
pub open spec fn unsigned_part(s: Seq<u8>) -> Seq<u8> {
    if is_negative(s) {
        s.skip(1)
    } else {
        s
    }
}

/// The digits before the first dot.
pub open spec fn int_digits(u: Seq<u8>) -> Seq<u8> {
    u.take(first_dot(u))
}

/// The digits after the first dot; empty if there is no dot.
pub open spec fn frac_digits(u: Seq<u8>) -> Seq<u8> {
    if first_dot(u) == u.len() {
        Seq::empty()
    } else {
        u.skip(first_dot(u) + 1)
    }
}

/// The byte string is a plain decimal literal: an optional minus sign, at
/// least one integer digit, optionally a dot followed by fraction digits.
pub open spec fn valid_decimal(s: Seq<u8>) -> bool {
    let u = unsigned_part(s);
    &&& int_digits(u).len() > 0
    &&& all_digits(int_digits(u))
    &&& all_digits(frac_digits(u))
}

/// Magnitude at scale `p` before rounding: the integer digits shifted to
/// scale `p`, plus the first `p` fraction digits, zero-padded to `p`.
pub open spec fn base_mag(u: Seq<u8>, p: nat) -> int {
    let f = frac_digits(u);
    let kept = if f.len() <= p {
        f
    } else {
        f.take(p as int)
    };
    digits_val(int_digits(u)) * pow10(p) + digits_val(kept) * pow10((p - kept.len()) as nat)
}

/// Round-half-to-even decision over the dropped fraction digits: round up on
/// a first dropped digit above five, or equal to five with a later nonzero
/// digit; on an exact half, round to the even neighbour.
pub open spec fn rounds_up(u: Seq<u8>, p: nat) -> bool {
    let f = frac_digits(u);
    if f.len() <= p {
        false
    } else {
        let d = f[p as int];
        if d < 53 {
            false
        } else if d > 53 {
            true
        } else if exists|j: int| p < j < f.len() && f[j] != 48 {
            true
        } else {
            base_mag(u, p) % 2 == 1
        }
    }
}

/// Magnitude of the literal at scale `p`, rounded half to even.
pub open spec fn scaled_mag(u: Seq<u8>, p: nat) -> int {
    base_mag(u, p) + if rounds_up(u, p) {
        1int
    } else {
        0int
    }
}

/// The exact value a decimal byte string denotes at precision `p`: its
/// magnitude times ten to the `p`, rounded half to even, with its sign;
/// `None` if the string is not a plain decimal literal.
pub open spec fn spec_parse_scaled(s: Seq<u8>, p: nat) -> Option<int> {
    if valid_decimal(s) {
        let m = scaled_mag(unsigned_part(s), p);
        Some(
            if is_negative(s) {
                -m
            } else {
                m
            },
        )
    } else {
        None
    }
}

pub open spec fn in_i64(v: int) -> bool {
    i64::MIN <= v <= i64::MAX
}

/// `spec_parse_scaled`, restricted to values an `i64` can hold.
pub open spec fn spec_parse_scaled_i64(s: Seq<u8>, p: nat) -> Option<i64> {
    match spec_parse_scaled(s, p) {
        Some(v) => if in_i64(v) {
            Some(v as i64)
        } else {
            None
        },
        None => None,
    }
}

/// Magnitudes above this bound fit no `i64`, whatever the sign.
const MAG_CAP: i128 = 9223372036854775808;

/// If the string is a valid literal whose integer digits extend `prefix`,
/// the scaled magnitude is at least the value of `prefix`.
proof fn lemma_mag_lower_bound(u: Seq<u8>, p: nat, end: int)
    requires
        all_digits(int_digits(u)),
        all_digits(frac_digits(u)),
        0 <= end <= first_dot(u),
    ensures
        scaled_mag(u, p) >= digits_val(int_digits(u).take(end)),
{
    lemma_first_dot(u);
    let i = int_digits(u);
    assert(i.len() == first_dot(u));
    let pre = i.take(end);
    let rest = i.skip(end);
    assert(i =~= pre + rest);
    assert(all_digits(pre)) by {
        assert(forall|j: int| 0 <= j < pre.len() ==> pre[j] == i[j]);
    }
    assert(all_digits(rest)) by {
        assert(forall|j: int| 0 <= j < rest.len() ==> rest[j] == i[j + end]);
    }
    lemma_digits_val_append(pre, rest);
    lemma_digits_val_bound(pre);
    lemma_digits_val_bound(rest);
    lemma_pow10_pos(rest.len());
    assert(digits_val(pre) * pow10(rest.len()) >= digits_val(pre)) by (nonlinear_arith)
        requires
            digits_val(pre) >= 0,
            pow10(rest.len()) >= 1,
    ;
    assert(digits_val(i) >= digits_val(pre));
    let f = frac_digits(u);
    let kept = if f.len() <= p {
        f
    } else {
        f.take(p as int)
    };
    assert(all_digits(kept)) by {
        assert(forall|j: int| 0 <= j < kept.len() ==> kept[j] == f[j]);
    }
    lemma_digits_val_bound(kept);
    lemma_pow10_pos(p);
    lemma_pow10_pos((p - kept.len()) as nat);
    assert(digits_val(i) * pow10(p) >= digits_val(i)) by (nonlinear_arith)
        requires
            digits_val(i) >= 0,
            pow10(p) >= 1,
    ;
    assert(digits_val(kept) * pow10((p - kept.len()) as nat) >= 0) by (nonlinear_arith)
        requires
            digits_val(kept) >= 0,
            pow10((p - kept.len()) as nat) >= 1,
    ;
}

/// Combines a scanned literal's parts into its rounded magnitude at scale
/// `precision`: the integer value, the kept fraction digits' value, the first
/// dropped digit and whether any later dropped digit is nonzero.
#[verifier::spinoff_prover]
fn scaled_from_parts(
    mag: i128,
    fmag: i128,
    kc: u8,
    rdigit: u8,
    dropped: bool,
    sticky: bool,
    precision: u8,
    Ghost(u): Ghost<Seq<u8>>,
) -> (r: i128)
    requires
        precision <= 9,
        kc <= precision,
        0 <= mag <= MAG_CAP,
        0 <= fmag < pow10(kc as nat),
        mag == digits_val(int_digits(u)),
        ({
            let f = frac_digits(u);
            let kept = if f.len() <= precision as int {
                f
            } else {
                f.take(precision as int)
            };
            &&& kc as int == kept.len()
            &&& fmag == digits_val(kept)
            &&& (dropped <==> f.len() > precision as int)
            &&& (dropped ==> rdigit == f[precision as int])
            &&& (sticky <==> exists|j: int| precision < j < f.len() && f[j] != 48)
        }),
    ensures
        r == scaled_mag(u, precision as nat),
        r >= 0,
{
    let pw = pow10_u64(precision);
    let pad = pow10_u64(precision - kc);
    proof {
        lemma_pow10_mono(precision as nat, 9);
        lemma_pow10_mono((precision - kc) as nat, 9);
        lemma_pow10_mono(kc as nat, 9);
        reveal_with_fuel(pow10, 11);
        assert(mag * (pw as i128) <= MAG_CAP * 1000000000) by (nonlinear_arith)
            requires
                0 <= mag <= MAG_CAP,
                0 < pw <= 1000000000,
        ;
        assert(mag * (pw as i128) >= 0) by (nonlinear_arith)
            requires
                mag >= 0,
                pw > 0,
        ;
        assert(fmag * (pad as i128) < 1000000000 * 1000000000) by (nonlinear_arith)
            requires
                0 <= fmag < 1000000000,
                0 < pad <= 1000000000,
        ;
        assert(fmag * (pad as i128) >= 0) by (nonlinear_arith)
            requires
                fmag >= 0,
                pad > 0,
        ;
    }
    let base: i128 = mag * (pw as i128) + fmag * (pad as i128);
    proof {
        assert(base == base_mag(u, precision as nat));
    }
    let up = dropped && (rdigit > 53 || (rdigit == 53 && (sticky || base % 2 == 1)));
    proof {
        assert(up == rounds_up(u, precision as nat));
    }
    base + if up {
        1
    } else {
        0
    }
}
/// A magnitude above the cap fits no `i64`, whichever the sign.
proof fn lemma_int_overflow(s: Seq<u8>, p: nat, off: int, i: int)
    requires
        off == if is_negative(s) { 1int } else { 0int },
        off <= i <= s.len(),
        forall|j: int| off <= j < i ==> is_digit(#[trigger] s[j]),
        digits_val(s.subrange(off, i)) > MAG_CAP,
    ensures
        spec_parse_scaled_i64(s, p) is None,
{
    let u = unsigned_part(s);
    assert(u =~= s.subrange(off, s.len() as int));
    if valid_decimal(s) {
        lemma_first_dot(u);
        assert(forall|j: int| 0 <= j < i - off ==> u[j] == s[j + off] && is_digit(#[trigger] u[j]));
        assert(first_dot(u) >= i - off) by {
            if first_dot(u) < i - off {
                assert(u[first_dot(u)] == 46);
                assert(is_digit(u[first_dot(u)]));
            }
        }
        assert(int_digits(u).take(i - off) =~= s.subrange(off, i));
        lemma_mag_lower_bound(u, p, i - off);
        assert(scaled_mag(u, p) > MAG_CAP);
    }
}

/// Without a leading integer digit the string is no decimal literal.
proof fn lemma_no_leading_digit(s: Seq<u8>)
    requires
        ({
            let u = unsigned_part(s);
            u.len() == 0 || !is_digit(u[0])
        }),
    ensures
        !valid_decimal(s),
{
    let u = unsigned_part(s);
    lemma_first_dot(u);
    if u.len() > 0 {
        if u[0] == 46 {
            assert(first_dot(u) == 0);
        } else {
            assert(first_dot(u) >= 1) by {
                if first_dot(u) == 0 {
                    assert(u[first_dot(u)] == 46);
                }
            }
            assert(int_digits(u)[0] == u[0]);
            assert(!all_digits(int_digits(u)));
        }
    }
}

/// A byte that is neither digit nor dot, after leading digits, breaks the
/// grammar.
proof fn lemma_int_break(s: Seq<u8>, off: int, i: int)
    requires
        off == if is_negative(s) { 1int } else { 0int },
        off <= i < s.len(),
        forall|j: int| off <= j < i ==> is_digit(#[trigger] s[j]),
        !is_digit(s[i]),
        s[i] != 46,
    ensures
        !valid_decimal(s),
{
    let u = unsigned_part(s);
    assert(u =~= s.subrange(off, s.len() as int));
    lemma_first_dot(u);
    assert(forall|j: int| 0 <= j < i - off ==> u[j] == s[j + off] && is_digit(#[trigger] u[j]));
    assert(first_dot(u) >= i - off) by {
        if first_dot(u) < i - off {
            assert(u[first_dot(u)] == 46);
            assert(is_digit(u[first_dot(u)]));
        }
    }
    assert(u[i - off] == s[i]);
    assert(first_dot(u) > i - off) by {
        if first_dot(u) == i - off {
            assert(u[first_dot(u)] == 46);
        }
    }
    assert(int_digits(u)[i - off] == u[i - off]);
    assert(!all_digits(int_digits(u)));
}

/// A non-digit after the dot breaks the grammar.
proof fn lemma_frac_break(s: Seq<u8>, off: int, dot: int, i: int)
    requires
        off == if is_negative(s) { 1int } else { 0int },
        off <= dot < s.len(),
        s[dot] == 46,
        forall|j: int| off <= j < dot ==> is_digit(#[trigger] s[j]) && s[j] != 46,
        dot < i < s.len(),
        !is_digit(s[i]),
    ensures
        !valid_decimal(s),
{
    let u = unsigned_part(s);
    assert(u =~= s.subrange(off, s.len() as int));
    assert(forall|j: int| 0 <= j < dot - off ==> u[j] == s[j + off] && u[j] != 46);
    lemma_first_dot_at(u, dot - off);
    assert(frac_digits(u) =~= s.subrange(dot + 1, s.len() as int));
    assert(frac_digits(u)[i - dot - 1] == s[i]);
    assert(!all_digits(frac_digits(u)));
}

/// A fully scanned literal is valid, and its parts are the scanned ranges.
proof fn lemma_scan_shape(s: Seq<u8>, off: int, dot: int)
    requires
        off == if is_negative(s) { 1int } else { 0int },
        off < dot <= s.len(),
        forall|j: int| off <= j < dot ==> is_digit(#[trigger] s[j]),
        dot == s.len() || s[dot] == 46,
        forall|j: int| dot < j < s.len() ==> is_digit(#[trigger] s[j]),
    ensures
        valid_decimal(s),
        int_digits(unsigned_part(s)) == s.subrange(off, dot),
        frac_digits(unsigned_part(s)) == if dot == s.len() {
            Seq::<u8>::empty()
        } else {
            s.subrange(dot + 1, s.len() as int)
        },
{
    let u = unsigned_part(s);
    assert(u =~= s.subrange(off, s.len() as int));
    assert(forall|j: int| 0 <= j < dot - off ==> u[j] == s[j + off] && is_digit(#[trigger] u[j]));
    lemma_first_dot_at(u, dot - off);
    assert(int_digits(u) =~= s.subrange(off, dot));
    if dot == s.len() {
        assert(frac_digits(u) =~= Seq::<u8>::empty());
    } else {
        assert(frac_digits(u) =~= s.subrange(dot + 1, s.len() as int));
        assert(forall|j: int|
            0 <= j < frac_digits(u).len() ==> is_digit(#[trigger] frac_digits(u)[j]));
    }
}

/// Parses a decimal byte string into the exact integer it denotes at scale
/// `precision`, rounding half to even; `None` when the string is not a plain
/// decimal literal or the scaled value does not fit an `i64`.
#[verifier::rlimit(100)]
#[verifier::spinoff_prover]
#[verifier::loop_isolation(false)]
pub fn parse_scaled_i64(s: &Vec<u8>, precision: u8) -> (r: Option<i64>)
    requires
        precision <= 9,
    ensures
        r == spec_parse_scaled_i64(s@, precision as nat),
{
    let n = s.len();
    let p = precision;
    let neg = n > 0 && s[0] == 45;
    let off: usize = if neg { 1 } else { 0 };

    // Integer digits.
    let mut i = off;
    let mut mag: i128 = 0;
    while i < n && 48 <= s[i] && s[i] <= 57
        invariant
            off <= i <= n,
            forall|j: int| off <= j < i ==> is_digit(#[trigger] s@[j]),
            0 <= mag <= MAG_CAP,
            mag == digits_val(s@.subrange(off as int, i as int)),
        decreases n - i,
    {
        let d = s[i] - 48;
        mag = mag * 10 + (d as i128);
        i = i + 1;
        proof {
            assert(s@.subrange(off as int, i as int).drop_last() =~= s@.subrange(
                off as int,
                i - 1,
            ));
            assert(s@.subrange(off as int, i as int).last() == s@[i - 1]);
        }
        if mag > MAG_CAP {
            proof {
                lemma_int_overflow(s@, p as nat, off as int, i as int);
            }
            return None;
        }
    }
    if i == off {
        proof {
            assert(unsigned_part(s@) =~= s@.subrange(off as int, n as int));
            lemma_no_leading_digit(s@);
        }
        return None;
    }
    let int_end = i;

    // Fraction digits.
    let mut fmag: i128 = 0;
    let mut kc: u8 = 0;
    let mut rdigit: u8 = 0;
    let mut dropped = false;
    let mut sticky = false;
    let mut fstart = n;
    if i < n {
        if s[i] != 46 {
            proof {
                lemma_int_break(s@, off as int, i as int);
            }
            return None;
        }
        i = i + 1;
        fstart = i;
        while i < n
            invariant
                fstart <= i <= n,
                int_end == fstart - 1,
                forall|j: int| fstart <= j < i ==> is_digit(#[trigger] s@[j]),
                kc as int == if i - fstart <= p as int {
                    i - fstart
                } else {
                    p as int
                },
                0 <= fmag,
                fmag == digits_val(s@.subrange(fstart as int, fstart + kc as int)),
                fmag < pow10(kc as nat),
                dropped <==> i - fstart > p as int,
                dropped ==> rdigit == s@[fstart + p as int],
                sticky <==> exists|j: int| fstart + p < j < i && s@[j] != 48,
            decreases n - i,
        {
            let b = s[i];
            if !(48 <= b && b <= 57) {
                proof {
                    lemma_frac_break(s@, off as int, int_end as int, i as int);
                }
                return None;
            }
            let k = i - fstart;
            if k < p as usize {
                proof {
                    lemma_pow10_mono(kc as nat, 8);
                    reveal_with_fuel(pow10, 11);
                    assert(pow10(8) == 100000000);
                }
                fmag = fmag * 10 + ((b - 48) as i128);
                kc = kc + 1;
                proof {
                    assert(s@.subrange(fstart as int, fstart + kc as int).drop_last()
                        =~= s@.subrange(fstart as int, fstart + kc - 1));
                    assert(s@.subrange(fstart as int, fstart + kc as int).last() == s@[fstart
                        + kc - 1]);
                    lemma_digits_val_bound(s@.subrange(fstart as int, fstart + kc as int));
                }
            } else if k == p as usize {
                rdigit = b;
                dropped = true;
            } else {
                if b != 48 {
                    sticky = true;
                }
            }
            i = i + 1;
        }
    }

    // The scan succeeded: the literal is valid, and the locals carry its
    // parts exactly.
    let ghost u = unsigned_part(s@);
    proof {
        if fstart <= n && fstart > 0 {
            lemma_scan_shape(s@, off as int, int_end as int);
        } else {
            lemma_scan_shape(s@, off as int, n as int);
        }
    }
    let ghost f = frac_digits(u);
    proof {
        let kept = if f.len() <= p as int {
            f
        } else {
            f.take(p as int)
        };
        if fstart <= n && fstart > 0 {
            assert(f == s@.subrange(fstart as int, n as int));
            assert(kept =~= s@.subrange(fstart as int, fstart + kc as int));
            if dropped {
                assert(f[p as int] == s@[fstart + p as int]);
                assert((exists|j: int| p < j < f.len() && f[j] != 48) <==> (exists|j: int|
                    fstart + p < j < n && s@[j] != 48)) by {
                    if exists|j: int| p < j < f.len() && f[j] != 48 {
                        let j = choose|j: int| p < j < f.len() && f[j] != 48;
                        assert(s@[fstart + j] == f[j]);
                    }
                    if exists|j: int| fstart + p < j < n && s@[j] != 48 {
                        let j = choose|j: int| fstart + p < j < n && s@[j] != 48;
                        assert(f[j - fstart] == s@[j]);
                    }
                }
            }
        } else {
            assert(f.len() == 0);
            assert(f =~= s@.subrange(fstart as int, fstart + kc as int));
        }
        assert(mag == digits_val(int_digits(u)));
    }
    let rmag: i128 = scaled_from_parts(mag, fmag, kc, rdigit, dropped, sticky, p, Ghost(u));
    if neg {
        if rmag > MAG_CAP {
            return None;
        }
        if rmag == MAG_CAP {
            Some(i64::MIN)
        } else {
            Some(-(rmag as i64))
        }
    } else {
        if rmag > i64::MAX as i128 {
            return None;
        }
        Some(rmag as i64)
    }
}

/// Canonical decimal rendering of the scaled value `v` at precision `p`: a
/// minus sign when negative, the magnitude's integer digits, and exactly `p`
/// fraction digits after a dot when `p > 0`.
pub open spec fn spec_render_scaled(v: int, p: nat) -> Seq<u8> {
    let m = if v < 0 {
        (-v) as nat
    } else {
        v as nat
    };
    let sign: Seq<u8> = if v < 0 {
        seq![45u8]
    } else {
        Seq::empty()
    };
    if p == 0 {
        sign + u_digits(m)
    } else {
        sign + u_digits(m / pow10(p)) + seq![46u8] + padded_digits((m % pow10(p)) as nat, p)
    }
}

/// Round-trip stability: a value already at precision `p` re-renders and
/// re-parses to itself, so rounding at precision `p` is idempotent.
pub proof fn lemma_render_parse_round_trip(v: int, p: nat)
    requires
        p <= 9,
    ensures
        spec_parse_scaled(spec_render_scaled(v, p), p) == Some(v),
{
    let m = if v < 0 {
        (-v) as nat
    } else {
        v as nat
    };
    lemma_pow10_pos(p);
    let ih = m / pow10(p);
    let fl = m % pow10(p);
    vstd::arithmetic::div_mod::lemma_fundamental_div_mod(m as int, pow10(p) as int);
    assert(m == pow10(p) * ih + fl);
    let s = spec_render_scaled(v, p);
    let id = if p == 0 {
        u_digits(m)
    } else {
        u_digits(ih)
    };
    let fd = padded_digits(fl, p);
    if p == 0 {
        lemma_u_digits(m);
    } else {
        lemma_u_digits(ih);
        lemma_padded_digits(fl, p);
    }
    // The sign strips off, leaving integer digits, and for positive
    // precision a dot and the padded fraction digits.
    assert(id[0] != 45 && id[0] != 46);
    let u = unsigned_part(s);
    if p == 0 {
        assert(u =~= id);
    } else {
        assert(u =~= id + seq![46u8] + fd);
    }
    assert(forall|j: int| 0 <= j < id.len() ==> u[j] == id[j] && #[trigger] id[j] != 46);
    lemma_first_dot_at(u, id.len() as int);
    assert(int_digits(u) =~= id);
    if p == 0 {
        assert(frac_digits(u) =~= Seq::<u8>::empty());
        assert(valid_decimal(s));
        assert(base_mag(u, p) == digits_val(id) * 1 + 0 * 1);
        assert(scaled_mag(u, p) == m);
    } else {
        assert(frac_digits(u) =~= fd);
        assert(valid_decimal(s));
        let f = frac_digits(u);
        assert(f.len() == p);
        assert(base_mag(u, p) == digits_val(id) * pow10(p) + digits_val(fd) * pow10(0));
        assert(digits_val(id) * pow10(p) == pow10(p) * ih) by (nonlinear_arith)
            requires
                digits_val(id) == ih,
        ;
        assert(!rounds_up(u, p));
        assert(digits_val(fd) == fl);
        assert(pow10(0) == 1);
        assert(digits_val(fd) * pow10(0) == fl) by (nonlinear_arith)
            requires
                digits_val(fd) == fl,
                pow10(0) == 1,
        ;
        assert(base_mag(u, p) == pow10(p) * ih + fl);
        assert(m == pow10(p) * ih + fl);
        assert(scaled_mag(u, p) == m);
    }
    if v < 0 {
        assert(is_negative(s));
        assert(spec_parse_scaled(s, p) == Some(-(m as int)));
    } else {
        assert(!is_negative(s));
        assert(spec_parse_scaled(s, p) == Some(m as int));
    }
}

/// The decimal literal denotes exactly zero: it is valid and both its
/// integer and fraction digit strings have value zero (every digit is the
/// zero digit; the sign does not matter).
pub open spec fn spec_is_zero_decimal(s: Seq<u8>) -> bool {
    let u = unsigned_part(s);
    &&& valid_decimal(s)
    &&& digits_val(int_digits(u)) == 0
    &&& digits_val(frac_digits(u)) == 0
}

/// Decides whether a byte string is a decimal literal denoting exactly
/// zero, without rounding: the raw magnitude, not its scaled form, drives
/// decisions such as delete-versus-update.
#[verifier::rlimit(60)]
#[verifier::loop_isolation(false)]
pub fn is_zero_decimal(s: &Vec<u8>) -> (r: bool)
    ensures
        r == spec_is_zero_decimal(s@),
{
    let n = s.len();
    let neg = n > 0 && s[0] == 45;
    let off: usize = if neg {
        1
    } else {
        0
    };
    let ghost u = unsigned_part(s@);
    proof {
        assert(u =~= s@.subrange(off as int, n as int));
    }

    // Zero digits of the integer part.
    let mut i = off;
    while i < n && s[i] == 48
        invariant
            off <= i <= n,
            forall|j: int| off <= j < i ==> s@[j] == 48,
        decreases n - i,
    {
        i = i + 1;
    }
    if i == off {
        // No leading zero digit: a nonzero digit heads a nonzero literal,
        // and anything else breaks the grammar.
        if i < n && 48 < s[i] && s[i] <= 57 {
            proof {
                if valid_decimal(s@) {
                    lemma_first_dot(u);
                    assert(first_dot(u) >= 1) by {
                        if first_dot(u) == 0 {
                            assert(u[first_dot(u)] == 46);
                        }
                    }
                    assert(int_digits(u)[0] == u[0]);
                    assert(u[0] == s@[off as int]);
                    lemma_digits_val_zero_iff(int_digits(u));
                    assert(digits_val(int_digits(u)) != 0);
                }
            }
            return false;
        }
        proof {
            lemma_no_leading_digit(s@);
        }
        return false;
    }
    if i == n {
        proof {
            lemma_scan_shape(s@, off as int, n as int);
            assert(int_digits(u) == s@.subrange(off as int, n as int));
            lemma_digits_val_zero_iff(int_digits(u));
        }
        return true;
    }
    let b = s[i];
    if 48 < b && b <= 57 {
        // A nonzero digit among the integer digits.
        proof {
            if valid_decimal(s@) {
                lemma_first_dot(u);
                assert(forall|j: int|
                    0 <= j < i - off ==> u[j] == s@[j + off] && is_digit(#[trigger] u[j]));
                assert(first_dot(u) >= i - off) by {
                    if first_dot(u) < i - off {
                        assert(u[first_dot(u)] == 46);
                        assert(is_digit(u[first_dot(u)]));
                    }
                }
                assert(u[i - off] == s@[i as int]);
                assert(first_dot(u) > i - off) by {
                    if first_dot(u) == i - off {
                        assert(u[first_dot(u)] == 46);
                    }
                }
                assert(int_digits(u)[i - off] == u[i - off]);
                lemma_digits_val_zero_iff(int_digits(u));
                assert(digits_val(int_digits(u)) != 0);
            }
        }
        return false;
    }
    if b != 46 {
        proof {
            lemma_int_break(s@, off as int, i as int);
        }
        return false;
    }
    let dot = i;
    i = i + 1;

    // Zero digits of the fraction part.
    while i < n && s[i] == 48
        invariant
            dot < i <= n,
            forall|j: int| dot < j < i ==> s@[j] == 48,
        decreases n - i,
    {
        i = i + 1;
    }
    if i == n {
        proof {
            lemma_scan_shape(s@, off as int, dot as int);
            assert(int_digits(u) == s@.subrange(off as int, dot as int));
            assert(frac_digits(u) == s@.subrange(dot + 1, n as int));
            lemma_digits_val_zero_iff(int_digits(u));
            lemma_digits_val_zero_iff(frac_digits(u));
        }
        return true;
    }
    let b2 = s[i];
    if 48 < b2 && b2 <= 57 {
        // A nonzero digit among the fraction digits.
        proof {
            if valid_decimal(s@) {
                assert(forall|j: int|
                    0 <= j < dot - off ==> u[j] == s@[j + off] && u[j] != 46);
                lemma_first_dot_at(u, dot - off);
                assert(frac_digits(u) =~= s@.subrange(dot + 1, n as int));
                assert(frac_digits(u)[i - dot - 1] == s@[i as int]);
                lemma_digits_val_zero_iff(frac_digits(u));
                assert(digits_val(frac_digits(u)) != 0);
            }
        }
        return false;
    }
    proof {
        lemma_frac_break(s@, off as int, dot as int, i as int);
    }
    false
}

} // verus!
