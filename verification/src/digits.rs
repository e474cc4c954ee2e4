//! Decimal digit strings as byte sequences, and their numeric values.

use vstd::prelude::*;

verus! {

/// The byte is an ASCII decimal digit.
pub open spec fn is_digit(b: u8) -> bool {
    48 <= b <= 57
}

/// Numeric value of one ASCII digit byte.
pub open spec fn digit_val(b: u8) -> int {
    b - 48
}

/// Every byte of `s` is an ASCII digit.
pub open spec fn all_digits(s: Seq<u8>) -> bool {
    forall|i: int| 0 <= i < s.len() ==> is_digit(#[trigger] s[i])
}

/// Ten to the power `n`.
pub open spec fn pow10(n: nat) -> nat
    decreases n,
{
    if n == 0 {
        1
    } else {
        10 * pow10((n - 1) as nat)
    }
}

pub proof fn lemma_pow10_pos(n: nat)
    ensures
        pow10(n) >= 1,
    decreases n,
{
    if n > 0 {
        lemma_pow10_pos((n - 1) as nat);
    }
}

pub proof fn lemma_pow10_mono(a: nat, b: nat)
    requires
        a <= b,
    ensures
        pow10(a) <= pow10(b),
    decreases b,
{
    if a < b {
        lemma_pow10_mono(a, (b - 1) as nat);
    }
}

/// Value of a string of ASCII digits, most significant first.
pub open spec fn digits_val(s: Seq<u8>) -> int
    decreases s.len(),
{
    if s.len() == 0 {
        0
    } else {
        10 * digits_val(s.drop_last()) + digit_val(s.last())
    }
}

pub proof fn lemma_digits_val_bound(s: Seq<u8>)
    requires
        all_digits(s),
    ensures
        0 <= digits_val(s) < pow10(s.len()),
    decreases s.len(),
{
    if s.len() > 0 {
        assert(all_digits(s.drop_last())) by {
            assert(forall|i: int|
                0 <= i < s.len() - 1 ==> #[trigger] s.drop_last()[i] == s[i]);
        }
        lemma_digits_val_bound(s.drop_last());
        assert(is_digit(s.last()));
        assert(digits_val(s.drop_last()) <= pow10((s.len() - 1) as nat) - 1);
    }
}

pub proof fn lemma_digits_val_append(a: Seq<u8>, b: Seq<u8>)
    ensures
        digits_val(a + b) == digits_val(a) * pow10(b.len()) + digits_val(b),
    decreases b.len(),
{
    if b.len() == 0 {
        assert(a + b =~= a);
        assert(digits_val(a) * 1 == digits_val(a));
    } else {
        lemma_digits_val_append(a, b.drop_last());
        assert((a + b).drop_last() =~= a + b.drop_last());
        assert((a + b).last() == b.last());
        let p = pow10((b.len() - 1) as nat);
        assert(10 * (digits_val(a) * p) == digits_val(a) * (10 * p)) by (nonlinear_arith);
    }
}

/// A digit string's value is zero exactly when every digit is the zero
/// digit.
pub proof fn lemma_digits_val_zero_iff(s: Seq<u8>)
    requires
        all_digits(s),
    ensures
        digits_val(s) == 0 <==> (forall|j: int| 0 <= j < s.len() ==> s[j] == 48),
    decreases s.len(),
{
    if s.len() > 0 {
        assert(all_digits(s.drop_last())) by {
            assert(forall|i: int|
                0 <= i < s.len() - 1 ==> #[trigger] s.drop_last()[i] == s[i]);
        }
        lemma_digits_val_bound(s.drop_last());
        lemma_digits_val_zero_iff(s.drop_last());
        assert(is_digit(s.last()));
        if digits_val(s) == 0 {
            assert(digits_val(s.drop_last()) == 0 && digit_val(s.last()) == 0);
            assert(forall|j: int| 0 <= j < s.len() - 1 ==> #[trigger] s[j] == s.drop_last()[j]);
        } else {
            if forall|j: int| 0 <= j < s.len() ==> s[j] == 48 {
                assert(forall|j: int|
                    0 <= j < s.drop_last().len() ==> #[trigger] s.drop_last()[j] == s[j]);
                assert(digits_val(s.drop_last()) == 0);
                assert(s.last() == 48);
            }
        }
    }
}

/// Decimal digit string of `n`: no leading zeros, a single zero digit for zero.
pub open spec fn u_digits(n: nat) -> Seq<u8>
    decreases n,
{
    if n < 10 {
        seq![(48 + n) as u8]
    } else {
        u_digits(n / 10).push((48 + n % 10) as u8)
    }
}

pub proof fn lemma_u_digits(n: nat)
    ensures
        all_digits(u_digits(n)),
        digits_val(u_digits(n)) == n,
        u_digits(n).len() >= 1,
    decreases n,
{
    if n < 10 {
        let s = u_digits(n);
        assert(s.len() == 1);
        assert(s.drop_last() =~= Seq::<u8>::empty());
        assert(s.last() == (48 + n) as u8);
        assert(digit_val((48 + n) as u8) == n);
        assert(digits_val(s) == 10 * digits_val(s.drop_last()) + digit_val(s.last()));
        assert(digits_val(Seq::<u8>::empty()) == 0);
    } else {
        lemma_u_digits(n / 10);
        let s = u_digits(n);
        let t = u_digits(n / 10);
        assert(s.drop_last() =~= t);
        assert(s.last() == (48 + n % 10) as u8);
        assert(n % 10 < 10 && n / 10 * 10 + n % 10 == n) by (nonlinear_arith)
            requires n >= 10;
        assert(digit_val((48 + n % 10) as u8) == n % 10);
        assert(digits_val(s) == 10 * digits_val(t) + n % 10);
        assert(10 * (n / 10) + n % 10 == n);
        assert(forall|i: int| 0 <= i < s.len() ==> is_digit(#[trigger] s[i])) by {
            assert(forall|i: int| 0 <= i < t.len() ==> s[i] == #[trigger] t[i]);
            assert(is_digit(s[s.len() - 1]));
        }
    }
}

/// `p`-digit, zero-padded decimal string of `n` (low digits of `n` if larger).
pub open spec fn padded_digits(n: nat, p: nat) -> Seq<u8>
    decreases p,
{
    if p == 0 {
        Seq::empty()
    } else {
        padded_digits(n / 10, (p - 1) as nat).push((48 + n % 10) as u8)
    }
}

pub proof fn lemma_padded_digits(n: nat, p: nat)
    requires
        n < pow10(p),
    ensures
        all_digits(padded_digits(n, p)),
        padded_digits(n, p).len() == p,
        digits_val(padded_digits(n, p)) == n,
    decreases p,
{
    if p > 0 {
        assert(n / 10 < pow10((p - 1) as nat)) by (nonlinear_arith)
            requires n < 10 * pow10((p - 1) as nat);
        lemma_padded_digits(n / 10, (p - 1) as nat);
        let s = padded_digits(n, p);
        let t = padded_digits(n / 10, (p - 1) as nat);
        assert(s.drop_last() =~= t);
        assert(s.last() == (48 + n % 10) as u8);
        assert(n % 10 < 10 && n / 10 * 10 + n % 10 == n) by (nonlinear_arith);
        assert(forall|i: int| 0 <= i < s.len() ==> is_digit(#[trigger] s[i])) by {
            assert(forall|i: int| 0 <= i < t.len() ==> s[i] == #[trigger] t[i]);
            assert(is_digit(s[s.len() - 1]));
        }
    }
}

/// Computes ten to the power `n` for `n` at most nine.
pub fn pow10_u64(n: u8) -> (r: u64)
    requires
        n <= 9,
    ensures
        r == pow10(n as nat),
{
    let mut r: u64 = 1;
    let mut i: u8 = 0;
    while i < n
        invariant
            i <= n,
            n <= 9,
            r == pow10(i as nat),
        decreases n - i,
    {
        proof {
            lemma_pow10_mono(i as nat, 8);
            reveal_with_fuel(pow10, 10);
            assert(pow10(8) == 100000000);
        }
        r = r * 10;
        i = i + 1;
    }
    r
}

} // verus!
