//! Fixed-point integer balances rendered as trimmed decimal text.

use vstd::arithmetic::div_mod::{
    lemma_basic_div, lemma_breakdown, lemma_div_denominator, lemma_fundamental_div_mod,
};
use vstd::prelude::*;

verus! {

/// An unsigned 256-bit amount in the smallest unit of a currency, held as
/// four 64-bit limbs, least significant first.
#[derive(Clone, Copy, Debug, PartialEq, Eq)]
pub struct Wei {
    pub limbs: [u64; 4],
}

pub open spec fn limb_base() -> nat {
    0x1_0000_0000_0000_0000nat
}

impl Wei {
    /// The amount as a natural number.
    pub open spec fn value(&self) -> nat {
        (self.limbs[0] as nat) + limb_base() * ((self.limbs[1] as nat) + limb_base() * ((
        self.limbs[2] as nat) + limb_base() * (self.limbs[3] as nat)))
    }

    pub fn from_u64(v: u64) -> (w: Wei)
        ensures
            w.value() == v as nat,
    {
        Wei { limbs: [v, 0, 0, 0] }
    }

    pub fn from_limbs(limbs: [u64; 4]) -> (w: Wei)
        ensures
            w.limbs == limbs,
    {
        Wei { limbs }
    }
}

pub open spec fn pow10(d: nat) -> nat
    decreases d,
{
    if d == 0 {
        1
    } else {
        10 * pow10((d - 1) as nat)
    }
}

/// The character of a decimal digit.
pub open spec fn digit_char(v: nat) -> char {
    if v == 0 {
        '0'
    } else if v == 1 {
        '1'
    } else if v == 2 {
        '2'
    } else if v == 3 {
        '3'
    } else if v == 4 {
        '4'
    } else if v == 5 {
        '5'
    } else if v == 6 {
        '6'
    } else if v == 7 {
        '7'
    } else if v == 8 {
        '8'
    } else {
        '9'
    }
}

/// The decimal digits of `n`, most significant first, without leading zeros
/// (`"0"` for zero).
pub open spec fn digits_of(n: nat) -> Seq<char>
    decreases n,
{
    if n < 10 {
        seq![digit_char(n)]
    } else {
        digits_of(n / 10).push(digit_char(n % 10))
    }
}

/// The lowest `w` decimal digits of `n`, most significant first, zero-padded.
pub open spec fn low_digits(n: nat, w: nat) -> Seq<char>
    decreases w,
{
    if w == 0 {
        Seq::empty()
    } else {
        low_digits(n / 10, (w - 1) as nat).push(digit_char(n % 10))
    }
}

/// `s` without its trailing `'0'` characters.
pub open spec fn trim_zeros(s: Seq<char>) -> Seq<char>
    decreases s.len(),
{
    if s.len() > 0 && s.last() == '0' {
        trim_zeros(s.drop_last())
    } else {
        s
    }
}

/// The text of `raw` read as a fixed-point number with `decimals` implied
/// fractional digits: the integer part, then, if the fraction is not zero,
/// a point and the fraction's digits without trailing zeros.
pub open spec fn balance_text(raw: nat, decimals: nat) -> Seq<char> {
    let whole = digits_of(raw / pow10(decimals));
    let fraction = trim_zeros(low_digits(raw, decimals));
    if fraction.len() == 0 {
        whole
    } else {
        whole + seq!['.'] + fraction
    }
}

/// `w` zero digits.
pub open spec fn zeros(w: nat) -> Seq<char> {
    Seq::new(w, |i: int| '0')
}

proof fn lemma_pow10_positive(d: nat)
    ensures
        pow10(d) > 0,
    decreases d,
{
    if d > 0 {
        lemma_pow10_positive((d - 1) as nat);
    }
}

proof fn lemma_digits_nonempty(n: nat)
    ensures
        digits_of(n).len() >= 1,
    decreases n,
{
    if n >= 10 {
        lemma_digits_nonempty(n / 10);
    }
}

proof fn lemma_low_digits_len(n: nat, w: nat)
    ensures
        low_digits(n, w).len() == w,
    decreases w,
{
    if w > 0 {
        lemma_low_digits_len(n / 10, (w - 1) as nat);
    }
}

/// With more than `w` digits, the digits of `n` are those of its quotient by
/// `10^w` followed by its lowest `w` digits.
proof fn lemma_digits_split(n: nat, w: nat)
    requires
        digits_of(n).len() > w,
    ensures
        digits_of(n) == digits_of(n / pow10(w)) + low_digits(n, w),
    decreases w,
{
    if w == 0 {
        assert(pow10(w) == 1);
        assert(n / 1 == n);
        assert(digits_of(n) =~= digits_of(n / pow10(w)) + low_digits(n, w));
    } else {
        let w1 = (w - 1) as nat;
        assert(n >= 10) by {
            if n < 10 {
                assert(digits_of(n).len() == 1);
            }
        }
        assert(digits_of(n) == digits_of(n / 10).push(digit_char(n % 10)));
        assert(low_digits(n, w) == low_digits(n / 10, w1).push(digit_char(n % 10)));
        assert(pow10(w) == 10 * pow10(w1));
        lemma_digits_split(n / 10, w1);
        lemma_pow10_positive(w1);
        lemma_div_denominator(n as int, 10, pow10(w1) as int);
        assert(n / 10 / pow10(w1) == n / pow10(w));
        assert(digits_of(n) =~= digits_of(n / pow10(w)) + low_digits(n, w));
    }
}

/// With at most `w` digits, `n` is below `10^w` and its lowest `w` digits are
/// its digits padded with leading zeros.
proof fn lemma_digits_short(n: nat, w: nat)
    requires
        digits_of(n).len() <= w,
    ensures
        n < pow10(w),
        low_digits(n, w) == zeros((w - digits_of(n).len()) as nat) + digits_of(n),
    decreases w,
{
    lemma_digits_nonempty(n);
    let w1 = (w - 1) as nat;
    if n < 10 {
        lemma_pow10_positive(w1);
        lemma_low_digits_zero(w1);
        assert(low_digits(n, w) =~= zeros((w - digits_of(n).len()) as nat) + digits_of(n));
    } else {
        lemma_digits_short(n / 10, w1);
        let p = pow10(w1);
        assert(n < 10 * p) by (nonlinear_arith)
            requires
                n / 10 < p,
        ;
        assert(low_digits(n, w) =~= zeros((w - digits_of(n).len()) as nat) + digits_of(n));
    }
}

proof fn lemma_low_digits_zero(w: nat)
    ensures
        low_digits(0, w) == zeros(w),
    decreases w,
{
    if w > 0 {
        lemma_low_digits_zero((w - 1) as nat);
        assert(low_digits(0, w) =~= zeros(w));
    }
}

/// Trimming stops at the first position from which only zeros follow.
proof fn lemma_trim_at(x: Seq<char>, k: int)
    requires
        0 <= k <= x.len(),
        k == 0 || x[k - 1] != '0',
        forall|j: int| k <= j < x.len() ==> x[j] == '0',
    ensures
        trim_zeros(x) == x.subrange(0, k),
    decreases x.len(),
{
    if x.len() > k {
        lemma_trim_at(x.drop_last(), k);
        assert(x.drop_last().subrange(0, k) =~= x.subrange(0, k));
    } else {
        assert(x.subrange(0, k) =~= x);
    }
}

/// The text of an amount whose digits `x` are more than `decimals`, where
/// `end` is one past the last digit that is not zero.
proof fn lemma_text_long(r: nat, dn: nat, x: Seq<char>, end: int)
    requires
        x == digits_of(r),
        x.len() > dn,
        0 <= end <= x.len(),
        end == 0 || x[end - 1] != '0',
        forall|j: int| end <= j < x.len() ==> x[j] == '0',
    ensures
        balance_text(r, dn) == if end > x.len() - dn {
            x.subrange(0, x.len() - dn) + seq!['.'] + x.subrange(x.len() - dn, end)
        } else {
            x.subrange(0, x.len() - dn)
        },
{
    let n = x.len();
    lemma_digits_split(r, dn);
    lemma_low_digits_len(r, dn);
    let low = low_digits(r, dn);
    assert(low =~= x.subrange(n - dn, n as int));
    assert(digits_of(r / pow10(dn)) =~= x.subrange(0, n - dn));
    if end > n - dn {
        lemma_trim_at(low, end - (n - dn));
        assert(low.subrange(0, end - (n - dn)) =~= x.subrange(n - dn, end));
    } else {
        lemma_trim_at(low, 0);
    }
}

/// The text of an amount whose digits `x` are at most `decimals`, where
/// `end` is one past the last digit that is not zero.
proof fn lemma_text_short(r: nat, dn: nat, x: Seq<char>, end: int)
    requires
        x == digits_of(r),
        x.len() <= dn,
        0 <= end <= x.len(),
        end == 0 || x[end - 1] != '0',
        forall|j: int| end <= j < x.len() ==> x[j] == '0',
    ensures
        balance_text(r, dn) == if end > 0 {
            seq!['0', '.'] + (zeros((dn - x.len()) as nat) + x.subrange(0, end))
        } else {
            seq!['0']
        },
{
    let n = x.len();
    lemma_digits_short(r, dn);
    lemma_pow10_positive(dn);
    lemma_basic_div(r as int, pow10(dn) as int);
    assert(digits_of(0) =~= seq!['0']);
    let low = low_digits(r, dn);
    let pad = (dn - n) as int;
    if end > 0 {
        lemma_trim_at(low, pad + end);
        assert(low.subrange(0, pad + end) =~= zeros(pad as nat) + x.subrange(0, end));
        assert(balance_text(r, dn) =~= seq!['0', '.'] + (zeros((dn - x.len()) as nat)
            + x.subrange(0, end)));
    } else {
        lemma_trim_at(low, 0);
    }
}

/// The text of `raw` as a fixed-point number with `decimals` fractional
/// digits: the integer part, and a point and the fraction with its trailing
/// zeros trimmed where the fraction is not zero.
pub fn format_balance(raw: &Wei, decimals: u32) -> (text: String)
    ensures
        text@ == balance_text(raw.value(), decimals as nat),
{
    let digits = decimal_digits(raw);
    let s = digits.as_str();
    let n = s.unicode_len();
    let ghost x = s@;
    // `end` is one past the last digit that is not zero.
    let mut end: usize = n;
    while end > 0 && s.get_char(end - 1) == '0'
        invariant
            end <= n,
            n == x.len(),
            x == s@,
            forall|j: int| end <= j < n ==> x[j] == '0',
        decreases end,
    {
        end = end - 1;
    }
    let d = decimals as usize;
    proof {
        reveal_strlit(".");
        reveal_strlit("0");
    }
    if n > d {
        proof {
            lemma_text_long(raw.value(), decimals as nat, x, end as int);
        }
        let mut out = String::from_str(s.substring_char(0, n - d));
        if end > n - d {
            out.append(".");
            out.append(s.substring_char(n - d, end));
        }
        out
    } else {
        proof {
            lemma_text_short(raw.value(), decimals as nat, x, end as int);
        }
        let mut out = String::from_str("0");
        if end > 0 {
            out.append(".");
            let mut k: usize = 0;
            while k < d - n
                invariant
                    k <= d - n,
                    out@ == seq!['0', '.'] + zeros(k as nat),
                decreases d - n - k,
            {
                proof {
                    reveal_strlit("0");
                }
                out.append("0");
                k = k + 1;
                assert(out@ =~= seq!['0', '.'] + zeros(k as nat));
            }
            out.append(s.substring_char(0, end));
            assert(out@ =~= seq!['0', '.'] + (zeros((d - n) as nat) + x.subrange(0, end as int)));
        }
        out
    }
}

/// The value of a decimal digit character (zero for any other character).
pub open spec fn digit_value(c: char) -> nat {
    if c == '1' {
        1
    } else if c == '2' {
        2
    } else if c == '3' {
        3
    } else if c == '4' {
        4
    } else if c == '5' {
        5
    } else if c == '6' {
        6
    } else if c == '7' {
        7
    } else if c == '8' {
        8
    } else if c == '9' {
        9
    } else {
        0
    }
}

/// The number that a string of decimal digits denotes.
pub open spec fn digits_value(s: Seq<char>) -> nat
    decreases s.len(),
{
    if s.len() == 0 {
        0
    } else {
        digits_value(s.drop_last()) * 10 + digit_value(s.last())
    }
}

/// The position of the first `'.'` in `t`, or its length if there is none.
pub open spec fn point_at(t: Seq<char>) -> int
    decreases t.len(),
{
    if t.len() == 0 || t[0] == '.' {
        0
    } else {
        1 + point_at(t.drop_first())
    }
}

/// Decimal text read as a number and multiplied by `10^decimals`: the
/// integer part before the first point, the fraction after it.
pub open spec fn scaled_value(t: Seq<char>, decimals: nat) -> nat {
    let p = point_at(t);
    let whole = digits_value(t.subrange(0, p)) * pow10(decimals);
    if p >= t.len() {
        whole
    } else {
        let f = t.subrange(p + 1, t.len() as int);
        whole + digits_value(f) * pow10((decimals - f.len()) as nat)
    }
}

proof fn lemma_digits_value_of(n: nat)
    ensures
        digits_value(digits_of(n)) == n,
        forall|i: int| 0 <= i < digits_of(n).len() ==> digits_of(n)[i] != '.',
    decreases n,
{
    let c = n % 10;
    assert(digit_value(digit_char(c)) == c && digit_char(c) != '.');
    if n < 10 {
        assert(digits_of(n).drop_last() =~= Seq::<char>::empty());
        assert(digits_value(Seq::<char>::empty()) == 0);
        assert(digit_value(digit_char(n)) == n && digit_char(n) != '.');
        assert(digits_value(digits_of(n)) == n);
    } else {
        lemma_digits_value_of(n / 10);
        lemma_fundamental_div_mod(n as int, 10);
        assert(digits_of(n) == digits_of(n / 10).push(digit_char(c)));
        assert(digits_of(n).drop_last() =~= digits_of(n / 10));
        assert(digits_of(n).last() == digit_char(c));
        assert(digits_value(digits_of(n)) == (n / 10) * 10 + c);
    }
}

proof fn lemma_low_digits_value(n: nat, w: nat)
    ensures
        digits_value(low_digits(n, w)) == n % pow10(w),
    decreases w,
{
    if w > 0 {
        let w1 = (w - 1) as nat;
        lemma_low_digits_value(n / 10, w1);
        lemma_pow10_positive(w1);
        assert(low_digits(n, w).drop_last() =~= low_digits(n / 10, w1));
        lemma_breakdown(n as int, 10, pow10(w1) as int);
    }
}

proof fn lemma_trim_value(x: Seq<char>)
    ensures
        trim_zeros(x).len() <= x.len(),
        digits_value(trim_zeros(x)) * pow10((x.len() - trim_zeros(x).len()) as nat)
            == digits_value(x),
    decreases x.len(),
{
    let t = trim_zeros(x);
    if x.len() > 0 && x.last() == '0' {
        lemma_trim_value(x.drop_last());
        assert(t == trim_zeros(x.drop_last()));
        let k = (x.drop_last().len() - t.len()) as nat;
        let a = digits_value(t);
        let pk = pow10(k);
        assert(a * pk == digits_value(x.drop_last()));
        assert(digits_value(x) == digits_value(x.drop_last()) * 10);
        assert(pow10(k + 1) == 10 * pk);
        assert((x.len() - t.len()) as nat == k + 1);
        assert(a * (10 * pk) == (a * pk) * 10) by (nonlinear_arith);
        assert(a * pow10(k + 1) == digits_value(x));
    } else {
        assert(t == x);
        assert(pow10(0) == 1);
        assert((x.len() - t.len()) as nat == 0);
        assert(digits_value(t) * 1 == digits_value(x));
    }
}

proof fn lemma_point_at_prefix(a: Seq<char>, b: Seq<char>)
    requires
        forall|i: int| 0 <= i < a.len() ==> a[i] != '.',
    ensures
        point_at(a + b) == a.len() + point_at(b),
    decreases a.len(),
{
    if a.len() > 0 {
        lemma_point_at_prefix(a.drop_first(), b);
        assert((a + b).drop_first() =~= a.drop_first() + b);
    } else {
        assert(a + b =~= b);
    }
}

/// Reading the text of `raw` back as a decimal number and scaling it by
/// `10^decimals` gives `raw` again.
pub proof fn lemma_format_round_trip(raw: nat, decimals: nat)
    ensures
        scaled_value(balance_text(raw, decimals), decimals) == raw,
{
    let p = pow10(decimals);
    let q = raw / p;
    let whole = digits_of(q);
    let low = low_digits(raw, decimals);
    let f = trim_zeros(low);
    let t = balance_text(raw, decimals);
    lemma_pow10_positive(decimals);
    lemma_digits_value_of(q);
    lemma_low_digits_value(raw, decimals);
    lemma_low_digits_len(raw, decimals);
    lemma_trim_value(low);
    lemma_fundamental_div_mod(raw as int, p as int);
    if f.len() == 0 {
        lemma_point_at_prefix(whole, Seq::empty());
        assert(whole + Seq::<char>::empty() =~= whole);
        assert(t.subrange(0, point_at(t)) =~= whole);
        let v = digits_value(f);
        let m = pow10((low.len() - f.len()) as nat);
        assert(v == 0);
        assert(v * m == 0) by (nonlinear_arith)
            requires
                v == 0,
        ;
        assert(raw % p == 0);
        assert(scaled_value(t, decimals) == q * p);
        assert(q * p == p * q) by (nonlinear_arith);
    } else {
        let tail = seq!['.'] + f;
        assert(t =~= whole + tail);
        lemma_point_at_prefix(whole, tail);
        assert(point_at(tail) == 0);
        assert(t.subrange(0, whole.len() as int) =~= whole);
        assert(t.subrange(whole.len() + 1int, t.len() as int) =~= f);
        assert(q * p == p * q) by (nonlinear_arith);
    }
}

/// Relies on `Display` of ethers' `U256` (uint's `construct_uint!`): it
/// writes the decimal digits of the value, most significant first, and
/// `"0"` for zero.
#[verifier::external_body]
fn decimal_digits(amount: &Wei) -> (r: String)
    ensures
        r@ == digits_of(amount.value()),
{
    ethers::types::U256(amount.limbs).to_string()
}

} // verus!
