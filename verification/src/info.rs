//! Audio-file metadata, and the parser for the duration a probe reports.
//!
//! The probe utility prints the duration in seconds as an unsigned decimal
//! with an optional fractional part and an optional decimal exponent —
//! `180.048000`, `12`, `.5`, `1e2`, `1.5e-1` — possibly surrounded by
//! whitespace.  The parser turns that into whole milliseconds exactly,
//! truncating below the millisecond and capping at the counter's maximum.
//! Anything else (signs on the number itself, a second dot, stray
//! characters) is rejected.

use vstd::prelude::*;

verus! {

/// ASCII whitespace as the probe may emit around the number.
pub open spec fn is_ws(b: u8) -> bool {
    b == 32 || b == 9 || b == 10 || b == 13
}

/// ASCII decimal digit.
pub open spec fn is_digit(b: u8) -> bool {
    48 <= b <= 57
}

/// The ASCII dot separating seconds from their fraction.
pub open spec fn is_dot(b: u8) -> bool {
    b == 46
}

/// The ASCII exponent marker, either case.
pub open spec fn is_e(b: u8) -> bool {
    b == 101 || b == 69
}

/// An ASCII sign, as an exponent may carry.
pub open spec fn is_sign(b: u8) -> bool {
    b == 43 || b == 45
}

/// `s` with leading and trailing whitespace removed.
pub open spec fn trim_spec(s: Seq<u8>) -> Seq<u8>
    decreases s.len(),
{
    if s.len() > 0 && is_ws(s.first()) {
        trim_spec(s.drop_first())
    } else if s.len() > 0 && is_ws(s.last()) {
        trim_spec(s.drop_last())
    } else {
        s
    }
}

/// The number a sequence of decimal digits denotes.
pub open spec fn digits_val(s: Seq<u8>) -> int
    decreases s.len(),
{
    if s.len() == 0 {
        0
    } else {
        digits_val(s.drop_last()) * 10 + (s.last() - 48)
    }
}

/// The position of the first exponent marker, or the length when there is
/// none.
pub open spec fn first_e(t: Seq<u8>) -> int
    decreases t.len(),
{
    if t.len() == 0 {
        0
    } else if is_e(t.first()) {
        0
    } else {
        1 + first_e(t.drop_first())
    }
}

/// The position of the first dot, or the length when there is none.
pub open spec fn first_dot(t: Seq<u8>) -> int
    decreases t.len(),
{
    if t.len() == 0 {
        0
    } else if is_dot(t.first()) {
        0
    } else {
        1 + first_dot(t.drop_first())
    }
}

/// Whether the part before the exponent is a plain unsigned decimal: only
/// digits and at most one dot, at least one character, and not the bare
/// dot.
pub open spec fn mantissa_valid(m: Seq<u8>) -> bool {
    &&& m.len() > 0
    &&& forall|k: int| 0 <= k < m.len() ==> is_digit(#[trigger] m[k]) || is_dot(m[k])
    &&& forall|i: int, j: int| 0 <= i < j < m.len() ==> !(is_dot(m[i]) && is_dot(m[j]))
    &&& !(m.len() == 1 && is_dot(m[0]))
}

/// The exponent's digits, its optional leading sign stripped.
pub open spec fn exp_digits(x: Seq<u8>) -> Seq<u8> {
    if x.len() > 0 && is_sign(x[0]) {
        x.drop_first()
    } else {
        x
    }
}

/// Whether an exponent part is an optional sign followed by digits.
pub open spec fn exp_valid(x: Seq<u8>) -> bool {
    &&& exp_digits(x).len() > 0
    &&& forall|k: int| 0 <= k < exp_digits(x).len() ==> is_digit(#[trigger] exp_digits(x)[k])
}

/// The signed number an exponent part denotes.
pub open spec fn exp_value(x: Seq<u8>) -> int {
    if x.len() > 0 && x[0] == 45 {
        -digits_val(exp_digits(x))
    } else {
        digits_val(exp_digits(x))
    }
}

/// Whether trimmed `s` is a duration as the probe prints one: a plain
/// unsigned decimal, optionally followed by `e` or `E` and a signed
/// decimal exponent.
pub open spec fn duration_text_valid(s: Seq<u8>) -> bool {
    let t = trim_spec(s);
    let e = first_e(t);
    &&& mantissa_valid(t.take(e))
    &&& e < t.len() ==> exp_valid(t.subrange(e + 1, t.len() as int))
}

/// The mantissa's digits with the dot removed.
pub open spec fn mantissa_digits(m: Seq<u8>) -> Seq<u8> {
    let d = first_dot(m);
    if d < m.len() {
        m.take(d) + m.subrange(d + 1, m.len() as int)
    } else {
        m
    }
}

/// How many digits follow the dot.
pub open spec fn frac_len_of(m: Seq<u8>) -> int {
    let d = first_dot(m);
    if d < m.len() {
        m.len() - d - 1
    } else {
        0
    }
}

/// Ten to the `k`.
pub open spec fn pow10(k: nat) -> int
    decreases k,
{
    if k == 0 {
        1
    } else {
        10 * pow10((k - 1) as nat)
    }
}

/// The digit string denoting `floor(value(d) * 10^k)`: zeros appended, or
/// the low digits cut off.
pub open spec fn shifted(d: Seq<u8>, k: int) -> Seq<u8> {
    if k >= 0 {
        d + Seq::new(k as nat, |i: int| 48u8)
    } else if d.len() + k >= 0 {
        d.take(d.len() + k)
    } else {
        Seq::empty()
    }
}

/// How far the decimal point moves to express the value in milliseconds:
/// the exponent, minus the fractional digits, plus three.
pub open spec fn shift_of(t: Seq<u8>) -> int {
    let e = first_e(t);
    let xv = if e < t.len() {
        exp_value(t.subrange(e + 1, t.len() as int))
    } else {
        0
    };
    xv - frac_len_of(t.take(e)) + 3
}

/// The milliseconds a valid duration text denotes, exactly and truncated
/// below the millisecond: the mantissa's digits shifted by the exponent
/// and scaled to thousandths.
pub open spec fn duration_millis_of(s: Seq<u8>) -> int {
    let t = trim_spec(s);
    digits_val(shifted(mantissa_digits(t.take(first_e(t))), shift_of(t)))
}

/// A millisecond count, held to the range of the counter that stores it.
pub open spec fn capped_millis(v: int) -> u64 {
    if v < 0 {
        0
    } else if v <= u64::MAX {
        v as u64
    } else {
        u64::MAX
    }
}

/// Trimming is exactly cutting to the first and last non-whitespace bytes.
proof fn lemma_trim_bounds(s: Seq<u8>, i: int, j: int)
    requires
        0 <= i <= j <= s.len(),
        forall|k: int| 0 <= k < i ==> is_ws(#[trigger] s[k]),
        forall|k: int| j <= k < s.len() ==> is_ws(#[trigger] s[k]),
        i < j ==> !is_ws(s[i]) && !is_ws(s[j - 1]),
    ensures
        trim_spec(s) == s.subrange(i, j),
    decreases s.len(),
{
    if s.len() == 0 {
        assert(s.subrange(i, j) =~= s);
    } else if is_ws(s.first()) {
        if i == 0 && i < j {
            assert(false);
        }
        if i == 0 {
            lemma_trim_bounds(s.drop_first(), 0, 0);
            assert(s.drop_first().subrange(0, 0) =~= s.subrange(i, j));
        } else {
            lemma_trim_bounds(s.drop_first(), i - 1, j - 1);
            assert(s.drop_first().subrange(i - 1, j - 1) =~= s.subrange(i, j));
        }
    } else if is_ws(s.last()) {
        if j == s.len() {
            if i < j {
                assert(!is_ws(s[j - 1]));
                assert(false);
            } else {
                assert(is_ws(s[0]));
                assert(false);
            }
        }
        lemma_trim_bounds(s.drop_last(), i, j);
        assert(s.drop_last().subrange(i, j) =~= s.subrange(i, j));
    } else {
        if i > 0 {
            assert(is_ws(s[0]));
            assert(false);
        }
        if j < s.len() {
            assert(is_ws(s[s.len() - 1]));
            assert(false);
        }
        assert(s.subrange(0, s.len() as int) =~= s);
    }
}

/// A digit string's value is never negative.
proof fn lemma_digits_nonneg(s: Seq<u8>)
    requires
        forall|k: int| 0 <= k < s.len() ==> is_digit(#[trigger] s[k]),
    ensures
        digits_val(s) >= 0,
    decreases s.len(),
{
    if s.len() > 0 {
        lemma_digits_nonneg(s.drop_last());
    }
}

/// Extending a digit string to the right never shrinks its value.
proof fn lemma_digits_prefix_le(t: Seq<u8>, m: int, n: int)
    requires
        0 <= m <= n <= t.len(),
        forall|k: int| 0 <= k < n ==> is_digit(#[trigger] t[k]),
    ensures
        digits_val(t.take(m)) <= digits_val(t.take(n)),
    decreases n - m,
{
    if m < n {
        lemma_digits_prefix_le(t, m, n - 1);
        let a = t.take(n - 1);
        let b = t.take(n);
        assert(b.drop_last() =~= a);
        assert(forall|k: int| 0 <= k < a.len() ==> is_digit(#[trigger] a[k]));
        lemma_digits_nonneg(a);
        assert(digits_val(b) == digits_val(a) * 10 + (b.last() - 48));
        assert(digits_val(a) * 10 >= digits_val(a)) by (nonlinear_arith)
            requires
                digits_val(a) >= 0,
        ;
    }
}

/// `first_e` finds exactly the position after the last e-free prefix.
proof fn lemma_first_e_at(t: Seq<u8>, x: int)
    requires
        0 <= x <= t.len(),
        forall|k: int| 0 <= k < x ==> !is_e(#[trigger] t[k]),
        x < t.len() ==> is_e(t[x]),
    ensures
        first_e(t) == x,
    decreases t.len(),
{
    if t.len() == 0 {
    } else if is_e(t.first()) {
        if x > 0 {
            assert(!is_e(t[0]));
            assert(false);
        }
    } else {
        if x == 0 {
            assert(is_e(t[0]));
            assert(false);
        }
        lemma_first_e_at(t.drop_first(), x - 1);
    }
}

/// `first_dot` finds exactly the position after the last dot-free prefix.
proof fn lemma_first_dot_at(t: Seq<u8>, x: int)
    requires
        0 <= x <= t.len(),
        forall|k: int| 0 <= k < x ==> !is_dot(#[trigger] t[k]),
        x < t.len() ==> is_dot(t[x]),
    ensures
        first_dot(t) == x,
    decreases t.len(),
{
    if t.len() == 0 {
    } else if is_dot(t.first()) {
        if x > 0 {
            assert(!is_dot(t[0]));
            assert(false);
        }
    } else {
        if x == 0 {
            assert(is_dot(t[0]));
            assert(false);
        }
        lemma_first_dot_at(t.drop_first(), x - 1);
    }
}

/// The first exponent marker lies within the text.
proof fn lemma_first_e_bounds(t: Seq<u8>)
    ensures
        0 <= first_e(t) <= t.len(),
    decreases t.len(),
{
    if t.len() > 0 && !is_e(t.first()) {
        lemma_first_e_bounds(t.drop_first());
    }
}

/// With no exponent marker through position `q`, the first one is later.
proof fn lemma_first_e_min(t: Seq<u8>, q: int)
    requires
        0 <= q < t.len(),
        forall|k: int| 0 <= k <= q ==> !is_e(#[trigger] t[k]),
    ensures
        first_e(t) > q,
    decreases t.len(),
{
    lemma_first_e_bounds(t.drop_first());
    if q > 0 {
        lemma_first_e_min(t.drop_first(), q - 1);
    }
}

/// Appending `k` zero digits multiplies the value by ten to the `k`.
proof fn lemma_append_zeros(d: Seq<u8>, k: nat)
    ensures
        digits_val(d + Seq::new(k, |i: int| 48u8)) == digits_val(d) * pow10(k),
    decreases k,
{
    if k == 0 {
        assert(d + Seq::new(0, |i: int| 48u8) =~= d);
        assert(digits_val(d) * 1 == digits_val(d)) by (nonlinear_arith);
    } else {
        lemma_append_zeros(d, (k - 1) as nat);
        let sk = d + Seq::new(k, |i: int| 48u8);
        assert(sk.drop_last() =~= d + Seq::new((k - 1) as nat, |i: int| 48u8));
        assert(sk.last() == 48);
        assert(digits_val(sk) == (digits_val(d) * pow10((k - 1) as nat)) * 10);
        assert((digits_val(d) * pow10((k - 1) as nat)) * 10 == digits_val(d) * (10 * pow10(
            (k - 1) as nat,
        ))) by (nonlinear_arith);
    }
}

/// Ten to any power is positive.
proof fn lemma_pow10_pos(k: nat)
    ensures
        pow10(k) >= 1,
    decreases k,
{
    if k > 0 {
        lemma_pow10_pos((k - 1) as nat);
    }
}

/// Ten to a higher power is no smaller.
proof fn lemma_pow10_mono(a: nat, b: nat)
    requires
        a <= b,
    ensures
        pow10(a) <= pow10(b),
    decreases b,
{
    if a < b {
        lemma_pow10_mono(a, (b - 1) as nat);
        lemma_pow10_pos((b - 1) as nat);
        assert(pow10(b) == 10 * pow10((b - 1) as nat));
        assert(10 * pow10((b - 1) as nat) >= pow10((b - 1) as nat)) by (nonlinear_arith)
            requires
                pow10((b - 1) as nat) >= 1,
        ;
    }
}

/// Any value scaled by twenty or more decimal places overflows the
/// millisecond counter.
proof fn lemma_scale_overflows(dv: int, k: nat)
    requires
        dv >= 1,
        k >= 20,
    ensures
        dv * pow10(k) > u64::MAX,
{
    assert(pow10(20) == 100000000000000000000) by {
        assert(pow10(0) == 1);
        assert(pow10(1) == 10);
        assert(pow10(2) == 100);
        assert(pow10(3) == 1000);
        assert(pow10(4) == 10000);
        assert(pow10(5) == 100000);
        assert(pow10(6) == 1000000);
        assert(pow10(7) == 10000000);
        assert(pow10(8) == 100000000);
        assert(pow10(9) == 1000000000);
        assert(pow10(10) == 10000000000);
        assert(pow10(11) == 100000000000);
        assert(pow10(12) == 1000000000000);
        assert(pow10(13) == 10000000000000);
        assert(pow10(14) == 100000000000000);
        assert(pow10(15) == 1000000000000000);
        assert(pow10(16) == 10000000000000000);
        assert(pow10(17) == 100000000000000000);
        assert(pow10(18) == 1000000000000000000);
        assert(pow10(19) == 10000000000000000000);
        assert(pow10(20) == 100000000000000000000);
    }
    lemma_pow10_mono(20, k);
    assert(dv * pow10(k) >= pow10(k)) by (nonlinear_arith)
        requires
            dv >= 1,
            pow10(k) >= 1,
    ;
}

/// Pushing one more digit stays within `cap` exactly when the accumulator
/// is at most `(cap - d) / 10`.
proof fn lemma_cap_step(cap: int, x: int, d: int)
    requires
        x >= 0,
        0 <= d < 10,
        cap >= 9,
    ensures
        x <= (cap - d) / 10 <==> x * 10 + d <= cap,
{
    let q = (cap - d) / 10;
    vstd::arithmetic::div_mod::lemma_fundamental_div_mod(cap - d, 10);
    vstd::arithmetic::div_mod::lemma_mod_bound(cap - d, 10);
    if x <= q {
        assert(x * 10 <= q * 10) by (nonlinear_arith)
            requires
                x <= q,
        ;
        assert(q * 10 == 10 * q) by (nonlinear_arith);
    } else {
        assert(x * 10 >= (q + 1) * 10) by (nonlinear_arith)
            requires
                x >= q + 1,
        ;
        assert((q + 1) * 10 == 10 * q + 10) by (nonlinear_arith);
    }
}

/// Whether a byte is ASCII whitespace.
fn is_ws_byte(b: u8) -> (r: bool)
    ensures
        r == is_ws(b),
{
    b == 32 || b == 9 || b == 10 || b == 13
}

/// The value of the first `m` digits of two concatenated digit runs of
/// `data`, held to the counter's range.
fn scan_digits_capped(data: &Vec<u8>, a0: usize, a1: usize, b0: usize, b1: usize, m: usize) -> (v:
    u64)
    requires
        a0 <= a1 <= data@.len(),
        b0 <= b1 <= data@.len(),
        forall|k: int| a0 <= k < a1 ==> is_digit(#[trigger] data@[k]),
        forall|k: int| b0 <= k < b1 ==> is_digit(#[trigger] data@[k]),
        m <= (a1 - a0) + (b1 - b0),
    ensures
        ({
            let d = data@.subrange(a0 as int, a1 as int) + data@.subrange(b0 as int, b1 as int);
            v == capped_millis(digits_val(d.take(m as int)))
        }),
{
    let ghost d = data@.subrange(a0 as int, a1 as int) + data@.subrange(b0 as int, b1 as int);
    proof {
        assert(forall|k: int| 0 <= k < d.len() ==> is_digit(#[trigger] d[k]));
    }
    let alen = a1 - a0;
    let mut acc: u64 = 0;
    let mut sat: bool = false;
    let mut i: usize = 0;
    while i < m
        invariant
            d == data@.subrange(a0 as int, a1 as int) + data@.subrange(b0 as int, b1 as int),
            a0 <= a1 <= data@.len(),
            b0 <= b1 <= data@.len(),
            forall|k: int| a0 <= k < a1 ==> is_digit(#[trigger] data@[k]),
            forall|k: int| b0 <= k < b1 ==> is_digit(#[trigger] data@[k]),
            alen == a1 - a0,
            m <= d.len(),
            i <= m,
            !sat ==> acc == digits_val(d.take(i as int)),
            sat ==> digits_val(d.take(i as int)) > u64::MAX && acc == u64::MAX,
        decreases m - i,
    {
        let byte: u8 = if i < alen {
            data[a0 + i]
        } else {
            data[b0 + (i - alen)]
        };
        proof {
            assert(d[i as int] == byte);
            assert(d.take(i + 1).drop_last() =~= d.take(i as int));
            assert(forall|k: int| 0 <= k < i ==> is_digit(#[trigger] d.take(i as int)[k]));
            lemma_digits_nonneg(d.take(i as int));
        }
        let digit = byte - 48;
        if !sat {
            proof {
                lemma_cap_step(u64::MAX as int, acc as int, digit as int);
            }
            if acc <= (u64::MAX - (digit as u64)) / 10 {
                acc = acc * 10 + (digit as u64);
            } else {
                sat = true;
                acc = u64::MAX;
            }
        } else {
            proof {
                let dv = digits_val(d.take(i as int));
                assert(dv * 10 >= dv) by (nonlinear_arith)
                    requires
                        dv >= 0,
                ;
            }
        }
        i = i + 1;
    }
    proof {
        lemma_digits_nonneg(d.take(m as int));
    }
    acc
}

/// `capped_millis` of `dv` times ten to the `z`, given it for `dv` alone.
fn scale_by_pow10(v0: u64, z: usize, Ghost(dv): Ghost<int>) -> (v: u64)
    requires
        dv >= 0,
        v0 == capped_millis(dv),
        z < 20,
    ensures
        v == capped_millis(dv * pow10(z as nat)),
{
    let mut cur: u64 = v0;
    let mut j: usize = 0;
    proof {
        assert(dv * pow10(0) == dv) by (nonlinear_arith);
    }
    while j < z
        invariant
            dv >= 0,
            j <= z < 20,
            cur == capped_millis(dv * pow10(j as nat)),
        decreases z - j,
    {
        proof {
            let x = dv * pow10(j as nat);
            lemma_pow10_pos(j as nat);
            assert(x >= 0) by (nonlinear_arith)
                requires
                    x == dv * pow10(j as nat),
                    dv >= 0,
                    pow10(j as nat) >= 1,
            ;
            assert(dv * pow10((j + 1) as nat) == x * 10) by (nonlinear_arith)
                requires
                    x == dv * pow10(j as nat),
                    pow10((j + 1) as nat) == 10 * pow10(j as nat),
            ;
            if x <= u64::MAX {
                lemma_cap_step(u64::MAX as int, x, 0);
            } else {
                assert(x * 10 >= x) by (nonlinear_arith)
                    requires
                        x >= 0,
                ;
            }
        }
        cur = if cur <= u64::MAX / 10 {
            cur * 10
        } else {
            u64::MAX
        };
        j = j + 1;
    }
    cur
}

/// The bound past which an exponent's exact size stops mattering: far
/// beyond any count of digits a probe line can hold.
const EXP_CAP: u128 = 100000000000000000000000000000000000;

/// Parse the probe's duration output into whole milliseconds.  Returns
/// `Some` exactly on a duration-shaped text; the value truncates below the
/// millisecond, as the pipeline never schedules finer than that, and a
/// duration beyond the counter reads as its maximum.
#[verifier::rlimit(100)]
pub fn parse_duration_millis(data: &Vec<u8>) -> (r: Option<u64>)
    ensures
        r is Some <==> duration_text_valid(data@),
        r matches Some(v) ==> v == capped_millis(duration_millis_of(data@)),
{
    let ghost s = data@;
    let mut start: usize = 0;
    while start < data.len() && is_ws_byte(data[start])
        invariant
            s == data@,
            start <= s.len(),
            forall|k: int| 0 <= k < start ==> is_ws(#[trigger] s[k]),
        decreases s.len() - start,
    {
        start = start + 1;
    }
    let mut end: usize = data.len();
    while end > start && is_ws_byte(data[end - 1])
        invariant
            s == data@,
            start <= end <= s.len(),
            forall|k: int| 0 <= k < start ==> is_ws(#[trigger] s[k]),
            forall|k: int| end <= k < s.len() ==> is_ws(#[trigger] s[k]),
        decreases end,
    {
        end = end - 1;
    }
    let ghost t = s.subrange(start as int, end as int);
    proof {
        lemma_trim_bounds(s, start as int, end as int);
    }
    if start == end {
        proof {
            assert(t.take(first_e(t)) =~= Seq::<u8>::empty());
        }
        return None;
    }
    // The mantissa: digits around at most one dot, up to the exponent
    // marker or the end.
    let mut dot_abs: usize = 0;
    let mut has_dot: bool = false;
    let mut e_abs: usize = 0;
    let mut has_e: bool = false;
    let mut k: usize = start;
    while k < end && !has_e
        invariant
            s == data@,
            start <= k <= end <= s.len(),
            start < end,
            t == s.subrange(start as int, end as int),
            trim_spec(s) == t,
            has_e ==> k == e_abs + 1 && start <= e_abs < end && is_e(t[e_abs - start]),
            ({
                let mb = if has_e {
                    e_abs as int
                } else {
                    k as int
                };
                &&& (forall|p: int|
                    0 <= p < mb - start ==> (is_digit(#[trigger] t[p]) || is_dot(t[p])) && !is_e(
                        t[p],
                    ))
                &&& (has_dot ==> start <= dot_abs < mb && is_dot(t[dot_abs - start]) && forall|
                    p: int,
                |
                    0 <= p < mb - start && p != dot_abs - start ==> is_digit(#[trigger] t[p]))
                &&& (!has_dot ==> forall|p: int|
                    0 <= p < mb - start ==> is_digit(#[trigger] t[p]))
            }),
        decreases end - k,
    {
        let b = data[k];
        if b >= 48 && b <= 57 {
            k = k + 1;
        } else if b == 46 {
            if has_dot {
                // A second dot: both dots sit before any exponent marker,
                // so the mantissa is malformed.
                proof {
                    assert(t[(k - start) as int] == 46);
                    lemma_first_e_min(t, k - start);
                    lemma_first_e_bounds(t);
                    let m = t.take(first_e(t));
                    assert(m[dot_abs - start] == t[dot_abs - start]);
                    assert(m[(k - start) as int] == t[(k - start) as int]);
                    assert(is_dot(m[dot_abs - start]) && is_dot(m[(k - start) as int]));
                    assert(!mantissa_valid(m));
                }
                return None;
            }
            dot_abs = k;
            has_dot = true;
            k = k + 1;
        } else if b == 101 || b == 69 {
            has_e = true;
            e_abs = k;
            k = k + 1;
        } else {
            // Not a digit, dot or exponent marker: malformed before any
            // exponent.
            proof {
                assert(t[(k - start) as int] == b);
                lemma_first_e_min(t, k - start);
                lemma_first_e_bounds(t);
                let m = t.take(first_e(t));
                assert(m[(k - start) as int] == t[(k - start) as int]);
                assert(!(is_digit(m[(k - start) as int]) || is_dot(m[(k - start) as int])));
                assert(!mantissa_valid(m));
            }
            return None;
        }
    }
    let m_end_abs: usize = if has_e {
        e_abs
    } else {
        end
    };
    let ghost e_rel = m_end_abs - start;
    let ghost m = t.take(e_rel as int);
    proof {
        if has_e {
            lemma_first_e_at(t, e_rel as int);
        } else {
            lemma_first_e_at(t, t.len() as int);
            assert(t.take(t.len() as int) =~= t);
        }
        assert(first_e(t) == e_rel);
    }
    if m_end_abs == start {
        // The exponent marker came first: there is no mantissa.
        proof {
            assert(m =~= Seq::<u8>::empty());
        }
        return None;
    }
    if m_end_abs == start + 1 && has_dot {
        // The mantissa is a bare dot.
        proof {
            assert(is_dot(m[0]));
        }
        return None;
    }
    proof {
        assert(mantissa_valid(m));
        if has_dot {
            lemma_first_dot_at(m, dot_abs - start);
        } else {
            lemma_first_dot_at(m, m.len() as int);
        }
    }
    // The mantissa's digit runs: seconds, then the fraction.
    let int_a0: usize = start;
    let int_a1: usize = if has_dot {
        dot_abs
    } else {
        m_end_abs
    };
    let frac_b0: usize = if has_dot {
        dot_abs + 1
    } else {
        m_end_abs
    };
    let frac_b1: usize = m_end_abs;
    let frac_len: usize = frac_b1 - frac_b0;
    let dlen: usize = (int_a1 - int_a0) + frac_len;
    let ghost dg = mantissa_digits(m);
    proof {
        assert(dg =~= s.subrange(int_a0 as int, int_a1 as int) + s.subrange(
            frac_b0 as int,
            frac_b1 as int,
        ));
        assert(frac_len_of(m) == frac_len);
        assert forall|q: int| int_a0 <= q < int_a1 implies is_digit(#[trigger] s[q]) by {
            assert(s[q] == t[q - start]);
        }
        assert forall|q: int| frac_b0 <= q < frac_b1 implies is_digit(#[trigger] s[q]) by {
            assert(s[q] == t[q - start]);
        }
    }
    // The exponent: an optional sign, then digits, accumulated until it is
    // so large that only its sign can matter.
    let mut exp_neg: bool = false;
    let mut exp_acc: u128 = 0;
    let mut exp_sat: bool = false;
    let ghost x = t.subrange(e_rel + 1, t.len() as int);
    let mut ds0: usize = 0;
    if has_e {
        if e_abs + 1 >= end {
            proof {
                assert(exp_digits(x) =~= Seq::<u8>::empty());
            }
            return None;
        }
        let sb = data[e_abs + 1];
        ds0 = if sb == 43 || sb == 45 {
            e_abs + 2
        } else {
            e_abs + 1
        };
        exp_neg = sb == 45;
        proof {
            assert(x[0] == s[e_abs + 1]);
        }
        let ghost ds = s.subrange(ds0 as int, end as int);
        proof {
            if sb == 43 || sb == 45 {
                assert(exp_digits(x) =~= ds);
            } else {
                assert(exp_digits(x) =~= ds);
            }
        }
        if ds0 >= end {
            proof {
                assert(exp_digits(x).len() == 0);
            }
            return None;
        }
        let mut k2: usize = ds0;
        while k2 < end
            invariant
                s == data@,
                trim_spec(s) == t,
                t == s.subrange(start as int, end as int),
                start <= end <= s.len(),
                ds0 <= k2 <= end,
                ds == s.subrange(ds0 as int, end as int),
                exp_digits(x) == ds,
                first_e(t) == e_rel,
                0 <= e_rel < t.len(),
                x == t.subrange(e_rel + 1, t.len() as int),
                forall|p: int| 0 <= p < k2 - ds0 ==> is_digit(#[trigger] ds[p]),
                !exp_sat ==> exp_acc == digits_val(ds.take(k2 - ds0)) && exp_acc <= EXP_CAP,
                exp_sat ==> digits_val(ds.take(k2 - ds0)) > EXP_CAP,
            decreases end - k2,
        {
            let b = data[k2];
            if b < 48 || b > 57 {
                // A stray character inside the exponent's digits.
                proof {
                    assert(ds[(k2 - ds0) as int] == s[k2 as int]);
                    assert(!is_digit(exp_digits(x)[(k2 - ds0) as int]));
                }
                return None;
            }
            proof {
                assert(ds[(k2 - ds0) as int] == s[k2 as int]);
                assert(ds.take(k2 - ds0 + 1).drop_last() =~= ds.take(k2 - ds0));
                assert(forall|p: int|
                    0 <= p < k2 - ds0 ==> is_digit(#[trigger] ds.take(k2 - ds0)[p]));
                lemma_digits_nonneg(ds.take(k2 - ds0));
            }
            let digit = (b - 48) as u128;
            if !exp_sat {
                proof {
                    lemma_cap_step(EXP_CAP as int, exp_acc as int, digit as int);
                }
                if exp_acc <= (EXP_CAP - digit) / 10 {
                    exp_acc = exp_acc * 10 + digit;
                } else {
                    exp_sat = true;
                }
            } else {
                proof {
                    let dv = digits_val(ds.take(k2 - ds0));
                    assert(dv * 10 >= dv) by (nonlinear_arith)
                        requires
                            dv >= 0,
                    ;
                }
            }
            k2 = k2 + 1;
        }
        proof {
            assert(ds.take(end - ds0) =~= ds);
            assert(forall|p: int| 0 <= p < exp_digits(x).len() ==> is_digit(
                #[trigger] exp_digits(x)[p],
            ));
            assert(exp_valid(x));
        }
    }
    proof {
        assert(duration_text_valid(s));
        lemma_digits_nonneg(dg);
    }
    let ghost shift_spec = shift_of(t);
    let ghost dv = digits_val(dg);
    // An exponent too vast to track exactly: only its sign and whether the
    // mantissa is zero decide.
    if has_e && exp_sat {
        let ghost ds = s.subrange(ds0 as int, end as int);
        proof {
            assert(ds.take(end - ds0) =~= ds);
            assert(digits_val(exp_digits(x)) > EXP_CAP);
            assert(dlen <= s.len());
            assert(s.len() <= usize::MAX);
            assert((usize::MAX as int) < (EXP_CAP as int) - 20);
        }
        if exp_neg {
            // Shifted below even the first mantissa digit: zero.
            proof {
                assert(exp_value(x) < -(EXP_CAP as int));
                assert(shift_spec < -(dg.len() as int));
                assert(shifted(dg, shift_spec) =~= Seq::<u8>::empty());
            }
            return Some(0);
        }
        let v0 = scan_digits_capped(data, int_a0, int_a1, frac_b0, frac_b1, dlen);
        proof {
            assert(dg.take(dlen as int) =~= dg);
            assert(exp_value(x) > EXP_CAP);
            assert(shift_spec > 20);
            assert(shifted(dg, shift_spec) == dg + Seq::new(shift_spec as nat, |i: int| 48u8));
            lemma_append_zeros(dg, shift_spec as nat);
        }
        if v0 == 0 {
            proof {
                assert(dv == 0);
                assert(dv * pow10(shift_spec as nat) == 0) by (nonlinear_arith)
                    requires
                        dv == 0,
                ;
            }
            return Some(0);
        }
        proof {
            assert(dv >= 1);
            lemma_scale_overflows(dv, shift_spec as nat);
        }
        return Some(u64::MAX);
    }
    // The exponent fits: place the decimal point exactly.
    let exp_i: i128 = if has_e {
        if exp_neg {
            -(exp_acc as i128)
        } else {
            exp_acc as i128
        }
    } else {
        0
    };
    proof {
        if has_e {
            let ds = s.subrange(ds0 as int, end as int);
            assert(ds.take(end - ds0) =~= ds);
            assert(exp_value(x) == exp_i as int);
        }
    }
    let shift: i128 = exp_i - (frac_len as i128) + 3;
    proof {
        assert(shift as int == shift_spec);
    }
    if shift >= 0 {
        let v0 = scan_digits_capped(data, int_a0, int_a1, frac_b0, frac_b1, dlen);
        proof {
            assert(dg.take(dlen as int) =~= dg);
            assert(shifted(dg, shift_spec) == dg + Seq::new(shift_spec as nat, |i: int| 48u8));
            lemma_append_zeros(dg, shift_spec as nat);
        }
        if v0 == 0 {
            proof {
                assert(dv == 0);
                assert(dv * pow10(shift_spec as nat) == 0) by (nonlinear_arith)
                    requires
                        dv == 0,
                ;
            }
            Some(0)
        } else if shift >= 20 {
            proof {
                assert(dv >= 1);
                lemma_scale_overflows(dv, shift_spec as nat);
            }
            Some(u64::MAX)
        } else {
            Some(scale_by_pow10(v0, shift as usize, Ghost(dv)))
        }
    } else {
        let keep: i128 = (dlen as i128) + shift;
        if keep <= 0 {
            // Every digit falls below the millisecond: zero.
            proof {
                if dg.len() + shift_spec >= 0 {
                    assert(shifted(dg, shift_spec) =~= dg.take(0));
                } else {
                    assert(shifted(dg, shift_spec) =~= Seq::<u8>::empty());
                }
            }
            Some(0)
        } else {
            let v = scan_digits_capped(data, int_a0, int_a1, frac_b0, frac_b1, keep as usize);
            proof {
                assert(shifted(dg, shift_spec) == dg.take(keep as int));
            }
            Some(v)
        }
    }
}

/// What is known about one audio file: where it lives, its size, and how
/// long it plays.
#[derive(Clone, PartialEq, Eq, Debug)]
pub struct AudioFileInfo {
    location: String,
    size_bytes: u64,
    audio_milliseconds: u64,
}

impl AudioFileInfo {
    /// Where the file lives, as contracts see it.
    pub closed spec fn spec_location(self) -> String {
        self.location
    }

    /// The file's size in bytes, as contracts see it.
    pub closed spec fn spec_size_bytes(self) -> u64 {
        self.size_bytes
    }

    /// The audio's length in milliseconds, as contracts see it.
    pub closed spec fn spec_audio_milliseconds(self) -> u64 {
        self.audio_milliseconds
    }

    /// Assemble a file's info from its size and the probe's duration
    /// output; `None` when that output is not a duration.
    pub fn from_probe_output(location: String, size_bytes: u64, probe_stdout: &Vec<u8>) -> (r:
        Option<AudioFileInfo>)
        ensures
            r is Some <==> duration_text_valid(probe_stdout@),
            r matches Some(info) ==> {
                &&& info.spec_location() == location
                &&& info.spec_size_bytes() == size_bytes
                &&& info.spec_audio_milliseconds() == capped_millis(
                    duration_millis_of(probe_stdout@),
                )
            },
    {
        match parse_duration_millis(probe_stdout) {
            Some(ms) => Some(AudioFileInfo { location, size_bytes, audio_milliseconds: ms }),
            None => None,
        }
    }

    /// Where the file lives.
    pub fn location(&self) -> (l: &String)
        ensures
            l == self.spec_location(),
    {
        &self.location
    }

    /// The file's size in bytes.
    pub fn size_bytes(&self) -> (n: u64)
        ensures
            n == self.spec_size_bytes(),
    {
        self.size_bytes
    }

    /// How long the audio plays, in milliseconds.
    pub fn audio_milliseconds(&self) -> (ms: u64)
        ensures
            ms == self.spec_audio_milliseconds(),
    {
        self.audio_milliseconds
    }
}

} // verus!
