//! Human-readable durations. A nanosecond count is shown the way its binary64
//! quotient by a unit prints with a fixed number of decimals: the count is rounded to
//! binary64, divided with binary64 rounding (53 significant bits, ties to even), and the
//! exact binary value is then rounded to the requested decimals (ties to even).

use crate::text::{decimal, decimal_chars, digit_char, digit_to_char, extend_chars, string_from_chars};
use vstd::arithmetic::div_mod::lemma_fundamental_div_mod_converse;
use vstd::prelude::*;

verus! {

/// Two to the power `k`.
pub open spec fn pow2(k: nat) -> nat
    decreases k,
{
    if k == 0 {
        1
    } else {
        2 * pow2((k - 1) as nat)
    }
}

/// Ten to the power `k`.
pub open spec fn pow10(k: nat) -> nat
    decreases k,
{
    if k == 0 {
        1
    } else {
        10 * pow10((k - 1) as nat)
    }
}

/// `a / b` rounded to the nearest integer, ties to even.
pub open spec fn div_round_even(a: nat, b: nat) -> nat
    recommends
        b > 0,
{
    let q = a / b;
    let r = a % b;
    if 2 * r > b || (2 * r == b && q % 2 == 1) {
        q + 1
    } else {
        q
    }
}

/// Smallest `s` from `from` on (at most 128) with `a * 2^s >= unit * 2^52`.
pub open spec fn up_shift(a: nat, unit: nat, from: nat) -> nat
    decreases 128 - from,
{
    if from >= 128 || a * pow2(from) >= unit * pow2(52) {
        from
    } else {
        up_shift(a, unit, from + 1)
    }
}

/// Smallest `s` from `from` on (at most 128) with `a < unit * 2^(53 + s)`.
pub open spec fn down_shift(a: nat, unit: nat, from: nat) -> nat
    decreases 128 - from,
{
    if from >= 128 || a < unit * pow2(53 + from) {
        from
    } else {
        down_shift(a, unit, from + 1)
    }
}

/// The binary64 value nearest to the integer `n` (ties to even).
pub open spec fn binary64_of(n: nat) -> nat {
    if n < pow2(53) {
        n
    } else {
        let k = down_shift(n, 1, 0);
        div_round_even(n, pow2(k)) * pow2(k)
    }
}

/// For an integer `a >= 1`: the binary64 quotient `a / unit`, multiplied by `scale`
/// and rounded to an integer (ties to even).
pub open spec fn scaled_quotient(a: nat, unit: nat, scale: nat) -> nat {
    if a == 0 {
        0
    } else if a < unit * pow2(53) {
        let s = up_shift(a, unit, 0);
        let m = div_round_even(a * pow2(s), unit);
        div_round_even(m * scale, pow2(s))
    } else {
        let s = down_shift(a, unit, 0);
        let m = div_round_even(a, unit * pow2(s));
        m * scale * pow2(s)
    }
}

/// The last `places` decimal digits of `v`, zero-padded.
pub open spec fn low_digits(v: nat, places: nat) -> Seq<char>
    decreases places,
{
    if places == 0 {
        Seq::empty()
    } else {
        low_digits(v / 10, (places - 1) as nat).push(digit_char(v % 10))
    }
}

/// `v / 10^places` written with exactly `places` decimals.
pub open spec fn fixed_point(v: nat, places: nat) -> Seq<char> {
    decimal(v / pow10(places)) + seq!['.'] + low_digits(v, places)
}

/// The nanosecond count `n` in `unit`s, written with `places` decimals.
pub open spec fn in_units(n: nat, unit: nat, places: nat) -> Seq<char> {
    fixed_point(scaled_quotient(binary64_of(n), unit, pow10(places)), places)
}

/// What `pretty_duration` renders for a nanosecond count.
pub open spec fn pretty_duration_spec(n: nat) -> Seq<char> {
    if n < 1_000 {
        decimal(n) + seq!['n', 's']
    } else if n < 1_000_000 {
        in_units(n, 1_000, 1) + seq!['u', 's']
    } else if n < 1_000_000_000 {
        in_units(n, 1_000_000, 1) + seq!['m', 's']
    } else {
        in_units(n, 1_000_000_000, 1) + seq!['s']
    }
}

proof fn lemma_pow2_pos(k: nat)
    ensures
        pow2(k) >= 1,
    decreases k,
{
    if k > 0 {
        lemma_pow2_pos((k - 1) as nat);
    }
}

proof fn lemma_pow2_add(a: nat, b: nat)
    ensures
        pow2(a + b) == pow2(a) * pow2(b),
    decreases b,
{
    if b > 0 {
        let c = (b - 1) as nat;
        lemma_pow2_add(a, c);
        assert(pow2(a + b) == 2 * pow2(a + c));
        assert(pow2(b) == 2 * pow2(c));
        let x = pow2(a);
        let y = pow2(c);
        let z = pow2(b);
        assert(x * z == 2 * (x * y)) by (nonlinear_arith)
            requires
                z == 2 * y,
        ;
    } else {
        assert(pow2(0) == 1);
        assert(pow2(a) * 1 == pow2(a));
    }
}

proof fn lemma_pow2_mono(a: nat, b: nat)
    requires
        a <= b,
    ensures
        pow2(a) <= pow2(b),
    decreases b - a,
{
    if a < b {
        lemma_pow2_mono(a, (b - 1) as nat);
        lemma_pow2_pos((b - 1) as nat);
    }
}

#[verifier::spinoff_prover]
#[verifier::rlimit(40)]
proof fn lemma_pow2_values()
    ensures
        pow2(52) == 0x10_0000_0000_0000,
        pow2(53) == 0x20_0000_0000_0000,
        pow2(74) == 0x400_0000_0000_0000_0000,
        pow2(76) == 0x1000_0000_0000_0000_0000,
        pow2(128) == 0x1_0000_0000_0000_0000_0000_0000_0000_0000,
{
    reveal_with_fuel(pow2, 54);
    lemma_pow2_add(53, 23);
    lemma_pow2_add(53, 21);
    reveal_with_fuel(pow2, 24);
    lemma_pow2_add(76, 52);
}

/// Rounding a quotient is unchanged when both operands are multiplied by `c >= 1`.
proof fn lemma_div_round_even_scale(x: nat, y: nat, c: nat)
    requires
        y >= 1,
        c >= 1,
    ensures
        div_round_even(x * c, y * c) == div_round_even(x, y),
{
    let q = x / y;
    let r = x % y;
    assert(x == q * y + r && 0 <= r < y) by (nonlinear_arith)
        requires
            y >= 1,
            q == x / y,
            r == x % y,
    ;
    assert(x * c == q * (y * c) + r * c && 0 <= r * c < y * c) by (nonlinear_arith)
        requires
            x == q * y + r,
            0 <= r < y,
            c >= 1,
    ;
    lemma_fundamental_div_mod_converse((x * c) as int, (y * c) as int, q as int, (r * c) as int);
    assert((2 * (r * c) > y * c) == (2 * r > y)) by (nonlinear_arith)
        requires
            c >= 1,
    ;
    assert((2 * (r * c) == y * c) == (2 * r == y)) by (nonlinear_arith)
        requires
            c >= 1,
    ;
}

/// The rounded quotient is at most `bound` when `a < b * bound`.
proof fn lemma_div_round_even_bound(a: nat, b: nat, bound: nat)
    requires
        b >= 1,
        a < b * bound,
    ensures
        div_round_even(a, b) <= bound,
        a / b < bound,
{
    assert(a / b < bound) by (nonlinear_arith)
        requires
            b >= 1,
            a < b * bound,
    ;
}

fn div_round_even_exec(a: u128, b: u128) -> (r: u128)
    requires
        b > 0,
        a / b < u128::MAX,
    ensures
        r == div_round_even(a as nat, b as nat),
{
    let q = a / b;
    let rem = a % b;
    if rem > b - rem || (rem == b - rem && q % 2 == 1) {
        q + 1
    } else {
        q
    }
}

/// Rounds `n` to binary64 and returns the result as `(m, k)` with value `m * 2^k`.
fn binary64_parts(n: u128) -> (r: (u128, u128))
    requires
        n >= 1,
    ensures
        binary64_of(n as nat) == r.0 * pow2(r.1 as nat),
        1 <= r.0 <= 0x20_0000_0000_0000,
        r.1 <= 75,
        r.1 == 0 ==> r.0 == n,
        r.1 > 0 ==> n >= 0x20_0000_0000_0000,
{
    proof {
        lemma_pow2_values();
    }
    if n < 0x20_0000_0000_0000 {
        assert(pow2(0) == 1);
        assert(n * pow2(0) == n);
        return (n, 0);
    }
    let mut k: u128 = 0;
    let mut p: u128 = 1;
    let mut bound: u128 = 0x20_0000_0000_0000;
    while bound <= n
        invariant
            n >= 0x20_0000_0000_0000,
            p == pow2(k as nat),
            bound == pow2((53 + k) as nat),
            bound == p * 0x20_0000_0000_0000,
            k <= 75,
            down_shift(n as nat, 1, 0) == down_shift(n as nat, 1, k as nat),
            n >= pow2((52 + k) as nat),
        decreases 128 - k,
    {
        proof {
            lemma_pow2_values();
            lemma_pow2_add(53, k as nat);
            assert(pow2((53 + k + 1) as nat) == 2 * pow2((53 + k) as nat));
            assert(pow2((k + 1) as nat) == 2 * pow2(k as nat));
            if k >= 75 {
                lemma_pow2_mono(128, (53 + k) as nat);
            }
        }
        if bound > u128::MAX / 2 {
            k = k + 1;
            p = p * 2;
            proof {
                assert(down_shift(n as nat, 1, k as nat) == k);
            }
            return finish_binary64(n, k, p);
        }
        bound = bound * 2;
        p = p * 2;
        k = k + 1;
    }
    proof {
        assert(down_shift(n as nat, 1, k as nat) == k);
        if k == 0 {
            assert(false);
        }
    }
    finish_binary64(n, k, p)
}

fn finish_binary64(n: u128, k: u128, p: u128) -> (r: (u128, u128))
    requires
        n >= 0x20_0000_0000_0000,
        1 <= k <= 75,
        p == pow2(k as nat),
        down_shift(n as nat, 1, 0) == k,
        n < 1 * pow2((53 + k) as nat),
        n >= pow2((52 + k) as nat),
    ensures
        binary64_of(n as nat) == r.0 * pow2(r.1 as nat),
        1 <= r.0 <= 0x20_0000_0000_0000,
        r.1 <= 75,
        r.1 == 0 ==> r.0 == n,
        r.1 > 0 ==> n >= 0x20_0000_0000_0000,
{
    proof {
        lemma_pow2_values();
        lemma_pow2_add(53, k as nat);
        lemma_pow2_add(52, k as nat);
        lemma_pow2_pos(k as nat);
        lemma_div_round_even_bound(n as nat, p as nat, 0x20_0000_0000_0000);
        assert(n / p >= 0x10_0000_0000_0000) by (nonlinear_arith)
            requires
                n >= p * 0x10_0000_0000_0000,
                p >= 1,
        ;
    }
    let m = div_round_even_exec(n, p);
    (m, k)
}

/// `scaled_quotient` for a numerator below `unit * 2^53`.
fn scaled_up(a: u128, unit: u128, scale: u128) -> (r: u128)
    requires
        1 <= a,
        1 <= unit <= 1_000_000_000,
        1 <= scale <= 1_000,
        a < unit * pow2(53),
    ensures
        r == scaled_quotient(a as nat, unit as nat, scale as nat),
{
    proof {
        lemma_pow2_values();
    }
    let limit: u128 = unit * 0x20_0000_0000_0000;
    let target: u128 = unit * 0x10_0000_0000_0000;
    let mut s: u128 = 0;
    let mut p: u128 = 1;
    let mut np: u128 = a;
    while np < target
        invariant
            1 <= a < limit,
            1 <= unit <= 1_000_000_000,
            limit == unit * pow2(53),
            target == unit * pow2(52),
            limit == 2 * target,
            p == pow2(s as nat),
            np == a * p,
            1 <= p <= np,
            np < limit,
            s <= 83,
            up_shift(a as nat, unit as nat, 0) == up_shift(a as nat, unit as nat, s as nat),
        decreases limit - np,
    {
        proof {
            lemma_pow2_values();
            assert(pow2((s + 1) as nat) == 2 * pow2(s as nat));
            assert(a * (2 * p) == 2 * np) by (nonlinear_arith)
                requires
                    np == a * p,
            ;
            if s >= 83 {
                lemma_pow2_mono(83, s as nat);
                lemma_pow2_add(76, 7);
                reveal_with_fuel(pow2, 8);
                assert(false) by (nonlinear_arith)
                    requires
                        p >= 0x1000_0000_0000_0000_0000 * 128,
                        p <= np,
                        np < limit,
                        limit == unit * 0x20_0000_0000_0000,
                        unit <= 1_000_000_000,
                ;
            }
        }
        np = np * 2;
        p = p * 2;
        s = s + 1;
    }
    proof {
        assert(up_shift(a as nat, unit as nat, s as nat) == s);
        lemma_div_round_even_bound(np as nat, unit as nat, 0x20_0000_0000_0000);
    }
    let m = div_round_even_exec(np, unit);
    proof {
        assert(m * scale <= 0x20_0000_0000_0000 * scale) by (nonlinear_arith)
            requires
                m <= 0x20_0000_0000_0000,
        ;
        assert((m * scale) as int / (p as int) <= m * scale) by (nonlinear_arith)
            requires
                p >= 1,
        ;
    }
    div_round_even_exec(m * scale, p)
}


fn pow2_exec(k: u128) -> (p: u128)
    requires
        k <= 127,
    ensures
        p == pow2(k as nat),
{
    let mut p: u128 = 1;
    let mut i: u128 = 0;
    while i < k
        invariant
            i <= k <= 127,
            p == pow2(i as nat),
        decreases k - i,
    {
        proof {
            lemma_pow2_mono(i as nat, 126);
            lemma_pow2_add(126, 2);
            lemma_pow2_values();
            reveal_with_fuel(pow2, 3);
        }
        p = p * 2;
        i = i + 1;
    }
    p
}

fn pow10_exec(k: u128) -> (p: u128)
    requires
        k <= 3,
    ensures
        p == pow10(k as nat),
{
    reveal_with_fuel(pow10, 4);
    if k == 0 {
        1
    } else if k == 1 {
        10
    } else if k == 2 {
        100
    } else {
        1_000
    }
}

/// `scaled_quotient` of `m * 2^k`.
fn scaled_parts(m: u128, k: u128, unit: u128, scale: u128) -> (r: u128)
    requires
        1 <= m <= 0x20_0000_0000_0000,
        k <= 75,
        2 <= unit <= 1_000_000_000,
        1 <= scale <= 1_000,
        4 * scale <= unit,
    ensures
        r == scaled_quotient((m * pow2(k as nat)) as nat, unit as nat, scale as nat),
{
    proof {
        lemma_pow2_values();
    }
    if k == 0 {
        assert(pow2(0) == 1);
        assert(m * pow2(0) == m);
        assert(m < unit * pow2(53));
        return scaled_up(m, unit, scale);
    }
    let half_p = pow2_exec(k - 1);
    proof {
        lemma_pow2_mono((k - 1) as nat, 74);
        assert(m * half_p <= 0x20_0000_0000_0000 * 0x400_0000_0000_0000_0000) by (nonlinear_arith)
            requires
                m <= 0x20_0000_0000_0000,
                half_p <= 0x400_0000_0000_0000_0000,
        ;
        assert(pow2(k as nat) == 2 * pow2((k - 1) as nat));
        assert(m * pow2(k as nat) == 2 * (m * half_p)) by (nonlinear_arith)
            requires
                pow2(k as nat) == 2 * half_p,
        ;
    }
    proof {
        lemma_pow2_pos((k - 1) as nat);
        assert(m * half_p >= 1) by (nonlinear_arith)
            requires
                m >= 1,
                half_p >= 1,
        ;
    }
    let h: u128 = m * half_p;
    let half_limit: u128 = unit * 0x10_0000_0000_0000;
    if h < half_limit {
        return scaled_up(2 * h, unit, scale);
    }
    let mut s: u128 = 1;
    let mut p: u128 = 1;
    let mut d: u128 = unit;
    let mut bound: u128 = unit * 0x20_0000_0000_0000;
    assert(pow2(0) == 1);
    while bound <= h
        invariant
            2 <= unit <= 1_000_000_000,
            1 <= scale <= 1_000,
            4 * scale <= unit,
            h <= 0x8000_0000_0000_0000_0000_0000_0000_0000,
            m * pow2(k as nat) == 2 * h,
            1 <= s <= 75,
            p == pow2((s - 1) as nat),
            d == unit * p,
            p <= d,
            bound == d * 0x20_0000_0000_0000,
            2 * h >= bound,
            down_shift((2 * h) as nat, unit as nat, 0) == down_shift((2 * h) as nat, unit as nat, s as nat),
        decreases 128 - s,
    {
        proof {
            lemma_pow2_values();
            lemma_pow2_add(54, (s - 1) as nat);
            reveal_with_fuel(pow2, 2);
            assert(unit * pow2((53 + s) as nat) == 2 * bound) by (nonlinear_arith)
                requires
                    pow2((53 + s) as nat) == pow2(54) * p,
                    pow2(54) == 2 * 0x20_0000_0000_0000,
                    d == unit * p,
                    bound == d * 0x20_0000_0000_0000,
            ;
            if s >= 75 {
                lemma_pow2_mono(74, (s - 1) as nat);
                assert(false) by (nonlinear_arith)
                    requires
                        p >= 0x400_0000_0000_0000_0000,
                        unit >= 2,
                        d == unit * p,
                        bound == d * 0x20_0000_0000_0000,
                        bound <= h,
                        h <= 0x8000_0000_0000_0000_0000_0000_0000_0000,
                ;
            }
            assert(down_shift((2 * h) as nat, unit as nat, s as nat) == down_shift(
                (2 * h) as nat,
                unit as nat,
                (s + 1) as nat,
            ));
            assert(pow2(s as nat) == 2 * pow2((s - 1) as nat));
            assert(d * 2 == unit * (p * 2)) by (nonlinear_arith)
                requires
                    d == unit * p,
            ;
        }
        if bound > u128::MAX / 2 {
            proof {
                lemma_pow2_add(54, s as nat);
                assert(unit * pow2((53 + s + 1) as nat) == 4 * bound) by (nonlinear_arith)
                    requires
                        pow2((53 + s + 1) as nat) == pow2(54) * (2 * p),
                        pow2(54) == 2 * 0x20_0000_0000_0000,
                        d == unit * p,
                        bound == d * 0x20_0000_0000_0000,
                ;
                assert(down_shift((2 * h) as nat, unit as nat, (s + 1) as nat) == s + 1);
            }
            return finish_down(h, unit, scale, s + 1, p * 2, d * 2);
        }
        bound = bound * 2;
        d = d * 2;
        p = p * 2;
        s = s + 1;
    }
    proof {
        lemma_pow2_add(54, (s - 1) as nat);
        reveal_with_fuel(pow2, 2);
        assert(unit * pow2((53 + s) as nat) == 2 * bound) by (nonlinear_arith)
            requires
                pow2((53 + s) as nat) == pow2(54) * p,
                pow2(54) == 2 * 0x20_0000_0000_0000,
                d == unit * p,
                bound == d * 0x20_0000_0000_0000,
        ;
        assert(down_shift((2 * h) as nat, unit as nat, s as nat) == s);
    }
    finish_down(h, unit, scale, s, p, d)
}

/// The last step of `scaled_quotient` for a numerator `2 * h` of at least `unit * 2^53`.
fn finish_down(h: u128, unit: u128, scale: u128, s: u128, p: u128, d: u128) -> (r: u128)
    requires
        2 <= unit <= 1_000_000_000,
        1 <= scale <= 1_000,
        4 * scale <= unit,
        h <= 0x8000_0000_0000_0000_0000_0000_0000_0000,
        1 <= s <= 76,
        p == pow2((s - 1) as nat),
        d == unit * p,
        h < d * 0x20_0000_0000_0000,
        h >= d * 0x10_0000_0000_0000,
        down_shift((2 * h) as nat, unit as nat, 0) == s,
    ensures
        r == scaled_quotient((2 * h) as nat, unit as nat, scale as nat),
{
    proof {
        lemma_pow2_values();
        lemma_pow2_pos((s - 1) as nat);
        assert(pow2(s as nat) == 2 * p);
        assert(2 * h >= unit * pow2(53)) by (nonlinear_arith)
            requires
                h >= d * 0x10_0000_0000_0000,
                d == unit * p,
                p >= 1,
                pow2(53) == 0x20_0000_0000_0000,
        ;
        assert(unit * pow2(s as nat) == d * 2) by (nonlinear_arith)
            requires
                pow2(s as nat) == 2 * p,
                d == unit * p,
        ;
        lemma_div_round_even_scale(h as nat, d as nat, 2);
        lemma_div_round_even_bound(h as nat, d as nat, 0x20_0000_0000_0000);
    }
    let m = div_round_even_exec(h, d);
    proof {
        assert(d <= 0x8_0000_0000_0000_0000_0000) by (nonlinear_arith)
            requires
                h >= d * 0x10_0000_0000_0000,
                h <= 0x8000_0000_0000_0000_0000_0000_0000_0000,
        ;
        assert(p <= d) by (nonlinear_arith)
            requires
                d == unit * p,
                unit >= 2,
        ;
        assert(4 * (scale * p) <= d) by (nonlinear_arith)
            requires
                4 * scale <= unit,
                d == unit * p,
        ;
        assert(m * scale <= 0x20_0000_0000_0000 * 1_000) by (nonlinear_arith)
            requires
                m <= 0x20_0000_0000_0000,
                scale <= 1_000,
        ;
        assert((m * scale) * (p * 2) <= 0x20_0000_0000_0000 * (2 * (scale * p))) by (nonlinear_arith)
            requires
                m <= 0x20_0000_0000_0000,
        ;
    }
    m * scale * (p * 2)
}

/// The last `places` digits of `v`, zero-padded.
fn low_digits_exec(v: u128, places: u128) -> (r: Vec<char>)
    ensures
        r@ == low_digits(v as nat, places as nat),
    decreases places,
{
    if places == 0 {
        Vec::new()
    } else {
        let mut r = low_digits_exec(v / 10, places - 1);
        r.push(digit_to_char(v % 10));
        r
    }
}

/// `v / 10^places` written with exactly `places` decimals.
fn fixed_point_exec(v: u128, places: u128) -> (r: Vec<char>)
    requires
        places <= 3,
    ensures
        r@ == fixed_point(v as nat, places as nat),
{
    let divisor = pow10_exec(places);
    proof {
        reveal_with_fuel(pow10, 4);
    }
    let mut r = decimal_chars(v / divisor);
    r.push('.');
    let frac = low_digits_exec(v, places);
    extend_chars(&mut r, &frac);
    r
}

/// The nanosecond count `n` in `unit`s with `places` decimals.
fn count_in_units(n: u128, unit: u128, places: u128) -> (r: Vec<char>)
    requires
        1_000 <= unit <= 1_000_000_000,
        places <= 3,
        4 * pow10(places as nat) <= unit,
    ensures
        r@ == in_units(n as nat, unit as nat, places as nat),
{
    let scale = pow10_exec(places);
    proof {
        reveal_with_fuel(pow10, 4);
        lemma_pow2_values();
    }
    let value = if n == 0 {
        0
    } else {
        let (m, k) = binary64_parts(n);
        scaled_parts(m, k, unit, scale)
    };
    fixed_point_exec(value, places)
}

/// The last two characters of `s`.
pub open spec fn last_two(s: Seq<char>) -> Seq<char> {
    s.subrange(s.len() - 2, s.len() as int)
}

/// The unit of a pretty-printed duration is chosen by the range of the count: `ns` below
/// a microsecond, `us` below a millisecond, `ms` below a second, and `s` after a digit
/// from a second on.
pub proof fn lemma_duration_unit_by_range(n: nat)
    ensures
        pretty_duration_spec(n).len() >= 2,
        last_two(pretty_duration_spec(n)) == seq!['n', 's'] <==> n < 1_000,
        last_two(pretty_duration_spec(n)) == seq!['u', 's'] <==> 1_000 <= n < 1_000_000,
        last_two(pretty_duration_spec(n)) == seq!['m', 's'] <==> 1_000_000 <= n < 1_000_000_000,
        n >= 1_000_000_000 <==> {
            &&& pretty_duration_spec(n).last() == 's'
            &&& is_digit_char(last_two(pretty_duration_spec(n))[0])
        },
{
    reveal_with_fuel(low_digits, 2);
    let p = pretty_duration_spec(n);
    if n < 1_000 {
        let d = decimal(n);
        lemma_decimal_nonempty_digits(n);
        assert(last_two(p) =~= seq!['n', 's']);
    } else {
        let unit: nat = if n < 1_000_000 { 1_000 } else if n < 1_000_000_000 { 1_000_000 } else { 1_000_000_000 };
        let v = scaled_quotient(binary64_of(n), unit, pow10(1));
        let f = fixed_point(v, 1);
        assert(low_digits(v, 1) =~= seq![digit_char(v % 10)]);
        assert(f.last() == digit_char(v % 10));
        assert(in_units(n, unit, 1) == f);
        if n < 1_000_000 {
            assert(p =~= f + seq!['u', 's']);
            assert(last_two(p) =~= seq!['u', 's']);
        } else if n < 1_000_000_000 {
            assert(p =~= f + seq!['m', 's']);
            assert(last_two(p) =~= seq!['m', 's']);
        } else {
            assert(p =~= f + seq!['s']);
            assert(last_two(p)[0] == f.last());
        }
    }
}

/// Whether `c` is a decimal digit.
pub open spec fn is_digit_char(c: char) -> bool {
    '0' <= c <= '9'
}

proof fn lemma_decimal_nonempty_digits(n: nat)
    ensures
        decimal(n).len() >= 1,
        forall|i: int| 0 <= i < decimal(n).len() ==> is_digit_char(#[trigger] decimal(n)[i]),
    decreases n,
{
    if n >= 10 {
        lemma_decimal_nonempty_digits(n / 10);
    }
}

/// Renders a nanosecond count: below a microsecond as `<n>ns`, then in `us`, `ms` or
/// `s` with one decimal.
pub fn pretty_duration(duration_nanos: u128) -> (text: String)
    ensures
        text@ == pretty_duration_spec(duration_nanos as nat),
{
    proof {
        reveal_with_fuel(pow10, 2);
    }
    let mut r: Vec<char>;
    if duration_nanos < 1_000 {
        r = decimal_chars(duration_nanos);
        r.push('n');
        r.push('s');
    } else if duration_nanos < 1_000_000 {
        r = count_in_units(duration_nanos, 1_000, 1);
        r.push('u');
        r.push('s');
    } else if duration_nanos < 1_000_000_000 {
        r = count_in_units(duration_nanos, 1_000_000, 1);
        r.push('m');
        r.push('s');
    } else {
        r = count_in_units(duration_nanos, 1_000_000_000, 1);
        r.push('s');
    }
    string_from_chars(&r)
}

/// Renders a nanosecond count in seconds with three decimals, such as `1.250s`.
pub fn format_live_task_runtime_seconds(duration_nanos: u128) -> (text: String)
    ensures
        text@ == in_units(duration_nanos as nat, 1_000_000_000, 3) + seq!['s'],
{
    proof {
        reveal_with_fuel(pow10, 4);
    }
    let mut r = count_in_units(duration_nanos, 1_000_000_000, 3);
    r.push('s');
    string_from_chars(&r)
}

} // verus!
