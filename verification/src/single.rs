//! Single precision, in whole numbers.
//!
//! What a screen shows of a depth or a gain is worked out in single precision, which
//! keeps 24 significant bits and rounds every result to the nearest such number, a tie
//! to the even one. Here such a number is the quotient of two whole ones, and each
//! operation is the exact quotient rounded once. Infinities and the thinned-out numbers
//! next to zero are out of reach of anything that is worked out here.
use vstd::prelude::*;

use crate::text::push_decimal;

verus! {

use crate::text::decimal;

/// `n / d` rounded to the nearest whole number, a half to the even one.
pub open spec fn rounded(n: nat, d: nat) -> nat {
    let q = n / d;
    let r = n % d;
    if 2 * r > d || (2 * r == d && q % 2 == 1) {
        q + 1
    } else {
        q
    }
}

/// `n / d`, of 24 bits or more before the point, to 24 significant bits: a quotient of
/// too many bits is twice what its half comes to.
pub open spec fn coarse(n: nat, d: nat) -> nat
    decreases n - d,
{
    if d == 0 || n < 0x100_0000 * d {
        rounded(n, d)
    } else {
        2 * coarse(n, 2 * d)
    }
}

/// `n / d`, of 24 bits or fewer before the point, to 24 significant bits: a quotient of
/// too few bits is half of what its double comes to.
pub open spec fn fine(n: nat, d: nat) -> (nat, nat)
    decreases 0x100_0000 * d - n,
{
    if n == 0 || n >= 0x80_0000 * d {
        (rounded(n, d), 1)
    } else {
        let (p, q) = fine(2 * n, d);
        (p, 2 * q)
    }
}

/// `n / d` in single precision, as a quotient.
pub open spec fn single(n: nat, d: nat) -> (nat, nat) {
    if n < 0x100_0000 * d {
        fine(n, d)
    } else {
        (coarse(n, d), 1)
    }
}

/// A number of frames in milliseconds, in single precision: the number taken into it,
/// times a thousand, through the frames in a second.
pub open spec fn frames_in_ms(frames: nat) -> (nat, nat) {
    let taken = single(frames, 1);
    let thousandfold = single(1000 * taken.0, taken.1);
    single(thousandfold.0, 48000 * thousandfold.1)
}

/// A number of thousandths, in single precision: the number taken into it, through a
/// thousand.
pub open spec fn thousandths(milli: nat) -> (nat, nat) {
    let taken = single(milli, 1);
    single(taken.0, 1000 * taken.1)
}

/// A quotient to the nearest whole number.
pub open spec fn in_units(x: (nat, nat)) -> nat {
    rounded(x.0, x.1)
}

/// A quotient in decimal, to a tenth.
pub open spec fn to_tenths(x: (nat, nat)) -> Seq<char> {
    let t = rounded(10 * x.0, x.1);
    decimal(t / 10) + "."@ + decimal(t % 10)
}

/// A quotient in decimal, to a hundredth.
pub open spec fn to_hundredths(x: (nat, nat)) -> Seq<char> {
    let t = rounded(100 * x.0, x.1);
    decimal(t / 100) + "."@ + decimal(t / 10 % 10) + decimal(t % 10)
}

fn round(n: u128, d: u128) -> (r: u128)
    requires
        0 < d,
        n < 0x1_0000_0000_0000_0000_0000_0000_0000,
    ensures
        r == rounded(n as nat, d as nat),
        r <= n / d + 1,
{
    let q: u128 = n / d;
    let rest: u128 = n % d;
    assert(q <= n) by (nonlinear_arith)
        requires
            q == n / d,
            0 < d,
    ;
    let other: u128 = d - rest;
    if rest > other || (rest == other && q % 2 == 1) {
        q + 1
    } else {
        q
    }
}

fn coarsen(n: u128, d: u128) -> (r: u128)
    requires
        0 < d,
        0x80_0000 * d <= n < 0x1_0000_0000_0000_0000_0000_0000_0000,
    ensures
        r == coarse(n as nat, d as nat),
        r * d <= 2 * n,
    decreases n - d,
{
    if n / d < 0x100_0000 {
        assert(n < 0x100_0000 * d) by (nonlinear_arith)
            requires
                n / d < 0x100_0000,
                0 < d,
        ;
        let r: u128 = round(n, d);
        assert(r * d <= 2 * n) by (nonlinear_arith)
            requires
                r <= n / d + 1,
                0 < d <= n,
        ;
        r
    } else {
        assert(n >= 0x100_0000 * d) by (nonlinear_arith)
            requires
                n / d >= 0x100_0000,
                0 < d,
        ;
        let half: u128 = coarsen(n, 2 * d);
        assert((2 * half) * d <= 2 * n) by (nonlinear_arith)
            requires
                half * (2 * d) <= 2 * n,
        ;
        assert(half <= n) by (nonlinear_arith)
            requires
                (2 * half) * d <= 2 * n,
                1 <= d,
        ;
        2 * half
    }
}

fn refine(n: u128, d: u128) -> (r: (u128, u128))
    requires
        0 < d < 0x1_0000_0000_0000_0000_0000,
        n < 0x100_0000 * d,
    ensures
        (r.0 as nat, r.1 as nat) == fine(n as nat, d as nat),
        r.0 <= 0x100_0000,
        0 < r.1,
        n == 0 ==> r.1 == 1,
        n * r.1 < 0x100_0000 * d,
    decreases 0x100_0000 * d - n,
{
    if n == 0 || n >= 0x80_0000 * d {
        let r: u128 = round(n, d);
        assert(n / d < 0x100_0000) by (nonlinear_arith)
            requires
                n < 0x100_0000 * d,
                0 < d,
        ;
        (r, 1)
    } else {
        let (p, q): (u128, u128) = refine(2 * n, d);
        assert(n * (2 * q) == (2 * n) * q) by (nonlinear_arith);
        assert(q <= n * (2 * q)) by (nonlinear_arith)
            requires
                1 <= n,
        ;
        assert(2 * q <= n * (2 * q)) by (nonlinear_arith)
            requires
                1 <= n,
        ;
        (p, 2 * q)
    }
}

/// `n / d` in single precision.
fn to_single(n: u128, d: u128) -> (r: (u128, u128))
    requires
        0 < d < 0x1_0000_0000_0000_0000_0000,
        n < 0x1_0000_0000_0000_0000_0000_0000_0000,
    ensures
        (r.0 as nat, r.1 as nat) == single(n as nat, d as nat),
        0 < r.1 <= 0x100_0000 * d,
        r.0 <= 0x100_0000 || (r.0 <= 2 * n && r.0 * d <= 2 * n),
{
    if n < 0x100_0000 * d {
        let r = refine(n, d);
        if n > 0 {
            assert(r.1 <= n * r.1) by (nonlinear_arith)
                requires
                    1 <= n,
            ;
        }
        r
    } else {
        let r: u128 = coarsen(n, d);
        assert(r <= r * d) by (nonlinear_arith)
            requires
                1 <= d,
        ;
        (r, 1)
    }
}

/// A number of frames in milliseconds, in single precision.
fn ms_of(frames: u64) -> (r: (u128, u128))
    ensures
        (r.0 as nat, r.1 as nat) == frames_in_ms(frames as nat),
        0 < r.1,
        r.0 <= 0x100_0000 || 6 * r.0 <= frames,
{
    let taken = to_single(frames as u128, 1);
    let thousandfold = to_single(1000 * taken.0, taken.1);
    let r = to_single(thousandfold.0, 48000 * thousandfold.1);
    assert(48000 * r.0 <= r.0 * (48000 * thousandfold.1)) by (nonlinear_arith)
        requires
            1 <= thousandfold.1,
    ;
    r
}

/// A number of frames in milliseconds, to the nearest whole one.
pub(crate) fn whole_ms(frames: u32) -> (r: u32)
    ensures
        r == in_units(frames_in_ms(frames as nat)),
{
    let x = ms_of(frames as u64);
    let r: u128 = round(x.0, x.1);
    assert(x.0 / x.1 <= x.0) by (nonlinear_arith)
        requires
            0 < x.1,
    ;
    r as u32
}

/// A number of thousandths, in single precision.
fn milli_of(milli: u32) -> (r: (u128, u128))
    ensures
        (r.0 as nat, r.1 as nat) == thousandths(milli as nat),
        0 < r.1,
        r.0 < 0x10_0000_0000,
{
    let taken = to_single(milli as u128, 1);
    to_single(taken.0, 1000 * taken.1)
}

fn push_tenths(out: &mut String, x: (u128, u128))
    requires
        0 < x.1,
        x.0 < 0x4000_0000_0000_0000,
    ensures
        final(out)@ == old(out)@ + to_tenths((x.0 as nat, x.1 as nat)),
{
    let t: u128 = round(10 * x.0, x.1);
    assert((10 * x.0) / x.1 as int <= 10 * x.0) by (nonlinear_arith)
        requires
            0 < x.1,
    ;
    push_decimal(out, (t / 10) as u64);
    out.push('.');
    push_decimal(out, (t % 10) as u64);
    proof {
        reveal_strlit(".");
    }
    assert(out@ =~= old(out)@ + to_tenths((x.0 as nat, x.1 as nat)));
}

fn push_hundredths(out: &mut String, x: (u128, u128))
    requires
        0 < x.1,
        x.0 < 0x4000_0000_0000_0000,
    ensures
        final(out)@ == old(out)@ + to_hundredths((x.0 as nat, x.1 as nat)),
{
    let t: u128 = round(100 * x.0, x.1);
    assert((100 * x.0) / x.1 as int <= 100 * x.0) by (nonlinear_arith)
        requires
            0 < x.1,
    ;
    push_decimal(out, (t / 100) as u64);
    out.push('.');
    push_decimal(out, (t / 10 % 10) as u64);
    push_decimal(out, (t % 10) as u64);
    proof {
        reveal_strlit(".");
    }
    assert(out@ =~= old(out)@ + to_hundredths((x.0 as nat, x.1 as nat)));
}

/// Puts a number of frames onto the end of a text, in milliseconds to a tenth.
pub(crate) fn push_ms(out: &mut String, frames: usize)
    ensures
        final(out)@ == old(out)@ + to_tenths(frames_in_ms(frames as nat)),
{
    push_tenths(out, ms_of(frames as u64));
}

/// Puts a number of thousandths onto the end of a text, to a tenth.
pub(crate) fn push_milli_tenths(out: &mut String, milli: u32)
    ensures
        final(out)@ == old(out)@ + to_tenths(thousandths(milli as nat)),
{
    push_tenths(out, milli_of(milli));
}

/// Puts a number of thousandths onto the end of a text, to a hundredth.
pub(crate) fn push_milli_hundredths(out: &mut String, milli: u32)
    ensures
        final(out)@ == old(out)@ + to_hundredths(thousandths(milli as nat)),
{
    push_hundredths(out, milli_of(milli));
}

/// The nearest whole number is within a half.
proof fn lemma_within_a_half(n: nat, d: nat)
    requires
        d > 0,
    ensures
        -(d as int) <= 2 * (rounded(n, d) * d - n) <= d,
{
    let q = n / d;
    let r = n % d;
    assert(n == q * d + r && r < d) by (nonlinear_arith)
        requires
            q == n / d,
            r == n % d,
            d > 0,
    ;
    assert((q + 1) * d == q * d + d) by (nonlinear_arith);
}

proof fn lemma_coarse_is_close(n: nat, d: nat)
    requires
        d > 0,
        0x80_0000 * d <= n,
    ensures
        -n <= 0x100_0000 * (coarse(n, d) * d - n) <= n,
    decreases n - d,
{
    if n < 0x100_0000 * d {
        lemma_within_a_half(n, d);
    } else {
        lemma_coarse_is_close(n, 2 * d);
        let h = coarse(n, 2 * d);
        assert((2 * h) * d == h * (2 * d)) by (nonlinear_arith);
    }
}

proof fn lemma_fine_is_close(n: nat, d: nat)
    requires
        d > 0,
        n < 0x100_0000 * d,
    ensures
        fine(n, d).1 > 0,
        ({
            let (p, q) = fine(n, d);
            -(q * n) <= 0x100_0000 * (p * d - q * n) <= q * n
        }),
    decreases 0x100_0000 * d - n,
{
    if n == 0 || n >= 0x80_0000 * d {
        lemma_within_a_half(n, d);
        if n == 0 {
            assert(0nat / d == 0 && 0nat % d == 0) by (nonlinear_arith)
                requires
                    d > 0,
            ;
            assert(rounded(n, d) == 0);
            assert(rounded(n, d) * d == 0) by (nonlinear_arith)
                requires
                    rounded(n, d) == 0,
            ;
        } else {
            assert(1 * n == n);
        }
    } else {
        lemma_fine_is_close(2 * n, d);
        let (p, q) = fine(2 * n, d);
        assert((2 * q) * n == q * (2 * n)) by (nonlinear_arith);
    }
}

/// A result in single precision is off by no more than one part in two to the 24.
pub proof fn law_single_precision_is_close(n: nat, d: nat)
    requires
        d > 0,
    ensures
        single(n, d).1 > 0,
        ({
            let (p, q) = single(n, d);
            -(q * n) <= 0x100_0000 * (p * d - q * n) <= q * n
        }),
{
    if n < 0x100_0000 * d {
        lemma_fine_is_close(n, d);
    } else {
        lemma_coarse_is_close(n, d);
    }
}

/// Thousandths come to the thousandth part, to within two roundings.
pub proof fn law_thousandths_are_thousandth_parts(milli: nat)
    ensures
        ({
            let (p, q) = thousandths(milli);
            &&& q > 0
            &&& p * 1000 * 0x100_0000 * 0x100_0000 <= q * milli * 0x100_0001 * 0x100_0001
            &&& p * 1000 * 0x100_0000 * 0x100_0000 >= q * milli * 0xff_ffff * 0xff_ffff
        }),
{
    let a = single(milli, 1);
    law_single_precision_is_close(milli, 1);
    law_single_precision_is_close(a.0, 1000 * a.1);
    let b = thousandths(milli);
    lemma_two_roundings(
        milli as int,
        a.0 as int,
        a.1 as int,
        1,
        1000,
        b.0 as int,
        b.1 as int,
    );
}

/// Two roundings one after the other: `a0 / a1` for `x`, and then `b0 / b1` for its
/// multiple by `up` and part by `down`.
proof fn lemma_two_roundings(x: int, a0: int, a1: int, up: int, down: int, b0: int, b1: int)
    requires
        x >= 0,
        a0 >= 0,
        a1 > 0,
        b0 >= 0,
        b1 > 0,
        up > 0,
        down > 0,
        -(a1 * x) <= 0x100_0000 * (a0 - a1 * x) <= a1 * x,
        -(b1 * (up * a0)) <= 0x100_0000 * (b0 * (down * a1) - b1 * (up * a0)) <= b1 * (up * a0),
    ensures
        b0 * down * 0x100_0000 * 0x100_0000 <= b1 * up * x * 0x100_0001 * 0x100_0001,
        b0 * down * 0x100_0000 * 0x100_0000 >= b1 * up * x * 0xff_ffff * 0xff_ffff,
{
    let k = 0x100_0000int;
    let u = b1 * up;
    let l = b0 * down;
    assert(b0 * (down * a1) == l * a1) by (nonlinear_arith)
        requires
            l == b0 * down,
    ;
    assert(b1 * (up * a0) == u * a0) by (nonlinear_arith)
        requires
            u == b1 * up,
    ;
    assert(u > 0) by (nonlinear_arith)
        requires
            u == b1 * up,
            b1 > 0,
            up > 0,
    ;
    let y = a1 * x;
    assert(k * (l * a1) <= (k + 1) * (u * a0));
    assert(k * (l * a1) >= (k - 1) * (u * a0));
    assert(k * a0 <= (k + 1) * y);
    assert(k * a0 >= (k - 1) * y);
    assert(u * (k * a0) <= u * ((k + 1) * y) && u * (k * a0) >= u * ((k - 1) * y))
        by (nonlinear_arith)
        requires
            u > 0,
            k * a0 <= (k + 1) * y,
            k * a0 >= (k - 1) * y,
    ;
    assert(u * (k * a0) == k * (u * a0)) by (nonlinear_arith);
    assert(u * ((k + 1) * y) == (k + 1) * (u * y)) by (nonlinear_arith);
    assert(u * ((k - 1) * y) == (k - 1) * (u * y)) by (nonlinear_arith);
    let w = u * x;
    assert(u * y == w * a1) by (nonlinear_arith)
        requires
            w == u * x,
            y == a1 * x,
    ;
    let t = k * k * l;
    assert(k * (k * (l * a1)) == t * a1) by (nonlinear_arith)
        requires
            t == k * k * l,
    ;
    let hi = (k + 1) * (k + 1) * w;
    let lo = (k - 1) * (k - 1) * w;
    assert((k + 1) * ((k + 1) * (w * a1)) == hi * a1) by (nonlinear_arith)
        requires
            hi == (k + 1) * (k + 1) * w,
    ;
    assert((k - 1) * ((k - 1) * (w * a1)) == lo * a1) by (nonlinear_arith)
        requires
            lo == (k - 1) * (k - 1) * w,
    ;
    assert(t * a1 <= hi * a1);
    assert(t * a1 >= lo * a1);
    assert(t <= hi && t >= lo) by (nonlinear_arith)
        requires
            t * a1 <= hi * a1,
            t * a1 >= lo * a1,
            a1 > 0,
    ;
    assert(t == b0 * down * 0x100_0000 * 0x100_0000) by (nonlinear_arith)
        requires
            t == k * k * l,
            l == b0 * down,
            k == 0x100_0000,
    ;
    assert(hi == b1 * up * x * 0x100_0001 * 0x100_0001) by (nonlinear_arith)
        requires
            hi == (k + 1) * (k + 1) * w,
            w == u * x,
            u == b1 * up,
            k == 0x100_0000,
    ;
    assert(lo == b1 * up * x * 0xff_ffff * 0xff_ffff) by (nonlinear_arith)
        requires
            lo == (k - 1) * (k - 1) * w,
            w == u * x,
            u == b1 * up,
            k == 0x100_0000,
    ;
}

proof fn lemma_one_more_rounding(k: int, m: int, y: int, z: int)
    requires
        k > 1,
        k * m <= (k + 1) * y,
        k * m >= (k - 1) * y,
        k * k * y <= (k + 1) * (k + 1) * z,
        k * k * y >= (k - 1) * (k - 1) * z,
    ensures
        k * k * k * m <= (k + 1) * (k + 1) * (k + 1) * z,
        k * k * k * m >= (k - 1) * (k - 1) * (k - 1) * z,
{
    let s = k * k;
    assert(s * (k * m) <= s * ((k + 1) * y) && s * (k * m) >= s * ((k - 1) * y))
        by (nonlinear_arith)
        requires
            s == k * k,
            k * m <= (k + 1) * y,
            k * m >= (k - 1) * y,
    ;
    assert(s * (k * m) == k * k * k * m) by (nonlinear_arith)
        requires
            s == k * k,
    ;
    assert(s * ((k + 1) * y) == (k + 1) * (s * y)) by (nonlinear_arith);
    assert(s * ((k - 1) * y) == (k - 1) * (s * y)) by (nonlinear_arith);
    let hi = (k + 1) * (k + 1) * z;
    let lo = (k - 1) * (k - 1) * z;
    assert((k + 1) * (s * y) <= (k + 1) * hi && (k - 1) * (s * y) >= (k - 1) * lo)
        by (nonlinear_arith)
        requires
            k > 1,
            s * y <= hi,
            s * y >= lo,
    ;
    assert((k + 1) * hi == (k + 1) * (k + 1) * (k + 1) * z) by (nonlinear_arith)
        requires
            hi == (k + 1) * (k + 1) * z,
    ;
    assert((k - 1) * lo == (k - 1) * (k - 1) * (k - 1) * z) by (nonlinear_arith)
        requires
            lo == (k - 1) * (k - 1) * z,
    ;
}

/// Frames come to a millisecond for every 48 of them, to within three roundings.
#[verifier::spinoff_prover]
#[verifier::rlimit(40)]
pub proof fn law_48_frames_are_a_millisecond(frames: nat)
    ensures
        ({
            let (p, q) = frames_in_ms(frames);
            let k = 0x100_0000int;
            &&& q > 0
            &&& k * k * k * (48 * p) <= (k + 1) * (k + 1) * (k + 1) * (q * frames)
            &&& k * k * k * (48 * p) >= (k - 1) * (k - 1) * (k - 1) * (q * frames)
        }),
{
    let k = 0x100_0000int;
    let a = single(frames, 1);
    let b = single(1000 * a.0, a.1);
    let c = frames_in_ms(frames);
    law_single_precision_is_close(frames, 1);
    law_single_precision_is_close(1000 * a.0, a.1);
    law_single_precision_is_close(b.0, 48000 * b.1);
    let (b0, b1, c0, c1, f) = (b.0 as int, b.1 as int, c.0 as int, c.1 as int, frames as int);
    lemma_two_roundings(f, a.0 as int, a.1 as int, 1000, 1, b0, b1);
    // What the first two make of it, and what the third makes of that.
    let g = b1 * 1000 * f;
    assert(b0 * k * k <= g * (k + 1) * (k + 1));
    assert(b0 * k * k >= g * (k - 1) * (k - 1));
    let m = c0 * (48000 * b1);
    let y = c1 * b0;
    assert(k * m <= (k + 1) * y);
    assert(k * m >= (k - 1) * y);
    assert(c1 * (b0 * k * k) <= c1 * (g * (k + 1) * (k + 1)) && c1 * (b0 * k * k) >= c1 * (g * (k
        - 1) * (k - 1))) by (nonlinear_arith)
        requires
            c1 > 0,
            b0 * k * k <= g * (k + 1) * (k + 1),
            b0 * k * k >= g * (k - 1) * (k - 1),
    ;
    assert(c1 * (b0 * k * k) == k * k * y) by (nonlinear_arith)
        requires
            y == c1 * b0,
    ;
    let z = c1 * g;
    assert(c1 * (g * (k + 1) * (k + 1)) == (k + 1) * (k + 1) * z) by (nonlinear_arith)
        requires
            z == c1 * g,
    ;
    assert(c1 * (g * (k - 1) * (k - 1)) == (k - 1) * (k - 1) * z) by (nonlinear_arith)
        requires
            z == c1 * g,
    ;
    lemma_one_more_rounding(k, m, y, z);
    let e = 1000 * b1;
    let x = c1 * f;
    assert(m == (48 * c0) * e) by (nonlinear_arith)
        requires
            m == c0 * (48000 * b1),
            e == 1000 * b1,
    ;
    assert(z == x * e) by (nonlinear_arith)
        requires
            z == c1 * g,
            g == b1 * 1000 * f,
            x == c1 * f,
            e == 1000 * b1,
    ;
    let t = k * k * k * (48 * c0);
    let hi = (k + 1) * (k + 1) * (k + 1) * x;
    let lo = (k - 1) * (k - 1) * (k - 1) * x;
    assert(k * k * k * m == t * e) by (nonlinear_arith)
        requires
            t == k * k * k * (48 * c0),
            m == (48 * c0) * e,
    ;
    assert((k + 1) * (k + 1) * (k + 1) * z == hi * e) by (nonlinear_arith)
        requires
            hi == (k + 1) * (k + 1) * (k + 1) * x,
            z == x * e,
    ;
    assert((k - 1) * (k - 1) * (k - 1) * z == lo * e) by (nonlinear_arith)
        requires
            lo == (k - 1) * (k - 1) * (k - 1) * x,
            z == x * e,
    ;
    assert(t <= hi && t >= lo) by (nonlinear_arith)
        requires
            t * e <= hi * e,
            t * e >= lo * e,
            e > 0,
    ;
}

/// A quotient is rounded to the nearest whole number, and from halfway to the even one;
/// to a tenth or a hundredth it is shown as that many whole tenths or hundredths.
pub proof fn law_a_quotient_is_rounded_to_the_nearest(n: nat, d: nat, t: nat)
    requires
        d > 0,
    ensures
        -(d as int) <= 2 * (rounded(n, d) * d - n) <= d,
        2 * (rounded(n, d) * d - n) == d || 2 * (n - rounded(n, d) * d) == d ==> rounded(n, d) % 2
            == 0,
        in_units((n, d)) == rounded(n, d),
        to_tenths((t, 10)) == decimal(t / 10) + "."@ + decimal(t % 10),
        to_hundredths((t, 100)) == decimal(t / 100) + "."@ + decimal(t / 10 % 10) + decimal(t % 10),
        to_tenths((n, d)) == to_tenths((rounded(10 * n, d), 10)),
        to_hundredths((n, d)) == to_hundredths((rounded(100 * n, d), 100)),
{
    lemma_within_a_half(n, d);
    let q = n / d;
    let r = n % d;
    assert(n == q * d + r && r < d) by (nonlinear_arith)
        requires
            q == n / d,
            r == n % d,
            d > 0,
    ;
    assert((q + 1) * d == q * d + d) by (nonlinear_arith);
    assert(rounded(10 * t, 10) == t);
    assert(rounded(100 * t, 100) == t);
    let a = rounded(10 * n, d);
    let b = rounded(100 * n, d);
    assert(rounded(10 * a, 10) == a);
    assert(rounded(100 * b, 100) == b);
}

} // verus!
