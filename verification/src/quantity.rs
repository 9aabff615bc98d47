//! Numbers as a row prints them: sizes in binary units, counts compactly.
//!
//! A size or a count is printed from its value as a double, so the printed
//! digits are stated through the nearest double: 53 significant bits, ties to
//! the even one. The digits themselves round to the nearest, ties to even.

use vstd::prelude::*;
use crate::text::{decimal, decimal_of, digit};

verus! {

/// `n / d` rounded to the nearest integer, ties to the even one.
pub open spec fn half_even(n: nat, d: nat) -> nat
    recommends
        d > 0,
{
    let q = n / d;
    let r = n % d;
    if 2 * r < d || (2 * r == d && q % 2 == 0) {
        q
    } else {
        q + 1
    }
}

/// Two to the power `e`.
pub open spec fn two_to(e: nat) -> nat
    decreases e,
{
    if e == 0 {
        1
    } else {
        2 * two_to((e - 1) as nat)
    }
}

/// How often `n` must be halved to have at most 53 bits.
pub open spec fn excess_bits(n: nat) -> nat
    decreases n,
{
    if n < 0x20_0000_0000_0000 {
        0
    } else {
        1 + excess_bits(n / 2)
    }
}

/// The double nearest to `n`.
pub open spec fn nearest_double(n: nat) -> nat {
    let unit = two_to(excess_bits(n));
    half_even(n, unit) * unit
}

/// The double nearest to `n` millionths, in units of two to the -52, for an
/// `n` of at least a million.
pub open spec fn nearest_millionth(n: nat) -> nat {
    let scaled = n * 0x10_0000_0000_0000;
    let unit = two_to(excess_bits(scaled / 1_000_000));
    half_even(scaled, 1_000_000 * unit) * unit
}

/// A number of tenths with its one decimal.
pub open spec fn tenths_text(t: nat) -> Seq<char> {
    decimal_of(t / 10).push('.').push(digit((t % 10) as int))
}

/// Bytes in one binary unit: how many of them make it.
pub open spec fn unit_bytes(bytes: nat) -> nat {
    if bytes < 0x10_0000 {
        0x400
    } else if bytes < 0x4000_0000 {
        0x10_0000
    } else if bytes < 0x100_0000_0000 {
        0x4000_0000
    } else {
        0x100_0000_0000
    }
}

/// The largest unit that `bytes` fills, with the space before it.
pub open spec fn unit_suffix(bytes: nat) -> Seq<char> {
    if bytes < 0x10_0000 {
        " KiB"@
    } else if bytes < 0x4000_0000 {
        " MiB"@
    } else if bytes < 0x100_0000_0000 {
        " GiB"@
    } else {
        " TiB"@
    }
}

/// Bytes as a person reads them.
pub open spec fn bytes_text(bytes: nat) -> Seq<char> {
    if bytes < 1024 {
        decimal_of(bytes) + " B"@
    } else {
        tenths_text(half_even(10 * nearest_double(bytes), unit_bytes(bytes))) + unit_suffix(bytes)
    }
}

/// A count in the room a row has for it.
pub open spec fn compact_text(value: nat) -> Seq<char> {
    if value <= 9_999 {
        decimal_of(value)
    } else if value <= 999_999 {
        decimal_of(half_even(value, 1000)) + "k"@
    } else {
        tenths_text(
            half_even(10 * nearest_millionth(nearest_double(value)), 0x10_0000_0000_0000),
        ) + "M"@
    }
}

fn round_half_even(n: u128, d: u128) -> (q: u128)
    requires
        0 < d <= 0x1_0000_0000_0000_0000_0000_0000,
        n <= 0x1_0000_0000_0000_0000_0000_0000_0000_0000int - 2,
    ensures
        q == half_even(n as nat, d as nat),
        q <= n / d + 1,
{
    let q: u128 = n / d;
    let r: u128 = n % d;
    assert(q <= n) by (nonlinear_arith)
        requires
            q == n / d,
            0 < d,
    ;
    if 2 * r < d || (2 * r == d && q % 2 == 0) {
        q
    } else {
        q + 1
    }
}

/// The unit that leaves `n` with at most 53 bits.
fn excess_unit(n: u128) -> (unit: u128)
    requires
        n < 0x20_0000_0000_0000_0000_0000_0000_0000,
    ensures
        unit == two_to(excess_bits(n as nat)),
        1 <= unit,
        unit == 1 || unit * 0x10_0000_0000_0000 <= n,
{
    let mut unit: u128 = 1;
    let mut m: u128 = n;
    let ghost mut e: nat = 0;
    while m >= 0x20_0000_0000_0000
        invariant
            n < 0x20_0000_0000_0000_0000_0000_0000_0000,
            unit == two_to(e),
            unit >= 1,
            excess_bits(n as nat) == e + excess_bits(m as nat),
            m * unit <= n,
            unit == 1 || unit * 0x10_0000_0000_0000 <= n,
        decreases m,
    {
        assert(unit * 0x20_0000_0000_0000 <= n) by (nonlinear_arith)
            requires
                m * unit <= n,
                m >= 0x20_0000_0000_0000,
                unit >= 1,
        ;
        let half: u128 = m / 2;
        assert(half * (2 * unit) <= n) by (nonlinear_arith)
            requires
                m * unit <= n,
                2 * half <= m,
                unit >= 1,
        ;
        proof {
            e = e + 1;
        }
        m = half;
        unit = unit * 2;
    }
    unit
}

fn to_double(n: u64) -> (out: u128)
    ensures
        out == nearest_double(n as nat),
        n < 0x20_0000_0000_0000 ==> out == n,
        n <= out + 0x1000,
        out <= n + 0x1000,
{
    let unit = excess_unit(n as u128);
    let q = round_half_even(n as u128, unit);
    proof {
        if n < 0x20_0000_0000_0000 {
            assert(excess_bits(n as nat) == 0);
            assert(unit == 1);
            assert(n as nat % 1 == 0 && n as nat / 1 == n);
        }
        assert(unit <= 0x1000) by {
            assert(unit * 0x10_0000_0000_0000 <= u64::MAX || unit == 1);
        }
        let x = (n as nat / unit as nat) as int;
        let r = (n as nat % unit as nat) as int;
        assert(x * unit + r == n) by (nonlinear_arith)
            requires
                x == n as nat / unit as nat,
                r == n as nat % unit as nat,
                unit >= 1,
        ;
        assert(0 <= r < unit) by (nonlinear_arith)
            requires
                r == n as nat % unit as nat,
                unit >= 1,
        ;
        assert(q == x || q == x + 1);
        assert(q * unit == x * unit || q * unit == x * unit + unit) by (nonlinear_arith)
            requires
                q == x || q == x + 1,
        ;
    }
    q * unit
}

/// The tenths of a million in `a`, which is at least a million.
fn mega_tenths(a: u128) -> (t: u128)
    requires
        1_000_000 <= a <= 0x1_0000_0000_0000_1000,
    ensures
        t == half_even(10 * nearest_millionth(a as nat), 0x10_0000_0000_0000),
        t <= 0x4_0000_0000_0000,
{
    let scaled: u128 = a * 0x10_0000_0000_0000;
    let unit = excess_unit(scaled / 1_000_000);
    assert(unit <= 0x1_0000_0000_0000) by {
        assert(scaled / 1_000_000 <= 0x2_0000_0000_0000_0000_0000_0000);
    }
    let q = round_half_even(scaled, 1_000_000 * unit);
    let ghost x = scaled / (1_000_000 * unit) as u128;
    assert((x * unit) * 1_000_000 <= scaled) by (nonlinear_arith)
        requires
            x == scaled / (1_000_000 * unit) as u128,
            1 <= unit <= 0x1_0000_0000_0000,
    ;
    assert(q * unit <= x * unit + unit) by (nonlinear_arith)
        requires
            q <= x + 1,
            unit >= 1,
    ;
    assert(0 <= q * unit) by (nonlinear_arith)
        requires
            q >= 0,
            unit >= 1,
    ;
    round_half_even(10 * (q * unit), 0x10_0000_0000_0000)
}

fn tenths(t: u64) -> (out: String)
    ensures
        out@ == tenths_text(t as nat),
{
    let mut out = decimal(t / 10);
    out.push('.');
    let last = decimal(t % 10);
    assert(last@ =~= seq![digit((t % 10) as int)]);
    let ghost head = out@;
    out.append(last.as_str());
    assert(out@ =~= head.push(digit((t % 10) as int)));
    out
}

/// Bytes as a person reads them. Binary units, one decimal, no more
/// precision than a footprint deserves.
pub fn format_bytes(bytes: u64) -> (out: String)
    ensures
        out@ == bytes_text(bytes as nat),
{
    if bytes < 1024 {
        let mut out = decimal(bytes);
        out.append(" B");
        return out;
    }
    let value = to_double(bytes);
    let (unit, suffix): (u128, &str) = if bytes < 0x10_0000 {
        (0x400, " KiB")
    } else if bytes < 0x4000_0000 {
        (0x10_0000, " MiB")
    } else if bytes < 0x100_0000_0000 {
        (0x4000_0000, " GiB")
    } else {
        (0x100_0000_0000, " TiB")
    };
    let t = round_half_even(10 * value, unit);
    assert(t <= u64::MAX);
    let mut out = tenths(t as u64);
    out.append(suffix);
    out
}

/// Token counts, compactly: a fleet row has no room for eight digits.
pub fn compact(value: u64) -> (out: String)
    ensures
        out@ == compact_text(value as nat),
{
    if value <= 9_999 {
        decimal(value)
    } else if value <= 999_999 {
        let k = round_half_even(value as u128, 1000);
        let mut out = decimal(k as u64);
        out.append("k");
        out
    } else {
        let a = to_double(value);
        assert(a >= 1_000_000);
        let t = mega_tenths(a);
        let mut out = tenths(t as u64);
        out.append("M");
        out
    }
}

/// Every number of at most 53 bits is its own nearest double.
pub proof fn small_numbers_are_exact(n: nat)
    requires
        n < 0x20_0000_0000_0000,
    ensures
        nearest_double(n) == n,
{
    assert(two_to(excess_bits(n)) == 1);
    assert(half_even(n, 1) == n);
}

/// Rounding is to the nearest: the result times the divisor is within half of it,
/// and exact where the division is.
pub proof fn rounding_is_to_the_nearest(n: nat, d: nat)
    requires
        d > 0,
    ensures
        2 * (half_even(n, d) * d) <= 2 * n + d,
        2 * n <= 2 * (half_even(n, d) * d) + d,
        n % d == 0 ==> half_even(n, d) * d == n,
        2 * (n % d) == d ==> half_even(n, d) % 2 == 0,
{
    let q = n / d;
    let r = n % d;
    assert(q * d + r == n) by (nonlinear_arith)
        requires
            q == n / d,
            r == n % d,
            d > 0,
    ;
    assert((q + 1) * d == q * d + d) by (nonlinear_arith);
    assert(r < d) by (nonlinear_arith)
        requires
            r == n % d,
            d > 0,
    ;
}

/// A size is said in the largest unit it fills, to the nearest tenth of it.
pub proof fn a_size_is_said_in_its_unit(bytes: nat) -> (tenths: nat)
    requires
        bytes < 0x20_0000_0000_0000,
    ensures
        bytes < 1024 ==> bytes_text(bytes) == decimal_of(bytes) + " B"@,
        1024 <= bytes < 1024 * 1024 ==> bytes_text(bytes) == tenths_text(tenths) + " KiB"@ && 2 * (
        tenths * 1024) <= 20 * bytes + 1024 && 20 * bytes <= 2 * (tenths * 1024) + 1024,
        1024 * 1024 <= bytes < 1024 * 1024 * 1024 ==> bytes_text(bytes) == tenths_text(tenths)
            + " MiB"@ && 2 * (tenths * 0x10_0000) <= 20 * bytes + 0x10_0000 && 20 * bytes <= 2 * (
        tenths * 0x10_0000) + 0x10_0000,
        1024 * 1024 * 1024 <= bytes < 0x100_0000_0000 ==> bytes_text(bytes) == tenths_text(tenths)
            + " GiB"@ && 2 * (tenths * 0x4000_0000) <= 20 * bytes + 0x4000_0000 && 20 * bytes <= 2
            * (tenths * 0x4000_0000) + 0x4000_0000,
        bytes >= 0x100_0000_0000 ==> bytes_text(bytes) == tenths_text(tenths) + " TiB"@ && 2 * (
        tenths * 0x100_0000_0000) <= 20 * bytes + 0x100_0000_0000 && 20 * bytes <= 2 * (tenths
            * 0x100_0000_0000) + 0x100_0000_0000,
{
    small_numbers_are_exact(bytes);
    let tenths = half_even(10 * bytes, unit_bytes(bytes));
    rounding_is_to_the_nearest(10 * bytes, unit_bytes(bytes));
    tenths
}

/// A count is exact as far as four digits go, then in thousands to the nearest.
pub proof fn a_count_is_said_compactly(value: nat) -> (thousands: nat)
    requires
        value <= 999_999,
    ensures
        value < 10_000 ==> compact_text(value) == decimal_of(value),
        value >= 10_000 ==> compact_text(value) == decimal_of(thousands) + "k"@,
        2 * (thousands * 1000) <= 2 * value + 1000,
        2 * value <= 2 * (thousands * 1000) + 1000,
{
    rounding_is_to_the_nearest(value, 1000);
    half_even(value, 1000)
}

/// Tenths are written as whole and decimal: ten of them are one.
pub proof fn tenths_are_written_with_one_decimal(whole: nat, tenth: nat)
    requires
        tenth < 10,
    ensures
        tenths_text(10 * whole + tenth) == decimal_of(whole) + seq!['.', digit(tenth as int)],
{
    assert((10 * whole + tenth) / 10 == whole);
    assert((10 * whole + tenth) % 10 == tenth);
    assert(decimal_of(whole).push('.').push(digit(tenth as int)) =~= decimal_of(whole) + seq![
        '.',
        digit(tenth as int),
    ]);
}

} // verus!
