//! What can be read from the text of an address.

use crate::net::{SocketAddr, SocketAddrV4, SocketAddrV6};
use crate::util::addr_text::{
    addr_text, decimal, digit, hexadecimal, most_zeros, parts_text, put_addr_text, v4_text,
    v6_parts, v6_text, zeros_from,
};
use vstd::prelude::*;

verus! {

/// The number that a character stands for.
pub open spec fn worth(c: char) -> int {
    if '0' <= c <= '9' {
        c as int - '0' as int
    } else {
        10 + c as int - 'a' as int
    }
}

/// The number that digits stand for, in a base.
pub open spec fn number(digits: Seq<char>, base: int) -> int
    decreases digits.len(),
{
    if digits.len() == 0 {
        0
    } else {
        number(digits.drop_last(), base) * base + worth(digits.last())
    }
}

/// Every digit stands for its number: the first ten from `0` on, the others from `a` on.
pub proof fn digits_stand_for_numbers(d: int)
    requires
        0 <= d < 16,
    ensures
        worth(digit(d)) == d,
        d < 10 ==> '0' <= digit(d) <= '9',
        d >= 10 ==> 'a' <= digit(d) <= 'f',
{
}

/// A number in decimal reads as that number, and begins with no zero but where it is one.
pub proof fn decimal_reads_back(n: int)
    requires
        n >= 0,
    ensures
        number(decimal(n), 10) == n,
        decimal(n).len() >= 1,
        n > 0 ==> decimal(n)[0] != '0',
        forall|i: int| 0 <= i < decimal(n).len() ==> '0' <= #[trigger] decimal(n)[i] <= '9',
    decreases n,
{
    digits_stand_for_numbers(n % 10);
    if n < 10 {
        digits_stand_for_numbers(n);
        assert(decimal(n).drop_last() =~= Seq::<char>::empty());
        assert(number(Seq::<char>::empty(), 10) == 0);
        assert(decimal(n).last() == digit(n));
    } else {
        decimal_reads_back(n / 10);
        assert(decimal(n).drop_last() =~= decimal(n / 10));
        assert(decimal(n).last() == digit(n % 10));
    }
}

/// A number in hexadecimal reads as that number, and begins with no zero but where it is one.
pub proof fn hexadecimal_reads_back(n: int)
    requires
        n >= 0,
    ensures
        number(hexadecimal(n), 16) == n,
        hexadecimal(n).len() >= 1,
        n > 0 ==> hexadecimal(n)[0] != '0',
        forall|i: int|
            0 <= i < hexadecimal(n).len() ==> '0' <= #[trigger] hexadecimal(n)[i] <= '9' || 'a'
                <= hexadecimal(n)[i] <= 'f',
    decreases n,
{
    digits_stand_for_numbers(n % 16);
    if n < 16 {
        digits_stand_for_numbers(n);
        assert(hexadecimal(n).drop_last() =~= Seq::<char>::empty());
        assert(number(Seq::<char>::empty(), 16) == 0);
        assert(hexadecimal(n).last() == digit(n));
    } else {
        hexadecimal_reads_back(n / 16);
        assert(hexadecimal(n).drop_last() =~= hexadecimal(n / 16));
        assert(hexadecimal(n).last() == digit(n % 16));
    }
}

/// The four parts of a number.
proof fn four_parts(a: int, b: int, c: int, d: int)
    requires
        0 <= a < 0x100,
        0 <= b < 0x100,
        0 <= c < 0x100,
        0 <= d < 0x100,
    ensures
        ({
            let ip = a * 0x100_0000 + b * 0x1_0000 + c * 0x100 + d;
            &&& ip / 0x100_0000 == a
            &&& ip / 0x1_0000 % 0x100 == b
            &&& ip / 0x100 % 0x100 == c
            &&& ip % 0x100 == d
        }),
{
    let ip = a * 0x100_0000 + b * 0x1_0000 + c * 0x100 + d;
    assert(ip / 0x100 == a * 0x1_0000 + b * 0x100 + c);
    assert(ip / 0x1_0000 == a * 0x100 + b);
}

/// The text of an IPv4 address has its four parts, which make up the address.
pub proof fn four_parts_make_up_an_address(a: u8, b: u8, c: u8, d: u8)
    ensures
        v4_text(a * 0x100_0000 + b * 0x1_0000 + c * 0x100 + d) == decimal(a as int) + seq!['.']
            + decimal(b as int) + seq!['.'] + decimal(c as int) + seq!['.'] + decimal(d as int),
{
    let ip = a * 0x100_0000 + b * 0x1_0000 + c * 0x100 + d;
    four_parts(a as int, b as int, c as int, d as int);
    assert(v4_text(ip) =~= decimal(a as int) + seq!['.'] + decimal(b as int) + seq!['.'] + decimal(
        c as int,
    ) + seq!['.'] + decimal(d as int));
}

/// The number that sixteen-bit parts make up, the highest first.
pub open spec fn made_up(parts: Seq<int>) -> int
    decreases parts.len(),
{
    if parts.len() == 0 {
        0
    } else {
        made_up(parts.drop_last()) * 0x1_0000 + parts.last()
    }
}

/// One part more.
proof fn one_more(parts: Seq<int>, part: int)
    ensures
        made_up(parts.push(part)) == made_up(parts) * 0x1_0000 + part,
{
    assert(parts.push(part).drop_last() =~= parts);
}

/// Four parts more.
proof fn four_more(parts: Seq<int>, n: int)
    requires
        0 <= n < 0x1_0000_0000_0000_0000,
    ensures
        made_up(
            parts.push(n / 0x1_0000_0000_0000).push(n / 0x1_0000_0000 % 0x1_0000).push(
                n / 0x1_0000 % 0x1_0000,
            ).push(n % 0x1_0000),
        ) == made_up(parts) * 0x1_0000_0000_0000_0000 + n,
{
    let (a, b, c, d) = (
        n / 0x1_0000_0000_0000,
        n / 0x1_0000_0000 % 0x1_0000,
        n / 0x1_0000 % 0x1_0000,
        n % 0x1_0000,
    );
    one_more(parts, a);
    one_more(parts.push(a), b);
    one_more(parts.push(a).push(b), c);
    one_more(parts.push(a).push(b).push(c), d);
    assert(n / 0x1_0000_0000_0000 == n / 0x1_0000_0000 / 0x1_0000);
    assert(n / 0x1_0000_0000 == n / 0x1_0000 / 0x1_0000);
}

/// A part of the lower half.
proof fn lower(high: int, low: int, by: int, more: int)
    requires
        0 <= low,
        by == 0x1_0000_0000_0000 && more == 1 || by == 0x1_0000_0000 && more == 0x1_0000 || by
            == 0x1_0000 && more == 0x1_0000_0000,
    ensures
        (high * 0x1_0000_0000_0000_0000 + low) / by % 0x1_0000 == low / by % 0x1_0000,
{
    let rest = low / by;
    if more == 1 {
        assert((high * 0x1_0000_0000_0000_0000 + low) / 0x1_0000_0000_0000 == high * 0x1_0000 + low
            / 0x1_0000_0000_0000);
    } else if more == 0x1_0000 {
        assert((high * 0x1_0000_0000_0000_0000 + low) / 0x1_0000_0000 == high * 0x1_0000_0000 + low
            / 0x1_0000_0000);
    } else {
        assert((high * 0x1_0000_0000_0000_0000 + low) / 0x1_0000 == high * 0x1_0000_0000_0000 + low
            / 0x1_0000);
    }
    vstd::arithmetic::div_mod::lemma_mod_multiples_vanish(high * more, rest, 0x1_0000);
    assert(0x1_0000 * (high * more) == high * (0x1_0000 * more)) by (nonlinear_arith);
}

/// The parts of two halves.
proof fn halves(high: int, low: int)
    requires
        0 <= high < 0x1_0000_0000_0000_0000,
        0 <= low < 0x1_0000_0000_0000_0000,
    ensures
        ({
            let n = high * 0x1_0000_0000_0000_0000 + low;
            &&& n / 0x1_0000_0000_0000_0000_0000_0000_0000 == high / 0x1_0000_0000_0000
            &&& n / 0x1_0000_0000_0000_0000_0000_0000 % 0x1_0000 == high / 0x1_0000_0000 % 0x1_0000
            &&& n / 0x1_0000_0000_0000_0000_0000 % 0x1_0000 == high / 0x1_0000 % 0x1_0000
            &&& n / 0x1_0000_0000_0000_0000 % 0x1_0000 == high % 0x1_0000
            &&& n / 0x1_0000_0000_0000 % 0x1_0000 == low / 0x1_0000_0000_0000
            &&& n / 0x1_0000_0000 % 0x1_0000 == low / 0x1_0000_0000 % 0x1_0000
            &&& n / 0x1_0000 % 0x1_0000 == low / 0x1_0000 % 0x1_0000
            &&& n % 0x1_0000 == low % 0x1_0000
        }),
{
    let n = high * 0x1_0000_0000_0000_0000 + low;
    assert(n / 0x1_0000_0000_0000_0000 == high);
    vstd::arithmetic::div_mod::lemma_div_denominator(n, 0x1_0000_0000_0000_0000, 0x1_0000);
    vstd::arithmetic::div_mod::lemma_div_denominator(n, 0x1_0000_0000_0000_0000, 0x1_0000_0000);
    vstd::arithmetic::div_mod::lemma_div_denominator(
        n,
        0x1_0000_0000_0000_0000,
        0x1_0000_0000_0000,
    );
    lower(high, low, 0x1_0000_0000_0000, 1);
    lower(high, low, 0x1_0000_0000, 0x1_0000);
    lower(high, low, 0x1_0000, 0x1_0000_0000);
    assert(n % 0x1_0000 == low % 0x1_0000);
    assert(low / 0x1_0000_0000_0000 < 0x1_0000);
}

/// The eight parts of an IPv6 address make up the address.
pub proof fn eight_parts_make_up_an_address(ip: u128)
    ensures
        v6_parts(ip as int).len() == 8,
        forall|i: int| 0 <= i < 8 ==> 0 <= #[trigger] v6_parts(ip as int)[i] < 0x1_0000,
        made_up(v6_parts(ip as int)) == ip,
{
    let n = ip as int;
    let p = v6_parts(n);
    let high = n / 0x1_0000_0000_0000_0000;
    let low = n % 0x1_0000_0000_0000_0000;
    let upper = seq![
        high / 0x1_0000_0000_0000,
        high / 0x1_0000_0000 % 0x1_0000,
        high / 0x1_0000 % 0x1_0000,
        high % 0x1_0000,
    ];
    assert(made_up(Seq::<int>::empty()) == 0);
    halves(high, low);
    assert(p[0] == upper[0] && p[1] == upper[1] && p[2] == upper[2] && p[3] == upper[3]);
    four_more(Seq::<int>::empty(), high);
    assert(Seq::<int>::empty().push(upper[0]).push(upper[1]).push(upper[2]).push(upper[3])
        =~= upper);
    four_more(upper, low);
    assert(upper.push(p[4]).push(p[5]).push(p[6]).push(p[7]) =~= p);
}

/// Zeros that stand one after the other are counted up to the first part that is none.
pub proof fn zeros_are_counted(parts: Seq<int>, i: int)
    requires
        0 <= i <= parts.len(),
    ensures
        0 <= zeros_from(parts, i) <= parts.len() - i,
        forall|j: int| i <= j < i + zeros_from(parts, i) ==> #[trigger] parts[j] == 0,
        i + zeros_from(parts, i) < parts.len() ==> parts[i + zeros_from(parts, i)] != 0,
    decreases parts.len() - i,
{
    if i < parts.len() && parts[i] == 0 {
        zeros_are_counted(parts, i + 1);
    }
}

/// No zeros in a row are more than those that are left out, and none before them as many.
pub proof fn most_zeros_are_found(parts: Seq<int>, n: int, i: int)
    requires
        0 <= i < n,
    ensures
        0 <= most_zeros(parts, n) < n,
        zeros_from(parts, i) <= zeros_from(parts, most_zeros(parts, n)),
        i < most_zeros(parts, n) ==> zeros_from(parts, i) < zeros_from(parts, most_zeros(parts, n)),
    decreases n,
{
    if n > 1 {
        if i < n - 1 {
            most_zeros_are_found(parts, n - 1, i);
        } else {
            most_zeros_are_found(parts, n - 1, 0);
        }
    }
}

/// Parts are told one after the other, with a colon between two of them.
pub proof fn parts_are_told_in_order(parts: Seq<int>, from: int, to: int)
    ensures
        from >= to ==> parts_text(parts, from, to).len() == 0,
        parts_text(parts, from, from + 1) == hexadecimal(parts[from]),
        from + 1 < to ==> parts_text(parts, from, to) == hexadecimal(parts[from]) + seq![':']
            + parts_text(parts, from + 1, to),
    decreases to - from,
{
    if from + 2 == to {
        assert(parts_text(parts, from, from + 1) == hexadecimal(parts[from]));
        assert(parts_text(parts, from + 1, to) == hexadecimal(parts[to - 1]));
        assert(parts_text(parts, from, to) =~= hexadecimal(parts[from]) + seq![':'] + parts_text(
            parts,
            from + 1,
            to,
        ));
    } else if from + 2 < to {
        parts_are_told_in_order(parts, from, to - 1);
        assert(parts_text(parts, from, to) =~= hexadecimal(parts[from]) + seq![':'] + parts_text(
            parts,
            from + 1,
            to,
        ));
    }
}

/// The text of an IPv6 address: that of an IPv4 address, where it stands for one; else its eight
/// parts, but for zeros in a row, of which there are two or more.
pub proof fn ipv6_addresses_are_told(ip: u128, v4: u32)
    ensures
        v6_text(0xffff_0000_0000 + v4) == seq![':', ':', 'f', 'f', 'f', 'f', ':'] + v4_text(
            v4 as int,
        ),
        ip / 0x1_0000_0000 != 0xffff ==> ({
            let parts = v6_parts(ip as int);
            let start = most_zeros(parts, 8);
            let zeros = zeros_from(parts, start);
            &&& zeros >= 2 ==> v6_text(ip as int) == parts_text(parts, 0, start) + seq![':', ':']
                + parts_text(parts, start + zeros, 8)
            &&& zeros < 2 ==> v6_text(ip as int) == parts_text(parts, 0, 8)
        }),
{
    reveal_strlit("::ffff:");
    reveal_strlit("::");
    assert("::ffff:"@ =~= seq![':', ':', 'f', 'f', 'f', 'f', ':']);
    assert("::"@ =~= seq![':', ':']);
    let mapped = 0xffff_0000_0000 + v4;
    assert(mapped / 0x1_0000_0000 == 0xffff && mapped % 0x1_0000_0000 == v4);
}

/// The text of an address ends with its port, behind a colon.
pub proof fn ports_come_last(v4: SocketAddrV4, v6: SocketAddrV6)
    ensures
        addr_text(SocketAddr::V4(v4)) == v4_text(v4.ip as int) + seq![':'] + decimal(v4.port as int),
        v6.scope_id == 0 ==> addr_text(SocketAddr::V6(v6)) == seq!['['] + v6_text(v6.ip as int)
            + seq![']', ':'] + decimal(v6.port as int),
        v6.scope_id != 0 ==> addr_text(SocketAddr::V6(v6)) == seq!['['] + v6_text(v6.ip as int)
            + seq!['%'] + decimal(v6.scope_id as int) + seq![']', ':'] + decimal(v6.port as int),
{
    reveal_strlit("]:");
    assert("]:"@ =~= seq![']', ':']);
    assert(addr_text(SocketAddr::V4(v4)) =~= v4_text(v4.ip as int) + seq![':'] + decimal(
        v4.port as int,
    ));
    if v6.scope_id != 0 {
        assert(addr_text(SocketAddr::V6(v6)) =~= seq!['['] + v6_text(v6.ip as int) + seq!['%']
            + decimal(v6.scope_id as int) + seq![']', ':'] + decimal(v6.port as int));
    }
}

/// The text of an address is added behind what is there.
pub proof fn addresses_are_added(out: &mut String, addr: SocketAddr)
    requires
        call_ensures(put_addr_text, (out, addr), ()),
    ensures
        final(out)@ == old(out)@ + addr_text(addr),
{
}

} // verus!
