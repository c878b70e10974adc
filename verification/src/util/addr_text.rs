//! Addresses as text.

use crate::net::SocketAddr;
use vstd::prelude::*;
use vstd::string::StringExecFns;

verus! {

/// The character of a digit below sixteen.
pub open spec fn digit(d: int) -> char {
    seq!['0', '1', '2', '3', '4', '5', '6', '7', '8', '9', 'a', 'b', 'c', 'd', 'e', 'f'][d]
}

/// A number in decimal, without leading zeros.
pub open spec fn decimal(n: int) -> Seq<char>
    decreases n,
{
    if n < 10 {
        seq![digit(n)]
    } else {
        decimal(n / 10).push(digit(n % 10))
    }
}

/// A number in hexadecimal, without leading zeros.
pub open spec fn hexadecimal(n: int) -> Seq<char>
    decreases n,
{
    if n < 16 {
        seq![digit(n)]
    } else {
        hexadecimal(n / 16).push(digit(n % 16))
    }
}

/// An IPv4 address: its four parts in decimal, with dots between them.
pub open spec fn v4_text(ip: int) -> Seq<char> {
    decimal(ip / 0x100_0000).push('.') + decimal(ip / 0x1_0000 % 0x100).push('.')
        + decimal(ip / 0x100 % 0x100).push('.') + decimal(ip % 0x100)
}

/// The eight parts of an IPv6 address, the highest first.
pub open spec fn v6_parts(ip: int) -> Seq<int> {
    seq![
        ip / 0x1_0000_0000_0000_0000_0000_0000_0000,
        ip / 0x1_0000_0000_0000_0000_0000_0000 % 0x1_0000,
        ip / 0x1_0000_0000_0000_0000_0000 % 0x1_0000,
        ip / 0x1_0000_0000_0000_0000 % 0x1_0000,
        ip / 0x1_0000_0000_0000 % 0x1_0000,
        ip / 0x1_0000_0000 % 0x1_0000,
        ip / 0x1_0000 % 0x1_0000,
        ip % 0x1_0000,
    ]
}

/// How many parts from the part `i` on are zero, one after the other.
pub open spec fn zeros_from(parts: Seq<int>, i: int) -> int
    decreases parts.len() - i,
{
    if 0 <= i < parts.len() && parts[i] == 0 {
        1 + zeros_from(parts, i + 1)
    } else {
        0
    }
}

/// Where most zeros stand one after the other, of the first `n` places to begin at; the first
/// such place.
pub open spec fn most_zeros(parts: Seq<int>, n: int) -> int
    decreases n,
{
    if n <= 1 {
        0
    } else {
        let best = most_zeros(parts, n - 1);
        if zeros_from(parts, n - 1) > zeros_from(parts, best) {
            n - 1
        } else {
            best
        }
    }
}

/// Parts from `from` up to `to` in hexadecimal, with colons between them.
pub open spec fn parts_text(parts: Seq<int>, from: int, to: int) -> Seq<char>
    decreases to - from,
{
    if from >= to {
        seq![]
    } else if from + 1 == to {
        hexadecimal(parts[from])
    } else {
        parts_text(parts, from, to - 1).push(':') + hexadecimal(parts[to - 1])
    }
}

/// An IPv6 address: its parts in hexadecimal, where the longest of several zeros in a row, and
/// the first of equally long ones, are left out. One that stands for an IPv4 address ends as
/// that.
pub open spec fn v6_text(ip: int) -> Seq<char> {
    let parts = v6_parts(ip);
    let start = most_zeros(parts, 8);
    let zeros = zeros_from(parts, start);
    if ip / 0x1_0000_0000 == 0xffff {
        "::ffff:"@ + v4_text(ip % 0x1_0000_0000)
    } else if zeros > 1 {
        parts_text(parts, 0, start) + "::"@ + parts_text(parts, start + zeros, 8)
    } else {
        parts_text(parts, 0, 8)
    }
}

/// An address and its port. An IPv6 address stands in brackets, with its scope if it has one.
pub open spec fn addr_text(addr: SocketAddr) -> Seq<char> {
    match addr {
        SocketAddr::V4(v4) => v4_text(v4.ip as int).push(':') + decimal(v4.port as int),
        SocketAddr::V6(v6) => if v6.scope_id == 0 {
            seq!['['] + v6_text(v6.ip as int) + "]:"@ + decimal(v6.port as int)
        } else {
            (seq!['['] + v6_text(v6.ip as int)).push('%') + decimal(v6.scope_id as int)
                + "]:"@ + decimal(v6.port as int)
        },
    }
}

/// Adds a digit to a text.
fn put_digit(out: &mut String, d: u32)
    requires
        d < 16,
    ensures
        final(out)@ == old(out)@.push(digit(d as int)),
{
    proof {
        reveal_strlit("0");
        reveal_strlit("1");
        reveal_strlit("2");
        reveal_strlit("3");
        reveal_strlit("4");
        reveal_strlit("5");
        reveal_strlit("6");
        reveal_strlit("7");
        reveal_strlit("8");
        reveal_strlit("9");
        reveal_strlit("a");
        reveal_strlit("b");
        reveal_strlit("c");
        reveal_strlit("d");
        reveal_strlit("e");
        reveal_strlit("f");
    }
    let text: &str = match d {
        0 => "0",
        1 => "1",
        2 => "2",
        3 => "3",
        4 => "4",
        5 => "5",
        6 => "6",
        7 => "7",
        8 => "8",
        9 => "9",
        10 => "a",
        11 => "b",
        12 => "c",
        13 => "d",
        14 => "e",
        _ => "f",
    };
    out.append(text);
    assert(text@ =~= seq![digit(d as int)]);
    assert(out@ =~= old(out)@.push(digit(d as int)));
}

/// Adds a number in decimal to a text.
fn put_decimal(out: &mut String, n: u32)
    ensures
        final(out)@ == old(out)@ + decimal(n as int),
    decreases n,
{
    if n >= 10 {
        put_decimal(out, n / 10);
        put_digit(out, n % 10);
    } else {
        put_digit(out, n);
    }
    assert(out@ =~= old(out)@ + decimal(n as int));
}

/// Adds a number in hexadecimal to a text.
fn put_hexadecimal(out: &mut String, n: u32)
    ensures
        final(out)@ == old(out)@ + hexadecimal(n as int),
    decreases n,
{
    if n >= 16 {
        put_hexadecimal(out, n / 16);
        put_digit(out, n % 16);
    } else {
        put_digit(out, n);
    }
    assert(out@ =~= old(out)@ + hexadecimal(n as int));
}

/// Adds an IPv4 address to a text.
fn put_v4(out: &mut String, ip: u32)
    ensures
        final(out)@ == old(out)@ + v4_text(ip as int),
{
    proof {
        reveal_strlit(".");
    }
    assert("."@ =~= seq!['.']);
    put_decimal(out, ip / 0x100_0000);
    out.append(".");
    put_decimal(out, ip / 0x1_0000 % 0x100);
    out.append(".");
    put_decimal(out, ip / 0x100 % 0x100);
    out.append(".");
    put_decimal(out, ip % 0x100);
    assert(out@ =~= old(out)@ + v4_text(ip as int));
}

/// The values of a list of parts.
spec fn plain(parts: Seq<u16>) -> Seq<int> {
    parts.map_values(|p: u16| p as int)
}

/// The eight parts of an IPv6 address, the highest first.
fn parts_of(ip: u128) -> (parts: Vec<u16>)
    ensures
        plain(parts@) == v6_parts(ip as int),
{
    let parts: Vec<u16> = vec![
        (ip / 0x1_0000_0000_0000_0000_0000_0000_0000) as u16,
        (ip / 0x1_0000_0000_0000_0000_0000_0000 % 0x1_0000) as u16,
        (ip / 0x1_0000_0000_0000_0000_0000 % 0x1_0000) as u16,
        (ip / 0x1_0000_0000_0000_0000 % 0x1_0000) as u16,
        (ip / 0x1_0000_0000_0000 % 0x1_0000) as u16,
        (ip / 0x1_0000_0000 % 0x1_0000) as u16,
        (ip / 0x1_0000 % 0x1_0000) as u16,
        (ip % 0x1_0000) as u16,
    ];
    assert(plain(parts@) =~= v6_parts(ip as int));
    parts
}

/// How many parts from the part `i` on are zero, one after the other.
fn count_zeros(parts: &Vec<u16>, i: usize) -> (n: usize)
    ensures
        n == zeros_from(plain(parts@), i as int),
        i <= parts@.len() ==> i + n <= parts@.len(),
    decreases parts@.len() - i,
{
    if i < parts.len() && parts[i] == 0 {
        assert(plain(parts@)[i as int] == 0);
        1 + count_zeros(parts, i + 1)
    } else {
        assert(i < parts@.len() ==> plain(parts@)[i as int] != 0);
        0
    }
}

/// Where most zeros stand one after the other; the first such place.
fn find_zeros(parts: &Vec<u16>) -> (start: usize)
    requires
        parts@.len() == 8,
    ensures
        start == most_zeros(plain(parts@), 8),
        start < 8,
{
    let mut start: usize = 0;
    let mut n: usize = 1;
    while n < 8
        invariant
            1 <= n <= 8,
            start < n,
            parts@.len() == 8,
            start == most_zeros(plain(parts@), n as int),
        decreases 8 - n,
    {
        if count_zeros(parts, n) > count_zeros(parts, start) {
            start = n;
        }
        n = n + 1;
    }
    start
}

/// Adds parts from `from` up to `to` to a text.
fn put_parts(out: &mut String, parts: &Vec<u16>, from: usize, to: usize)
    requires
        to <= parts@.len(),
    ensures
        final(out)@ == old(out)@ + parts_text(plain(parts@), from as int, to as int),
    decreases to - from,
{
    proof {
        reveal_strlit(":");
    }
    assert(":"@ =~= seq![':']);
    if from < to {
        if from + 1 < to {
            put_parts(out, parts, from, to - 1);
            out.append(":");
        }
        put_hexadecimal(out, parts[to - 1] as u32);
    }
    assert(out@ =~= old(out)@ + parts_text(plain(parts@), from as int, to as int));
}

/// Adds an IPv6 address to a text.
fn put_v6(out: &mut String, ip: u128)
    ensures
        final(out)@ == old(out)@ + v6_text(ip as int),
{
    let parts: Vec<u16> = parts_of(ip);
    assert(parts@.len() == plain(parts@).len());
    let start: usize = find_zeros(&parts);
    let zeros: usize = count_zeros(&parts, start);
    if ip / 0x1_0000_0000 == 0xffff {
        out.append("::ffff:");
        put_v4(out, (ip % 0x1_0000_0000) as u32);
    } else if zeros > 1 {
        put_parts(out, &parts, 0, start);
        out.append("::");
        put_parts(out, &parts, start + zeros, 8);
    } else {
        put_parts(out, &parts, 0, 8);
    }
    assert(out@ =~= old(out)@ + v6_text(ip as int));
}

/// Adds an address and its port to a text.
pub fn put_addr_text(out: &mut String, addr: SocketAddr)
    ensures
        final(out)@ == old(out)@ + addr_text(addr),
{
    proof {
        reveal_strlit(":");
        reveal_strlit("[");
        reveal_strlit("%");
    }
    assert(":"@ =~= seq![':']);
    assert("["@ =~= seq!['[']);
    assert("%"@ =~= seq!['%']);
    match addr {
        SocketAddr::V4(v4) => {
            put_v4(out, v4.ip);
            out.append(":");
            put_decimal(out, v4.port as u32);
        },
        SocketAddr::V6(v6) => {
            out.append("[");
            put_v6(out, v6.ip);
            if v6.scope_id != 0 {
                out.append("%");
                put_decimal(out, v6.scope_id);
            }
            out.append("]:");
            put_decimal(out, v6.port as u32);
        },
    }
    assert(out@ =~= old(out)@ + addr_text(addr));
}

} // verus!
