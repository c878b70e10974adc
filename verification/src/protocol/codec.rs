//! How numbers and addresses are written in a datagram: big-endian, one after another.

use crate::net::{SocketAddr, SocketAddrV4, SocketAddrV6};
use vstd::prelude::*;

verus! {

/// Why bytes are not a packet, or a packet has no bytes.
#[derive(Clone, Copy, Debug, PartialEq, Eq, Structural)]
pub enum RakCodecError {
    /// The bytes end before the packet does.
    UnexpectedEnd,
    /// An offline packet does not carry the offline magic.
    InvalidMagic,
    /// An address is neither of version 4 nor of version 6.
    InvalidAddress,
    /// Something is longer than its length field can tell.
    TooLong,
}

/// The bytes that mark a packet sent outside of a session.
pub const MAGIC: [u8; 16] = [
    0x00, 0xff, 0xff, 0x00, 0xfe, 0xfe, 0xfe, 0xfe, 0xfd, 0xfd, 0xfd, 0xfd, 0x12, 0x34, 0x56, 0x78,
];

/// The two bytes of `x`.
#[verifier::opaque]
pub open spec fn u16_bytes(x: u16) -> Seq<u8> {
    seq![(x / 0x100) as u8, (x % 0x100) as u8]
}

/// The four bytes of `x`.
#[verifier::opaque]
pub open spec fn u32_bytes(x: u32) -> Seq<u8> {
    u16_bytes((x / 0x1_0000) as u16) + u16_bytes((x % 0x1_0000) as u16)
}

/// The eight bytes of `x`.
#[verifier::opaque]
pub open spec fn u64_bytes(x: u64) -> Seq<u8> {
    u32_bytes((x / 0x1_0000_0000) as u32) + u32_bytes((x % 0x1_0000_0000) as u32)
}

/// The sixteen bytes of `x`.
#[verifier::opaque]
pub open spec fn u128_bytes(x: u128) -> Seq<u8> {
    u64_bytes((x / 0x1_0000_0000_0000_0000) as u64) + u64_bytes(
        (x % 0x1_0000_0000_0000_0000) as u64,
    )
}

/// How many bytes numbers take.
pub broadcast proof fn u16_takes_two(x: u16)
    ensures
        (#[trigger] u16_bytes(x)).len() == 2,
{
    reveal(u16_bytes);
}

pub broadcast proof fn u32_takes_four(x: u32)
    ensures
        (#[trigger] u32_bytes(x)).len() == 4,
{
    reveal(u32_bytes);
    broadcast use u16_takes_two;

}

pub broadcast proof fn u64_takes_eight(x: u64)
    ensures
        (#[trigger] u64_bytes(x)).len() == 8,
{
    reveal(u64_bytes);
    broadcast use u32_takes_four;

}

pub broadcast proof fn u128_takes_sixteen(x: u128)
    ensures
        (#[trigger] u128_bytes(x)).len() == 16,
{
    reveal(u128_bytes);
    broadcast use u64_takes_eight;

}

pub broadcast group group_lengths {
    u16_takes_two,
    u32_takes_four,
    u64_takes_eight,
    u128_takes_sixteen,
}

/// The bits of `x` as an unsigned number.
pub open spec fn i32_bits(x: i32) -> u32 {
    if x < 0 {
        (x + 0x1_0000_0000) as u32
    } else {
        x as u32
    }
}

/// The byte of a flag.
pub open spec fn bool_bytes(b: bool) -> Seq<u8> {
    seq![if b { 1u8 } else { 0u8 }]
}

/// The number in the two bytes of `s` from `at` on.
#[verifier::opaque]
pub open spec fn u16_at(s: Seq<u8>, at: int) -> u16 {
    (s[at] * 0x100 + s[at + 1]) as u16
}

/// The number in the four bytes of `s` from `at` on.
#[verifier::opaque]
pub open spec fn u32_at(s: Seq<u8>, at: int) -> u32 {
    (u16_at(s, at) * 0x1_0000 + u16_at(s, at + 2)) as u32
}

/// The number in the eight bytes of `s` from `at` on.
#[verifier::opaque]
pub open spec fn u64_at(s: Seq<u8>, at: int) -> u64 {
    (u32_at(s, at) * 0x1_0000_0000 + u32_at(s, at + 4)) as u64
}

/// The number in the sixteen bytes of `s` from `at` on.
#[verifier::opaque]
pub open spec fn u128_at(s: Seq<u8>, at: int) -> u128 {
    (u64_at(s, at) * 0x1_0000_0000_0000_0000 + u64_at(s, at + 8)) as u128
}

/// The signed number in the four bytes of `s` from `at` on.
pub open spec fn i32_at(s: Seq<u8>, at: int) -> i32 {
    let bits = u32_at(s, at);
    if bits < 0x8000_0000 {
        bits as i32
    } else {
        (bits - 0x1_0000_0000) as i32
    }
}

/// Whether `part` stands in `s` from `at` on.
pub open spec fn stands_at(s: Seq<u8>, at: int, part: Seq<u8>) -> bool {
    0 <= at && at + part.len() <= s.len() && s.subrange(at, at + part.len()) == part
}

/// The bytes of an address: its version, then, for version 4, the four parts with every bit
/// turned over and the port; for version 6, the family, the port, the flow, the address and
/// the scope.
pub open spec fn addr_bytes(addr: SocketAddr) -> Seq<u8> {
    match addr {
        SocketAddr::V4(v4) => seq![4u8] + u32_bytes((0xffff_ffff - v4.ip) as u32) + u16_bytes(
            v4.port,
        ),
        SocketAddr::V6(v6) => seq![6u8, 0x17u8, 0u8] + u16_bytes(v6.port) + u32_bytes(v6.flowinfo)
            + u128_bytes(v6.ip) + u32_bytes(v6.scope_id),
    }
}

/// The address in the bytes of `s` from `at` on, with the number of bytes it takes.
pub open spec fn addr_at(s: Seq<u8>, at: int) -> Result<(SocketAddr, int), RakCodecError> {
    if at >= s.len() {
        Err(RakCodecError::UnexpectedEnd)
    } else if s[at] == 4 {
        if at + 7 > s.len() {
            Err(RakCodecError::UnexpectedEnd)
        } else {
            Ok(
                (
                    SocketAddr::V4(
                        SocketAddrV4 {
                            ip: (0xffff_ffff - u32_at(s, at + 1)) as u32,
                            port: u16_at(s, at + 5),
                        },
                    ),
                    7,
                ),
            )
        }
    } else if s[at] == 6 {
        if at + 29 > s.len() {
            Err(RakCodecError::UnexpectedEnd)
        } else {
            Ok(
                (
                    SocketAddr::V6(
                        SocketAddrV6 {
                            ip: u128_at(s, at + 9),
                            port: u16_at(s, at + 3),
                            flowinfo: u32_at(s, at + 5),
                            scope_id: u32_at(s, at + 25),
                        },
                    ),
                    29,
                ),
            )
        }
    } else {
        Err(RakCodecError::InvalidAddress)
    }
}

/// Writes a byte.
pub fn put_u8(out: &mut Vec<u8>, x: u8)
    ensures
        final(out)@ == old(out)@ + seq![x],
{
    out.push(x);
    assert(out@ =~= old(out)@ + seq![x]);
}

/// Writes a flag.
pub fn put_bool(out: &mut Vec<u8>, b: bool)
    ensures
        final(out)@ == old(out)@ + bool_bytes(b),
{
    put_u8(out, if b { 1 } else { 0 });
}

/// Writes two bytes.
pub fn put_u16(out: &mut Vec<u8>, x: u16)
    ensures
        final(out)@ == old(out)@ + u16_bytes(x),
{
    reveal(u16_bytes);
    out.push((x / 0x100) as u8);
    out.push((x % 0x100) as u8);
    assert(out@ =~= old(out)@ + u16_bytes(x));
}

/// Writes four bytes.
pub fn put_u32(out: &mut Vec<u8>, x: u32)
    ensures
        final(out)@ == old(out)@ + u32_bytes(x),
{
    reveal(u32_bytes);
    put_u16(out, (x / 0x1_0000) as u16);
    put_u16(out, (x % 0x1_0000) as u16);
    assert(out@ =~= old(out)@ + u32_bytes(x));
}

/// Writes eight bytes.
pub fn put_u64(out: &mut Vec<u8>, x: u64)
    ensures
        final(out)@ == old(out)@ + u64_bytes(x),
{
    reveal(u64_bytes);
    put_u32(out, (x / 0x1_0000_0000) as u32);
    put_u32(out, (x % 0x1_0000_0000) as u32);
    assert(out@ =~= old(out)@ + u64_bytes(x));
}

/// Writes sixteen bytes.
pub fn put_u128(out: &mut Vec<u8>, x: u128)
    ensures
        final(out)@ == old(out)@ + u128_bytes(x),
{
    reveal(u128_bytes);
    put_u64(out, (x / 0x1_0000_0000_0000_0000) as u64);
    put_u64(out, (x % 0x1_0000_0000_0000_0000) as u64);
    assert(out@ =~= old(out)@ + u128_bytes(x));
}

/// Writes the four bytes of a signed number.
pub fn put_i32(out: &mut Vec<u8>, x: i32)
    ensures
        final(out)@ == old(out)@ + u32_bytes(i32_bits(x)),
{
    if x < 0 {
        put_u32(out, (x as i64 + 0x1_0000_0000) as u32);
    } else {
        put_u32(out, x as u32);
    }
}

/// Writes the offline magic.
pub fn put_magic(out: &mut Vec<u8>)
    ensures
        final(out)@ == old(out)@ + MAGIC@,
{
    put_bytes(out, MAGIC.as_slice());
}

/// Writes bytes as they are.
pub fn put_bytes(out: &mut Vec<u8>, bytes: &[u8])
    ensures
        final(out)@ == old(out)@ + bytes@,
{
    let mut i: usize = 0;
    while i < bytes.len()
        invariant
            i <= bytes@.len(),
            out@ == old(out)@ + bytes@.take(i as int),
        decreases bytes@.len() - i,
    {
        out.push(bytes[i]);
        i = i + 1;
        assert(out@ =~= old(out)@ + bytes@.take(i as int));
    }
    assert(bytes@.take(i as int) =~= bytes@);
}

/// Writes an address.
pub fn put_addr(out: &mut Vec<u8>, addr: SocketAddr)
    ensures
        final(out)@ == old(out)@ + addr_bytes(addr),
{
    match addr {
        SocketAddr::V4(v4) => {
            put_u8(out, 4);
            put_u32(out, 0xffff_ffff - v4.ip);
            put_u16(out, v4.port);
        },
        SocketAddr::V6(v6) => {
            put_u8(out, 6);
            put_u8(out, 0x17);
            put_u8(out, 0);
            put_u16(out, v6.port);
            put_u32(out, v6.flowinfo);
            put_u128(out, v6.ip);
            put_u32(out, v6.scope_id);
        },
    }
    assert(out@ =~= old(out)@ + addr_bytes(addr));
}

/// Reads two bytes.
pub fn get_u16(buf: &[u8], at: usize) -> (x: u16)
    requires
        at + 2 <= buf.len(),
    ensures
        x == u16_at(buf@, at as int),
{
    reveal(u16_at);
    buf[at] as u16 * 0x100 + buf[at + 1] as u16
}

/// Reads four bytes.
pub fn get_u32(buf: &[u8], at: usize) -> (x: u32)
    requires
        at + 4 <= buf.len(),
    ensures
        x == u32_at(buf@, at as int),
{
    reveal(u32_at);
    get_u16(buf, at) as u32 * 0x1_0000 + get_u16(buf, at + 2) as u32
}

/// Reads eight bytes.
pub fn get_u64(buf: &[u8], at: usize) -> (x: u64)
    requires
        at + 8 <= buf.len(),
    ensures
        x == u64_at(buf@, at as int),
{
    reveal(u64_at);
    get_u32(buf, at) as u64 * 0x1_0000_0000 + get_u32(buf, at + 4) as u64
}

/// Reads sixteen bytes.
pub fn get_u128(buf: &[u8], at: usize) -> (x: u128)
    requires
        at + 16 <= buf.len(),
    ensures
        x == u128_at(buf@, at as int),
{
    reveal(u128_at);
    get_u64(buf, at) as u128 * 0x1_0000_0000_0000_0000 + get_u64(buf, at + 8) as u128
}

/// Reads the four bytes of a signed number.
pub fn get_i32(buf: &[u8], at: usize) -> (x: i32)
    requires
        at + 4 <= buf.len(),
    ensures
        x == i32_at(buf@, at as int),
{
    let bits: u32 = get_u32(buf, at);
    if bits < 0x8000_0000 {
        bits as i32
    } else {
        (bits as i64 - 0x1_0000_0000) as i32
    }
}

/// Whether the offline magic stands in `buf` from `at` on.
pub fn has_magic(buf: &[u8], at: usize) -> (b: bool)
    requires
        at + 16 <= buf.len(),
    ensures
        b == stands_at(buf@, at as int, MAGIC@),
{
    let mut i: usize = 0;
    while i < 16
        invariant
            i <= 16,
            at + 16 <= buf.len(),
            forall|j: int| 0 <= j < i ==> buf@[at + j] == #[trigger] MAGIC@[j],
        decreases 16 - i,
    {
        if buf[at + i] != MAGIC[i] {
            assert(buf@.subrange(at as int, at + 16)[i as int] != MAGIC@[i as int]);
            return false;
        }
        i = i + 1;
    }
    assert(buf@.subrange(at as int, at + 16) =~= MAGIC@);
    true
}

/// What keeps `s` from being an offline packet of at least `len` bytes with the magic at
/// `magic_at`, if anything does.
pub open spec fn offline_fault(s: Seq<u8>, len: int, magic_at: int) -> Option<RakCodecError> {
    if s.len() < len {
        Some(RakCodecError::UnexpectedEnd)
    } else if !stands_at(s, magic_at, MAGIC@) {
        Some(RakCodecError::InvalidMagic)
    } else {
        None
    }
}

/// Looks whether `buf` can be an offline packet of at least `len` bytes with the magic at
/// `magic_at`.
pub fn check_offline(buf: &[u8], len: usize, magic_at: usize) -> (fault: Option<RakCodecError>)
    requires
        magic_at + 16 <= len,
    ensures
        fault == offline_fault(buf@, len as int, magic_at as int),
{
    if buf.len() < len {
        Some(RakCodecError::UnexpectedEnd)
    } else if !has_magic(buf, magic_at) {
        Some(RakCodecError::InvalidMagic)
    } else {
        None
    }
}

/// Reads an address, and tells how many bytes it takes.
pub fn get_addr(buf: &[u8], at: usize) -> (r: Result<(SocketAddr, usize), RakCodecError>)
    requires
        at <= buf@.len(),
    ensures
        match r {
            Ok((addr, n)) => addr_at(buf@, at as int) == Ok::<(SocketAddr, int), RakCodecError>(
                (addr, n as int),
            ),
            Err(e) => addr_at(buf@, at as int) == Err::<(SocketAddr, int), RakCodecError>(e),
        },
{
    if at >= buf.len() {
        Err(RakCodecError::UnexpectedEnd)
    } else if buf[at] == 4 {
        if buf.len() - at < 7 {
            Err(RakCodecError::UnexpectedEnd)
        } else {
            let ip: u32 = 0xffff_ffff - get_u32(buf, at + 1);
            let port: u16 = get_u16(buf, at + 5);
            Ok((SocketAddr::V4(SocketAddrV4 { ip, port }), 7))
        }
    } else if buf[at] == 6 {
        if buf.len() - at < 29 {
            Err(RakCodecError::UnexpectedEnd)
        } else {
            let port: u16 = get_u16(buf, at + 3);
            let flowinfo: u32 = get_u32(buf, at + 5);
            let ip: u128 = get_u128(buf, at + 9);
            let scope_id: u32 = get_u32(buf, at + 25);
            Ok((SocketAddr::V6(SocketAddrV6 { ip, port, flowinfo, scope_id }), 29))
        }
    } else {
        Err(RakCodecError::InvalidAddress)
    }
}

/// A number is read back from where its two bytes stand.
pub proof fn u16_reads_back(s: Seq<u8>, at: int, x: u16)
    requires
        stands_at(s, at, u16_bytes(x)),
    ensures
        u16_at(s, at) == x,
{
    broadcast use group_lengths;

    reveal(u16_bytes);
    reveal(u16_at);
    let part = s.subrange(at, at + 2);
    assert(s[at] == part[0] && s[at + 1] == part[1]);
}

/// A number is read back from where its four bytes stand.
pub proof fn u32_reads_back(s: Seq<u8>, at: int, x: u32)
    requires
        stands_at(s, at, u32_bytes(x)),
    ensures
        u32_at(s, at) == x,
{
    broadcast use group_lengths;

    reveal(u32_bytes);
    reveal(u32_at);
    let high = (x / 0x1_0000) as u16;
    let low = (x % 0x1_0000) as u16;
    parts_stand(s, at, u16_bytes(high), u16_bytes(low));
    u16_reads_back(s, at, high);
    u16_reads_back(s, at + 2, low);
}

/// A number is read back from where its eight bytes stand.
pub proof fn u64_reads_back(s: Seq<u8>, at: int, x: u64)
    requires
        stands_at(s, at, u64_bytes(x)),
    ensures
        u64_at(s, at) == x,
{
    broadcast use group_lengths;

    reveal(u64_bytes);
    reveal(u64_at);
    let high = (x / 0x1_0000_0000) as u32;
    let low = (x % 0x1_0000_0000) as u32;
    parts_stand(s, at, u32_bytes(high), u32_bytes(low));
    u32_reads_back(s, at, high);
    u32_reads_back(s, at + 4, low);
}

/// A number is read back from where its sixteen bytes stand.
pub proof fn u128_reads_back(s: Seq<u8>, at: int, x: u128)
    requires
        stands_at(s, at, u128_bytes(x)),
    ensures
        u128_at(s, at) == x,
{
    broadcast use group_lengths;

    reveal(u128_bytes);
    reveal(u128_at);
    let high = (x / 0x1_0000_0000_0000_0000) as u64;
    let low = (x % 0x1_0000_0000_0000_0000) as u64;
    parts_stand(s, at, u64_bytes(high), u64_bytes(low));
    u64_reads_back(s, at, high);
    u64_reads_back(s, at + 8, low);
}

/// A signed number is read back from where its four bytes stand.
pub proof fn i32_reads_back(s: Seq<u8>, at: int, x: i32)
    requires
        stands_at(s, at, u32_bytes(i32_bits(x))),
    ensures
        i32_at(s, at) == x,
{
    u32_reads_back(s, at, i32_bits(x));
}

/// An address is read back from where its bytes stand.
pub proof fn addr_reads_back(s: Seq<u8>, at: int, addr: SocketAddr)
    requires
        stands_at(s, at, addr_bytes(addr)),
    ensures
        addr_at(s, at) == Ok::<(SocketAddr, int), RakCodecError>(
            (addr, addr_bytes(addr).len() as int),
        ),
{
    broadcast use group_lengths;

    let whole = addr_bytes(addr);
    let part = s.subrange(at, at + whole.len());
    assert(s[at] == part[0]);
    match addr {
        SocketAddr::V4(v4) => {
            let ip = u32_bytes((0xffff_ffff - v4.ip) as u32);
            let port = u16_bytes(v4.port);
            parts_stand(s, at, seq![4u8] + ip, port);
            parts_stand(s, at, seq![4u8], ip);
            u32_reads_back(s, at + 1, (0xffff_ffff - v4.ip) as u32);
            u16_reads_back(s, at + 5, v4.port);
        },
        SocketAddr::V6(v6) => {
            let head = seq![6u8, 0x17u8, 0u8];
            let port = u16_bytes(v6.port);
            let flow = u32_bytes(v6.flowinfo);
            let ip = u128_bytes(v6.ip);
            let scope = u32_bytes(v6.scope_id);
            parts_stand(s, at, head + port + flow + ip, scope);
            parts_stand(s, at, head + port + flow, ip);
            parts_stand(s, at, head + port, flow);
            parts_stand(s, at, head, port);
            u16_reads_back(s, at + 3, v6.port);
            u32_reads_back(s, at + 5, v6.flowinfo);
            u128_reads_back(s, at + 9, v6.ip);
            u32_reads_back(s, at + 25, v6.scope_id);
        },
    }
}

/// Where two parts stand one behind the other, each stands where it starts.
pub proof fn parts_stand(s: Seq<u8>, at: int, first: Seq<u8>, second: Seq<u8>)
    requires
        stands_at(s, at, first + second),
    ensures
        stands_at(s, at, first),
        stands_at(s, at + first.len(), second),
{
    let both = first + second;
    let part = s.subrange(at, at + both.len());
    assert forall|i: int| 0 <= i < both.len() implies s[at + i] == both[i] by {
        assert(part[i] == both[i]);
    }
    assert(s.subrange(at, at + first.len()) =~= first);
    assert forall|i: int| 0 <= i < second.len() implies s[at + first.len() + i] == second[i] by {
        assert(s[at + (first.len() + i)] == both[first.len() + i]);
    }
    assert(s.subrange(at + first.len(), at + both.len()) =~= second);
}

} // verus!
