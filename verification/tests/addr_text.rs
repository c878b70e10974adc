use raknet::net::{SocketAddr, SocketAddrV4, SocketAddrV6};
use raknet::server::error::RakRefusal;
use raknet::util::addr_text::put_addr_text;

fn text(addr: SocketAddr) -> String {
    let mut out = String::new();
    put_addr_text(&mut out, addr);
    out
}

fn v4(ip: u32, port: u16) -> String {
    text(SocketAddr::V4(SocketAddrV4 { ip, port }))
}

fn v6(ip: u128, port: u16, scope_id: u32) -> String {
    text(SocketAddr::V6(SocketAddrV6 { ip, port, flowinfo: 5, scope_id }))
}

#[test]
fn ipv4_addresses_are_told_in_decimal() {
    assert_eq!(v4(0, 0), "0.0.0.0:0");
    assert_eq!(v4(0x7f00_0001, 19132), "127.0.0.1:19132");
    assert_eq!(v4(0xffff_ffff, 65535), "255.255.255.255:65535");
    assert_eq!(v4(0x0a64_090a, 10), "10.100.9.10:10");
}

#[test]
fn ipv6_addresses_are_told_in_hexadecimal() {
    assert_eq!(v6(0, 1, 0), "[::]:1");
    assert_eq!(v6(1, 1, 0), "[::1]:1");
    assert_eq!(v6(1 << 112, 1, 0), "[1::]:1");
    assert_eq!(
        v6(0x2001_0db8_0000_0000_0001_0000_0000_0001, 443, 0),
        "[2001:db8::1:0:0:1]:443"
    );
    assert_eq!(
        v6(0x2001_0db8_0000_0001_0000_0000_0000_0001, 443, 0),
        "[2001:db8:0:1::1]:443"
    );
    assert_eq!(
        v6(0x0001_0002_0003_0004_0005_0006_0000_0008, 443, 0),
        "[1:2:3:4:5:6:0:8]:443"
    );
    assert_eq!(
        v6(0xfe80_0000_0000_0000_abcd_0ef0_000a_ffff, 9, 7),
        "[fe80::abcd:ef0:a:ffff%7]:9"
    );
    assert_eq!(v6(0xffff_c0a8_0001, 1, 0), "[::ffff:192.168.0.1]:1");
    assert_eq!(v6(0xc0a8_0001, 1, 0), "[::c0a8:1]:1");
}

#[test]
fn refusals_say_why() {
    let addr = SocketAddr::V6(SocketAddrV6 { ip: 1, port: 2, flowinfo: 0, scope_id: 0 });
    assert_eq!(
        RakRefusal::PortMismatch(addr).text(),
        "refusing connection from [::1]:2 due to port mismatch"
    );
    assert_eq!(
        RakRefusal::InvalidMtu(addr).text(),
        "refusing connection from [::1]:2 due to invalid mtu size"
    );
}
