use gping::address::{choose_address, AddrPreference, HostAddr, ResolveError};
use gping::command::split_command;
use gping::trace::{select_hops, TraceFormat, TraceHop};

fn chars(s: &str) -> Vec<char> {
    s.chars().collect()
}

fn v4(a: u8, b: u8, c: u8, d: u8) -> HostAddr {
    HostAddr::V4([a, b, c, d])
}

fn hop(s: &str, addr: HostAddr) -> TraceHop {
    TraceHop::Responded { host: chars(s), addr }
}

#[test]
fn selection_skips_private_and_timeouts() {
    let hops = vec![
        TraceHop::NoResponse,
        hop("10.0.0.1", v4(10, 0, 0, 1)),
        hop("203.0.113.5", v4(203, 0, 113, 5)),
        TraceHop::NoResponse,
        hop("198.51.100.9", v4(198, 51, 100, 9)),
    ];
    assert_eq!(select_hops(&hops), Some((1, 2, 4)));
}

#[test]
fn selection_needs_two_public_hops() {
    let hops = vec![
        hop("192.168.1.1", v4(192, 168, 1, 1)),
        hop("172.16.0.1", v4(172, 16, 0, 1)),
        hop("8.8.8.8", v4(8, 8, 8, 8)),
    ];
    assert_eq!(select_hops(&hops), None);
    assert_eq!(select_hops(&vec![TraceHop::NoResponse]), None);
}

#[test]
fn first_hop_may_be_public() {
    let hops = vec![
        hop("1.1.1.1", v4(1, 1, 1, 1)),
        hop("8.8.8.8", v4(8, 8, 8, 8)),
        hop("9.9.9.9", v4(9, 9, 9, 9)),
    ];
    assert_eq!(select_hops(&hops), Some((0, 1, 2)));
}

#[test]
fn public_addresses() {
    assert!(!v4(127, 0, 0, 1).is_public());
    assert!(!v4(169, 254, 3, 4).is_public());
    assert!(!v4(172, 31, 0, 1).is_public());
    assert!(v4(172, 32, 0, 1).is_public());
    assert!(!HostAddr::V6([0, 0, 0, 0, 0, 0, 0, 1]).is_public());
    assert!(!HostAddr::V6([0xfe80, 0, 0, 0, 0, 0, 0, 1]).is_public());
    assert!(!HostAddr::V6([0xfd00, 0, 0, 0, 0, 0, 0, 1]).is_public());
    assert!(HostAddr::V6([0x2001, 0xdb8, 0, 0, 0, 0, 0, 1]).is_public());
}

#[test]
fn unix_hop_token() {
    let f = TraceFormat::unix();
    assert_eq!(f.banner_lines, 1);
    assert_eq!(f.hop_token(&chars(" 2  10.0.0.1  1.234 ms  1.1 ms\n")), Some(chars("10.0.0.1")));
    assert_eq!(f.hop_token(&chars(" 3  * * *\n")), Some(chars("*")));
    assert_eq!(f.hop_token(&chars("\n")), None);
}

#[test]
fn windows_hop_token() {
    let f = TraceFormat::windows();
    assert_eq!(f.banner_lines, 4);
    let line = "  1    <1 ms    <1 ms    <1 ms  192.168.0.1\r\n";
    assert_eq!(f.hop_token(&chars(line)), Some(chars("192.168.0.1")));
    assert_eq!(f.hop_token(&chars("\r\n")), None);
    assert_eq!(f.hop_token(&chars("a\u{a0}b c d e f g h")), Some(chars("h")));
}

#[test]
fn command_words() {
    assert_eq!(
        split_command(&chars("  curl -s  http://x \t")),
        Some((chars("curl"), vec![chars("-s"), chars("http://x")]))
    );
    assert_eq!(split_command(&chars(" \t ")), None);
    assert_eq!(split_command(&chars("a\u{a0}b")), Some((chars("a\u{a0}b"), vec![])));
}

#[test]
fn address_choice() {
    let six = HostAddr::V6([0x2001, 0xdb8, 0, 0, 0, 0, 0, 1]);
    let four = v4(93, 184, 216, 34);
    let addrs = vec![six, four];
    assert_eq!(choose_address(&addrs, AddrPreference::Any), Ok(six));
    assert_eq!(choose_address(&addrs, AddrPreference::V4), Ok(four));
    assert_eq!(choose_address(&addrs, AddrPreference::V6), Ok(six));
    assert_eq!(choose_address(&vec![four], AddrPreference::V6), Err(ResolveError::NoIpv6));
    assert_eq!(choose_address(&vec![six], AddrPreference::V4), Err(ResolveError::NoIpv4));
    assert_eq!(choose_address(&vec![], AddrPreference::Any), Err(ResolveError::NoAddress));
}
