use server_tuic::addr::{IpAddr, Ipv4Addr, Ipv6Addr};
use server_tuic::literal::{format_ip, parse_ip};

fn v4(a: u8, b: u8, c: u8, d: u8) -> IpAddr {
    IpAddr::V4(Ipv4Addr::new(a, b, c, d))
}

fn v6(s: [u16; 8]) -> IpAddr {
    IpAddr::V6(Ipv6Addr::new(s[0], s[1], s[2], s[3], s[4], s[5], s[6], s[7]))
}

#[test]
fn reads_dotted_addresses() {
    assert_eq!(parse_ip("0.0.0.0"), Some(v4(0, 0, 0, 0)));
    assert_eq!(parse_ip("203.0.113.7"), Some(v4(203, 0, 113, 7)));
    assert_eq!(parse_ip("255.255.255.255"), Some(v4(255, 255, 255, 255)));
}

#[test]
fn refuses_what_is_no_dotted_address() {
    for text in [
        "",
        "1",
        "1.2.3",
        "1.2.3.4.5",
        "1.2.3.",
        ".1.2.3",
        "1..2.3",
        "256.0.0.1",
        "1.2.3.0004",
        "1.2.3.04",
        "00.0.0.0",
        "1.2.3.4 ",
        " 1.2.3.4",
        "+1.2.3.4",
        "1.2.3.a",
        "example.com",
        "1.2.3.4:80",
    ] {
        assert_eq!(parse_ip(text), None, "{text}");
    }
}

#[test]
fn reads_colon_separated_addresses() {
    assert_eq!(parse_ip("::"), Some(v6([0, 0, 0, 0, 0, 0, 0, 0])));
    assert_eq!(parse_ip("::1"), Some(v6([0, 0, 0, 0, 0, 0, 0, 1])));
    assert_eq!(parse_ip("1::"), Some(v6([1, 0, 0, 0, 0, 0, 0, 0])));
    assert_eq!(
        parse_ip("2606:4700:4700::1111"),
        Some(v6([0x2606, 0x4700, 0x4700, 0, 0, 0, 0, 0x1111]))
    );
    assert_eq!(parse_ip("1:2:3:4:5:6:7:8"), Some(v6([1, 2, 3, 4, 5, 6, 7, 8])));
    assert_eq!(parse_ip("1:2:3:4:5:6:7::"), Some(v6([1, 2, 3, 4, 5, 6, 7, 0])));
    assert_eq!(parse_ip("::2:3:4:5:6:7:8"), Some(v6([0, 2, 3, 4, 5, 6, 7, 8])));
    assert_eq!(
        parse_ip("2001:DB8::aBcD"),
        Some(v6([0x2001, 0xdb8, 0, 0, 0, 0, 0, 0xabcd]))
    );
    assert_eq!(parse_ip("0001::00ff"), Some(v6([1, 0, 0, 0, 0, 0, 0, 0xff])));
}

#[test]
fn reads_a_dotted_address_in_the_last_place() {
    assert_eq!(
        parse_ip("::ffff:127.0.0.1"),
        Some(v6([0, 0, 0, 0, 0, 0xffff, 0x7f00, 1]))
    );
    assert_eq!(
        parse_ip("::1.2.3.4"),
        Some(v6([0, 0, 0, 0, 0, 0, 0x102, 0x304]))
    );
    assert_eq!(
        parse_ip("1:2:3:4:5:6:1.2.3.4"),
        Some(v6([1, 2, 3, 4, 5, 6, 0x102, 0x304]))
    );
}

#[test]
fn refuses_what_is_no_colon_separated_address() {
    for text in [
        ":",
        ":::",
        "1:::2",
        "1::2::3",
        "1:2:3:4:5:6:7",
        "1:2:3:4:5:6:7:8:9",
        "1:2:3:4:5:6:7:8::",
        "::1:2:3:4:5:6:7:8",
        "1:2:3:4::5:6:7:8",
        "12345::",
        "g::",
        "1.2.3.4::",
        "::1.2.3.4:5",
        "::1.2.3",
        "::1.2.3.256",
        "1:2:3:4:5:6:7:1.2.3.4",
        "::1:",
        ":1::",
        "[::1]",
        "fe80::1%eth0",
    ] {
        assert_eq!(parse_ip(text), None, "{text}");
    }
}

#[test]
fn writes_dotted_addresses() {
    assert_eq!(format_ip(v4(203, 0, 113, 7)), "203.0.113.7");
    assert_eq!(format_ip(v4(0, 10, 100, 255)), "0.10.100.255");
}

#[test]
fn writes_colon_separated_addresses() {
    assert_eq!(format_ip(v6([0; 8])), "::");
    assert_eq!(format_ip(v6([0, 0, 0, 0, 0, 0, 0, 1])), "::1");
    assert_eq!(format_ip(v6([0xfe80, 0, 0, 0, 0, 0, 0, 0])), "fe80::");
    assert_eq!(
        format_ip(v6([0x2606, 0x4700, 0x4700, 0, 0, 0, 0, 0x1111])),
        "2606:4700:4700::1111"
    );
    assert_eq!(format_ip(v6([1, 2, 3, 4, 5, 6, 7, 8])), "1:2:3:4:5:6:7:8");
    assert_eq!(format_ip(v6([1, 0, 3, 4, 5, 6, 7, 8])), "1:0:3:4:5:6:7:8");
    assert_eq!(format_ip(v6([1, 0, 0, 4, 0, 0, 0, 8])), "1:0:0:4::8");
    assert_eq!(format_ip(v6([1, 0, 0, 4, 5, 0, 0, 8])), "1::4:5:0:0:8");
    assert_eq!(
        format_ip(v6([0, 0, 0, 0, 0, 0xffff, 0x7f00, 1])),
        "::ffff:127.0.0.1"
    );
    assert_eq!(format_ip(v6([0, 0, 0, 0, 0, 0, 0x102, 0x304])), "::102:304");
    assert_eq!(
        format_ip(v6([0xffff, 0xabcd, 0xef, 0x10, 0, 0, 0, 0])),
        "ffff:abcd:ef:10::"
    );
}

#[test]
fn reads_back_what_was_written() {
    for a in [0u16, 1, 0xffff, 0xa0] {
        for b in [0u16, 7] {
            for c in [0u16, 0xffff] {
                for ip in [
                    v6([a, b, 0, 0, c, 0, b, a]),
                    v6([0, a, 0, b, 0, c, 0, 1]),
                    v6([0, 0, 0, 0, 0, c, a, b]),
                    v4((a % 256) as u8, (b % 256) as u8, (c % 256) as u8, 9),
                ] {
                    assert_eq!(parse_ip(&format_ip(ip)), Some(ip));
                }
            }
        }
    }
}
