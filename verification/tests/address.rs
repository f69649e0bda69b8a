use stk::address::{parse_ip, parse_ipv4, parse_ipv6, parse_socket, IpAddress, SocketAddress};
use stk::order::{first_minimum, last_maximum, stable_order};
use stk::outbound::{local_dial_message, target_host_port, TargetAddr};
use stk::text::{
    decimal_text, is_white_space, join, lines, parse_number, split, trim, wide_decimal_text,
};

#[test]
fn addresses_are_read_as_the_standard_library_reads_them() {
    for text in [
        "127.0.0.1:80",
        "0.0.0.0:0",
        "255.255.255.255:65535",
        "[::1]:80",
        "[::]:1",
        "[2001:db8::1:0:0:1]:443",
        "[1:2:3:4:5:6:7:8]:9",
        "[::ffff:1.2.3.4]:5",
        "[fe80::1%7]:22",
        "[1:0:0:2::]:3",
        "127.0.0.1",
        "127.0.0.1:65536",
        "01.2.3.4:1",
        "256.0.0.1:1",
        "[::1]",
        "[:::1]:1",
        "::1:80",
        "[1::2::3]:4",
        "[1:2:3:4:5:6:7]:8",
        "[1:2:3:4:5:6:7:8:9]:1",
        "[::1.2.3.4]:1",
        "[::1.2.3.4:5]:1",
        "",
        ":",
        "localhost:80",
    ] {
        let expected = text.parse::<core::net::SocketAddr>().ok();
        let read = parse_socket(text);
        assert_eq!(
            read.map(|address| address.text()),
            expected.map(|address| address.to_string()),
            "{text}"
        );
        assert_eq!(read.is_some(), expected.is_some(), "{text}");
    }
}

#[test]
fn written_addresses_are_read_back() {
    let mut bits: u128 = 1;
    for step in 0..500_u32 {
        bits = bits
            .wrapping_mul(0x2545_f491_4f6c_dd1d_9e37_79b9_7f4a_7c15)
            .wrapping_add(step as u128);
        let mut sparse = bits;
        for group in 0..8 {
            if (bits >> (group * 3)) & 1 == 0 {
                sparse &= !(0xffff_u128 << (group * 16));
            }
        }
        for ip in [
            IpAddress::V4(bits as u32),
            IpAddress::V6(bits),
            IpAddress::V6(sparse),
        ] {
            let address = SocketAddress::new(ip, bits as u16);
            assert_eq!(parse_socket(&address.text()), Some(address));
            assert_eq!(parse_ip(&ip.text()), Some(ip));
            let standard = match ip {
                IpAddress::V4(bits) => core::net::IpAddr::V4(core::net::Ipv4Addr::from_bits(bits)),
                IpAddress::V6(bits) => core::net::IpAddr::V6(core::net::Ipv6Addr::from_bits(bits)),
            };
            assert_eq!(ip.text(), standard.to_string());
        }
    }
    assert_eq!(parse_ipv4("1.2.3.4"), Some(0x0102_0304));
    assert_eq!(parse_ipv6("::2"), Some(2));
}

#[test]
fn unspecified_addresses_are_reached_at_the_loopback() {
    let reach = |text: &str| parse_socket(text).unwrap().reachable().text();
    assert_eq!(reach("0.0.0.0:80"), "127.0.0.1:80");
    assert_eq!(reach("[::]:80"), "[::1]:80");
    assert_eq!(reach("10.0.0.1:80"), "10.0.0.1:80");
    assert!(parse_socket("127.9.9.9:1").unwrap().ip.is_loopback());
}

#[test]
fn targets_are_addresses_or_domains() {
    let target = TargetAddr::from_host_port("[::1]".to_string(), 80);
    assert_eq!(target.text(), "[::1]:80");
    assert_eq!(target.port(), 80);
    assert_eq!(target_host_port(&target), ("::1".to_string(), 80));
    let target = TargetAddr::from_host_port("host".to_string(), 80);
    assert_eq!(
        local_dial_message("remote/up", "failed to connect to local target", &target),
        "remote/up failed to connect to local target host:80"
    );
}

#[test]
fn white_space_is_that_of_the_standard_library() {
    for code in 0..0x11_0000_u32 {
        if let Some(character) = char::from_u32(code) {
            assert_eq!(is_white_space(character), character.is_whitespace());
        }
    }
    assert_eq!(trim(" \u{3000}a\u{85}"), "a");
}

#[test]
fn texts_are_split_and_joined() {
    assert_eq!(split("a,b,,c", ','), vec!["a", "b", "", "c"]);
    assert_eq!(join(&split("a,b,,c", ','), ","), "a,b,,c");
    assert_eq!(lines("a\r\nb\n\nc"), vec!["a", "b", "", "c"]);
    assert_eq!(decimal_text(u64::MAX), u64::MAX.to_string());
    assert_eq!(wide_decimal_text(u128::MAX), u128::MAX.to_string());
}

#[test]
fn numbers_are_read_as_the_standard_library_reads_them() {
    for text in ["0", "65535", "65536", "", "+7", "-1", "1x", "+", "007"] {
        let expected = text.parse::<u16>();
        match parse_number(text, u16::MAX as u64) {
            Ok(number) => assert_eq!(Ok(number as u16), expected),
            Err(message) => assert_eq!(message, expected.unwrap_err().to_string()),
        }
    }
}

#[test]
fn orders_keep_equal_keys_in_place() {
    assert_eq!(first_minimum(&vec![3, 1, 2, 1]), 1);
    assert_eq!(last_maximum(&vec![3, 1, 3, 2]), 2);
    assert_eq!(stable_order(&vec![3, 1, 2, 1]), vec![1, 3, 2, 0]);
}
