use stk::address::parse_socket;
use stk::config::ProxyProtocol;
use stk::inbound::{
    accept_socks5, detect_protocol, detected_protocol_name, socks5_dial_reply,
    socks5_handshake_reply, write_socks5_reply, DetectedProtocol, DialFailure, InboundError, Socks5Step,
};
use stk::outbound::TargetAddr;

#[test]
fn mixed_detects_socks5() {
    assert_eq!(
        detect_protocol(ProxyProtocol::Mixed, &[0x05, 0x01, 0x00]),
        DetectedProtocol::Socks5
    );
}

#[test]
fn mixed_detects_partial_http_method() {
    assert_eq!(
        detect_protocol(ProxyProtocol::Mixed, b"C"),
        DetectedProtocol::Http
    );
    assert_eq!(
        detect_protocol(ProxyProtocol::Mixed, b"CONNE"),
        DetectedProtocol::Http
    );
}

#[test]
fn mixed_detects_http_connect() {
    assert_eq!(
        detect_protocol(
            ProxyProtocol::Mixed,
            b"CONNECT example.com:443 HTTP/1.1\r\n"
        ),
        DetectedProtocol::Http
    );
}

#[test]
fn mixed_detects_other_http_methods() {
    assert_eq!(
        detect_protocol(ProxyProtocol::Mixed, b"TRACE / HTTP/1.1\r\n"),
        DetectedProtocol::Http
    );
}

#[test]
fn fixed_protocol_bypasses_detection() {
    assert_eq!(
        detect_protocol(ProxyProtocol::Socks5h, b"anything"),
        DetectedProtocol::Socks5
    );
}

#[test]
fn unknown_bytes_are_no_protocol() {
    assert_eq!(
        detect_protocol(ProxyProtocol::Mixed, b"get / HTTP/1.1"),
        DetectedProtocol::Unknown
    );
    assert_eq!(
        detect_protocol(ProxyProtocol::Mixed, b""),
        DetectedProtocol::Unknown
    );
    assert_eq!(
        detect_protocol(ProxyProtocol::Http, b"\x05"),
        DetectedProtocol::Http
    );
    assert_eq!(detected_protocol_name(DetectedProtocol::Unknown), "Unknown");
}

#[test]
fn socks5_parses_domain_target_without_resolving_it() {
    let mut request = vec![0x05, 0x01, 0x00, 0x05, 0x01, 0x00, 0x03, 11];
    request.extend_from_slice(b"example.com");
    request.extend_from_slice(&443_u16.to_be_bytes());

    let (step, replies) = accept_socks5(&request);
    assert_eq!(
        step,
        Socks5Step::Accepted {
            target: TargetAddr::DomainPort {
                domain: "example.com".to_string(),
                port: 443,
            },
            used: request.len(),
        }
    );
    assert_eq!(replies, [0x05, 0x00]);
}

#[test]
fn socks5_parses_ipv4_target() {
    let request = vec![
        0x05, 0x01, 0x00, 0x05, 0x01, 0x00, 0x01, 127, 0, 0, 1, 0x1f, 0x90,
    ];
    let (step, _) = accept_socks5(&request);
    assert_eq!(
        step,
        Socks5Step::Accepted {
            target: TargetAddr::Socket(parse_socket("127.0.0.1:8080").unwrap()),
            used: 13,
        }
    );
}

#[test]
fn socks5_parses_ipv6_target() {
    let mut request = vec![0x05, 0x02, 0x02, 0x00, 0x05, 0x01, 0x00, 0x04];
    request.extend_from_slice(&[0; 15]);
    request.extend_from_slice(&[1, 0, 80, 9, 9]);
    let (step, _) = accept_socks5(&request);
    assert_eq!(
        step,
        Socks5Step::Accepted {
            target: TargetAddr::Socket(parse_socket("[::1]:80").unwrap()),
            used: 26,
        }
    );
}

#[test]
fn a_handshake_waits_for_what_is_missing() {
    let request = vec![
        0x05, 0x01, 0x00, 0x05, 0x01, 0x00, 0x01, 127, 0, 0, 1, 0x1f, 0x90,
    ];
    for end in 0..request.len() {
        let (step, _) = accept_socks5(&request[..end].to_vec());
        match step {
            Socks5Step::More(count) => assert!(count > 0 && end + count <= request.len()),
            other => panic!("{other:?} after {end} bytes"),
        }
    }
}

fn refusal(request: &[u8]) -> InboundError {
    match accept_socks5(&request.to_vec()).0 {
        Socks5Step::Refused(error) => error,
        other => panic!("{other:?}"),
    }
}

#[test]
fn socks5_refuses_what_it_does_not_speak() {
    assert_eq!(
        refusal(&[4, 1]),
        InboundError::UnsupportedSocksVersion(4)
    );
    assert_eq!(
        accept_socks5(&vec![5, 1, 2]),
        (
            Socks5Step::Refused(InboundError::NoAcceptableSocksAuth),
            vec![5, 0xff]
        )
    );
    assert_eq!(
        refusal(&[5, 1, 0, 4, 1, 0, 1]),
        InboundError::UnsupportedSocksVersion(4)
    );
    assert!(matches!(
        refusal(&[5, 1, 0, 5, 1, 7, 1]),
        InboundError::MalformedSocksRequest(_)
    ));
    assert_eq!(
        refusal(&[5, 1, 0, 5, 2, 0, 1]),
        InboundError::UnsupportedSocksCommand(2)
    );
    assert_eq!(
        refusal(&[5, 1, 0, 5, 1, 0, 9]),
        InboundError::UnsupportedSocksAddressType(9)
    );
    assert_eq!(
        refusal(&[5, 1, 0, 5, 1, 0, 3, 0]),
        InboundError::InvalidSocksDomain
    );
    assert_eq!(
        refusal(&[5, 1, 0, 5, 1, 0, 3, 1, 0xff]),
        InboundError::InvalidSocksDomain
    );
    assert_eq!(
        refusal(&[5, 1, 0, 5, 1, 0, 1, 127, 0, 0, 1, 0, 0]),
        InboundError::InvalidTargetPort
    );
}

#[test]
fn refusals_and_dials_are_answered() {
    assert_eq!(
        socks5_handshake_reply(&InboundError::UnsupportedSocksCommand(2)),
        Some(7)
    );
    assert_eq!(
        socks5_handshake_reply(&InboundError::InvalidSocksDomain),
        Some(8)
    );
    assert_eq!(
        socks5_handshake_reply(&InboundError::MalformedSocksRequest("reserved byte must be zero")),
        Some(1)
    );
    assert_eq!(
        socks5_handshake_reply(&InboundError::NoAcceptableSocksAuth),
        None
    );
    assert_eq!(socks5_dial_reply(Some(DialFailure::ConnectionRefused)), 5);
    assert_eq!(socks5_dial_reply(None), 1);
    assert_eq!(write_socks5_reply(0), vec![5, 0, 0, 1, 0, 0, 0, 0, 0, 0]);
    assert_eq!(
        InboundError::UnsupportedSocksVersion(4).message(),
        "unsupported SOCKS version: 4"
    );
    assert_eq!(
        InboundError::Io("closed".to_string()).message(),
        "proxy I/O failed: closed"
    );
}
