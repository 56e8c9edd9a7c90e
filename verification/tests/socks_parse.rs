use kitty_proxy::host::Host;
use kitty_proxy::socks_proxy::{
    addr_to_host, method_selection_reply, scan_greeting, AddrType, GreetingOutcome, RequestStep,
    SockCommand, SOCKSReq,
};
use kitty_proxy::types::ResponseCode;

fn parse_full(greeting: &[u8], request: &[u8]) -> RequestStep {
    SOCKSReq::parse_step(&greeting.to_vec(), &request.to_vec())
}

#[test]
fn greeting_no_auth_accepted() {
    assert_eq!(
        scan_greeting(&vec![0x05, 0x01, 0x00]),
        GreetingOutcome::Accepted(3)
    );
}

#[test]
fn greeting_no_auth_among_several_accepted() {
    assert_eq!(
        scan_greeting(&vec![0x05, 0x03, 0x02, 0x00, 0x01]),
        GreetingOutcome::Accepted(5)
    );
}

#[test]
fn greeting_without_no_auth_refused() {
    assert_eq!(
        scan_greeting(&vec![0x05, 0x02, 0x01, 0x02]),
        GreetingOutcome::Refused
    );
}

#[test]
fn greeting_wrong_version_rejected() {
    assert_eq!(scan_greeting(&vec![0x04, 0x01, 0x00]), GreetingOutcome::BadVersion);
}

#[test]
fn greeting_asks_for_missing_bytes() {
    assert_eq!(scan_greeting(&vec![]), GreetingOutcome::Need(2));
    assert_eq!(scan_greeting(&vec![0x05]), GreetingOutcome::Need(1));
    assert_eq!(scan_greeting(&vec![0x05, 0x03, 0x00]), GreetingOutcome::Need(2));
}

#[test]
fn method_selection_replies() {
    assert_eq!(method_selection_reply(true), vec![0x05, 0x00]);
    assert_eq!(method_selection_reply(false), vec![0x05, 0xFF]);
}

#[test]
fn request_connect_ipv4() {
    let greeting = [0x05, 0x01, 0x00];
    let request = [0x05, 0x01, 0x00, 0x01, 0x7F, 0x00, 0x00, 0x01, 0x00, 0x50];
    match parse_full(&greeting, &request) {
        RequestStep::Done(req) => {
            assert_eq!(req.version, 5);
            assert_eq!(req.command, SockCommand::Connect);
            assert_eq!(req.host, Host::Ipv4 { a: 127, b: 0, c: 0, d: 1 });
            assert_eq!(req.port, 80);
            let mut raw = greeting.to_vec();
            raw.extend_from_slice(&request);
            assert_eq!(req.readed_buffer, raw);
        }
        other => panic!("expected a parsed request, got {:?}", other),
    }
}

#[test]
fn request_connect_domain() {
    let greeting = [0x05, 0x01, 0x00];
    let mut request = vec![0x05, 0x01, 0x00, 0x03, 0x0B];
    request.extend_from_slice(b"example.com");
    request.extend_from_slice(&[0x01, 0xBB]);
    match parse_full(&greeting, &request) {
        RequestStep::Done(req) => {
            assert_eq!(req.command, SockCommand::Connect);
            assert_eq!(req.host, Host::Domain { name: b"example.com".to_vec() });
            assert_eq!(req.port, 443);
        }
        other => panic!("expected a parsed request, got {:?}", other),
    }
}

#[test]
fn request_connect_ipv6() {
    let greeting = [0x05, 0x01, 0x00];
    let mut request = vec![0x05, 0x01, 0x00, 0x04];
    request.extend_from_slice(&[
        0x20, 0x01, 0x0D, 0xB8, 0, 0, 0, 0, 0, 0, 0, 0, 0, 0, 0, 0x01,
    ]);
    request.extend_from_slice(&[0x1F, 0x90]);
    match parse_full(&greeting, &request) {
        RequestStep::Done(req) => {
            assert_eq!(
                req.host,
                Host::Ipv6 { groups: [0x2001, 0x0DB8, 0, 0, 0, 0, 0, 1] }
            );
            assert_eq!(req.port, 8080);
        }
        other => panic!("expected a parsed request, got {:?}", other),
    }
}

#[test]
fn request_bind_parses_as_bind() {
    let greeting = [0x05, 0x01, 0x00];
    let request = [0x05, 0x02, 0x00, 0x01, 10, 0, 0, 1, 0x00, 0x16];
    match parse_full(&greeting, &request) {
        RequestStep::Done(req) => assert_eq!(req.command, SockCommand::Bind),
        other => panic!("expected a parsed request, got {:?}", other),
    }
}

#[test]
fn request_unknown_command_rejected() {
    let greeting = [0x05, 0x01, 0x00];
    let request = [0x05, 0x09, 0x00, 0x01, 10, 0, 0, 1, 0x00, 0x16];
    assert_eq!(
        parse_full(&greeting, &request),
        RequestStep::Reject(ResponseCode::CommandNotSupported)
    );
}

#[test]
fn request_unknown_addr_type_rejected() {
    let greeting = [0x05, 0x01, 0x00];
    let request = [0x05, 0x01, 0x00, 0x02, 10, 0, 0, 1, 0x00, 0x16];
    assert_eq!(
        parse_full(&greeting, &request),
        RequestStep::Reject(ResponseCode::AddrTypeNotSupported)
    );
}

#[test]
fn request_wrong_version_rejected() {
    let greeting = [0x05, 0x01, 0x00];
    let request = [0x04, 0x01, 0x00, 0x01, 10, 0, 0, 1, 0x00, 0x16];
    assert_eq!(
        parse_full(&greeting, &request),
        RequestStep::Reject(ResponseCode::GeneralFailure)
    );
}

#[test]
fn request_asks_for_missing_bytes() {
    let greeting = [0x05, 0x01, 0x00];
    assert_eq!(parse_full(&greeting, &[0x05]), RequestStep::Need(3));
    assert_eq!(
        parse_full(&greeting, &[0x05, 0x01, 0x00, 0x01]),
        RequestStep::Need(6)
    );
    assert_eq!(
        parse_full(&greeting, &[0x05, 0x01, 0x00, 0x03]),
        RequestStep::Need(1)
    );
    // a five-byte domain needs its five labels and the two port bytes
    assert_eq!(
        parse_full(&greeting, &[0x05, 0x01, 0x00, 0x03, 0x05]),
        RequestStep::Need(7)
    );
}

#[test]
fn greeting_with_no_methods_is_refused() {
    assert_eq!(scan_greeting(&vec![0x05, 0x00]), GreetingOutcome::Refused);
}

#[test]
fn greeting_consumes_only_its_own_bytes() {
    assert_eq!(
        scan_greeting(&vec![0x05, 0x01, 0x00, 0x09, 0x09]),
        GreetingOutcome::Accepted(3)
    );
}

#[test]
fn request_empty_domain_parses() {
    let greeting = [0x05, 0x01, 0x00];
    let request = [0x05, 0x01, 0x00, 0x03, 0x00, 0x23, 0x28];
    match parse_full(&greeting, &request) {
        RequestStep::Done(req) => {
            assert_eq!(req.host, Host::Domain { name: Vec::new() });
            assert_eq!(req.port, 9000);
        }
        other => panic!("expected a parsed request, got {:?}", other),
    }
}

#[test]
fn request_round_trip_reparses_equal() {
    let greeting = [0x05, 0x02, 0x00, 0x01];
    let mut request = vec![0x05, 0x01, 0x00, 0x03, 0x0B];
    request.extend_from_slice(b"example.com");
    request.extend_from_slice(&[0x00, 0x50]);
    let first = match parse_full(&greeting, &request) {
        RequestStep::Done(req) => req,
        other => panic!("expected a parsed request, got {:?}", other),
    };
    // re-serialize: the captured bytes are the serialization
    let raw = first.readed_buffer.clone();
    // split at the greeting boundary that the bytes themselves announce
    let cut = 2 + raw[1] as usize;
    let (g2, r2) = raw.split_at(cut);
    assert_eq!(scan_greeting(&g2.to_vec()), GreetingOutcome::Accepted(cut));
    let second = match parse_full(g2, r2) {
        RequestStep::Done(req) => req,
        other => panic!("expected a parsed request, got {:?}", other),
    };
    assert_eq!(first, second);
}

#[test]
fn addr_type_and_command_wire_codes() {
    assert_eq!(AddrType::from(1), Some(AddrType::V4));
    assert_eq!(AddrType::from(3), Some(AddrType::Domain));
    assert_eq!(AddrType::from(4), Some(AddrType::V6));
    assert_eq!(AddrType::from(2), None);
    assert_eq!(SockCommand::from(1), Some(SockCommand::Connect));
    assert_eq!(SockCommand::from(2), Some(SockCommand::Bind));
    assert_eq!(SockCommand::from(3), Some(SockCommand::UdpAssociate));
    assert_eq!(SockCommand::from(4), None);
}

#[test]
fn addr_payload_to_host() {
    assert_eq!(
        addr_to_host(&AddrType::V4, &[192, 168, 0, 1]),
        Host::Ipv4 { a: 192, b: 168, c: 0, d: 1 }
    );
    assert_eq!(
        addr_to_host(&AddrType::Domain, b"a.example"),
        Host::Domain { name: b"a.example".to_vec() }
    );
    let bytes = [0xFE, 0x80, 0, 0, 0, 0, 0, 0, 0, 0, 0, 0, 0, 0, 0x12, 0x34];
    assert_eq!(
        addr_to_host(&AddrType::V6, &bytes),
        Host::Ipv6 { groups: [0xFE80, 0, 0, 0, 0, 0, 0, 0x1234] }
    );
}
