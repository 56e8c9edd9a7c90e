use kitty_proxy::host::Host;
use kitty_proxy::http_proxy::{self, plan_http, HttpReq};
use kitty_proxy::socks_proxy::{
    self, plan_socks, AuthMethod, RequestStep, SocksDecision, SOCKSReq,
};
use kitty_proxy::traffic_diversion::TrafficStreamRule;
use kitty_proxy::types::{
    dial_error_code, settle_relay, DialError, KittyProxyError, NodeInfo, RelayOutcome,
    ResponseCode, StreamErrorKind,
};

fn http_request(block: &[u8]) -> HttpReq {
    HttpReq::parse(&block.to_vec()).expect("request should parse")
}

fn socks_request(greeting: &[u8], request: &[u8]) -> SOCKSReq {
    match SOCKSReq::parse_step(&greeting.to_vec(), &request.to_vec()) {
        RequestStep::Done(req) => req,
        other => panic!("expected a parsed request, got {:?}", other),
    }
}

fn node() -> NodeInfo {
    NodeInfo { id: 7, socket_addr: b"10.0.0.7:1080".to_vec() }
}

#[test]
fn http_get_direct_forwards_block_verbatim() {
    let block = b"GET http://example.test:80/x HTTP/1.1\r\nHost: example.test\r\n\r\n";
    let req = http_request(block);
    let plan = plan_http(&req, TrafficStreamRule::Direct, None);
    assert_eq!(plan.dial_addr, Some(b"example.test:80".to_vec()));
    assert_eq!(plan.client_preamble, Vec::<u8>::new());
    assert_eq!(plan.target_preamble, block.to_vec());
}

#[test]
fn http_connect_direct_answers_client_and_stays_silent_to_target() {
    let block = b"CONNECT example.test:443 HTTP/1.1\r\n\r\n";
    let req = http_request(block);
    let plan = plan_http(&req, TrafficStreamRule::Direct, None);
    assert_eq!(plan.dial_addr, Some(b"example.test:443".to_vec()));
    assert_eq!(
        plan.client_preamble,
        b"HTTP/1.1 200 Connection established\r\n\r\n".to_vec()
    );
    assert_eq!(plan.target_preamble, Vec::<u8>::new());
}

#[test]
fn http_proxied_dials_node_and_replays_block() {
    let block = b"GET http://example.test/x HTTP/1.1\r\nHost: example.test\r\n\r\n";
    let req = http_request(block);
    let nd = node();
    let plan = plan_http(&req, TrafficStreamRule::Proxy, Some(&nd));
    assert_eq!(plan.dial_addr, Some(b"10.0.0.7:1080".to_vec()));
    assert_eq!(plan.client_preamble, Vec::<u8>::new());
    assert_eq!(plan.target_preamble, block.to_vec());
}

#[test]
fn http_reject_dials_nothing() {
    let block = b"GET http://example.test/x HTTP/1.1\r\n\r\n";
    let req = http_request(block);
    let plan = plan_http(&req, TrafficStreamRule::Reject, None);
    assert_eq!(plan.dial_addr, None);
    assert_eq!(plan.client_preamble, Vec::<u8>::new());
    assert_eq!(plan.target_preamble, Vec::<u8>::new());
}

#[test]
fn http_dial_targets_render_every_host_form() {
    let v4 = Host::Ipv4 { a: 127, b: 0, c: 0, d: 1 };
    assert_eq!(v4.dial_target_bytes(80), b"127.0.0.1:80".to_vec());
    let v6 = Host::Ipv6 { groups: [0x2001, 0x0DB8, 0, 0, 0, 0, 0, 1] };
    assert_eq!(v6.dial_target_bytes(443), b"[2001:db8:0:0:0:0:0:1]:443".to_vec());
    let dom = Host::Domain { name: b"example.test".to_vec() };
    assert_eq!(dom.canonical_bytes(), b"example.test".to_vec());
}

#[test]
fn socks_reject_drops_without_dialing() {
    let req = socks_request(
        &[0x05, 0x01, 0x00],
        &[0x05, 0x01, 0x00, 0x01, 0x7F, 0, 0, 0x01, 0x00, 0x50],
    );
    let decision = plan_socks(&req, TrafficStreamRule::Reject, None);
    assert_eq!(decision, SocksDecision::Drop);
}

#[test]
fn socks_direct_sends_success_reply_after_dial() {
    let req = socks_request(
        &[0x05, 0x01, 0x00],
        &[0x05, 0x01, 0x00, 0x01, 0x7F, 0, 0, 0x01, 0x00, 0x50],
    );
    match plan_socks(&req, TrafficStreamRule::Direct, None) {
        SocksDecision::Go(plan) => {
            assert_eq!(plan.dial_addr, b"127.0.0.1:80".to_vec());
            assert_eq!(plan.client_reply, vec![5u8, 0, 0, 1, 0, 0, 0, 0, 0, 0]);
            assert_eq!(plan.target_preamble, Vec::<u8>::new());
            assert!(!plan.discard_upstream_ack);
        }
        other => panic!("expected a dial plan, got {:?}", other),
    }
}

#[test]
fn socks_proxied_replays_negotiation_to_node() {
    let greeting = [0x05, 0x01, 0x00];
    let mut request = vec![0x05, 0x01, 0x00, 0x03, 0x0B];
    request.extend_from_slice(b"example.com");
    request.extend_from_slice(&[0x00, 0x50]);
    let req = socks_request(&greeting, &request);
    let nd = node();
    match plan_socks(&req, TrafficStreamRule::Proxy, Some(&nd)) {
        SocksDecision::Go(plan) => {
            assert_eq!(plan.dial_addr, b"10.0.0.7:1080".to_vec());
            assert_eq!(plan.client_reply, Vec::<u8>::new());
            let mut raw = greeting.to_vec();
            raw.extend_from_slice(&request);
            assert_eq!(plan.target_preamble, raw);
            assert!(plan.discard_upstream_ack);
        }
        other => panic!("expected a dial plan, got {:?}", other),
    }
}

#[test]
fn socks_bind_and_udp_are_refused() {
    let bind = socks_request(
        &[0x05, 0x01, 0x00],
        &[0x05, 0x02, 0x00, 0x01, 10, 0, 0, 1, 0x00, 0x16],
    );
    assert_eq!(
        plan_socks(&bind, TrafficStreamRule::Direct, None),
        SocksDecision::Refuse(ResponseCode::CommandNotSupported)
    );
    let udp = socks_request(
        &[0x05, 0x01, 0x00],
        &[0x05, 0x03, 0x00, 0x01, 10, 0, 0, 1, 0x00, 0x16],
    );
    assert_eq!(
        plan_socks(&udp, TrafficStreamRule::Reject, None),
        SocksDecision::Refuse(ResponseCode::CommandNotSupported)
    );
}

#[test]
fn dial_failures_map_to_reply_codes() {
    assert_eq!(dial_error_code(DialError::TimedOut), ResponseCode::ConnectionRefused);
    assert_eq!(dial_error_code(DialError::Refused), ResponseCode::ConnectionRefused);
    assert_eq!(dial_error_code(DialError::NoRoute), ResponseCode::NetworkUnreachable);
    assert_eq!(dial_error_code(DialError::HostDown), ResponseCode::HostUnreachable);
    assert_eq!(dial_error_code(DialError::Other), ResponseCode::GeneralFailure);
}

#[test]
fn relay_settlement_policy() {
    assert_eq!(
        settle_relay(RelayOutcome::Done { sent: 10, received: 42 }),
        Ok(42)
    );
    assert_eq!(
        settle_relay(RelayOutcome::Failed(StreamErrorKind::NotConnected)),
        Ok(0)
    );
    assert_eq!(
        settle_relay(RelayOutcome::Failed(StreamErrorKind::Other)),
        Err(KittyProxyError::Io(StreamErrorKind::Other))
    );
}

#[test]
fn errors_map_to_reply_codes() {
    assert_eq!(
        KittyProxyError::Proxy(ResponseCode::ConnectionRefused).response_code(),
        ResponseCode::ConnectionRefused
    );
    assert_eq!(
        KittyProxyError::Io(StreamErrorKind::Other).response_code(),
        ResponseCode::GeneralFailure
    );
}

#[test]
fn timeouts_default_per_protocol() {
    assert_eq!(http_proxy::effective_timeout_ms(None), 1000);
    assert_eq!(http_proxy::effective_timeout_ms(Some(250)), 250);
    assert_eq!(socks_proxy::effective_timeout_ms(None), 500);
    assert_eq!(socks_proxy::effective_timeout_ms(Some(250)), 250);
}

#[test]
fn auth_method_wire_codes() {
    assert_eq!(AuthMethod::NoAuth.code(), 0x00);
    assert_eq!(AuthMethod::NoMethod.code(), 0xFF);
}

#[test]
fn http_proxy_serving_state() {
    let mut proxy = http_proxy::HttpProxy::new("127.0.0.1", 8080, Some(750));
    assert!(!proxy.is_serving());
    assert_eq!(proxy.ip().as_str(), "127.0.0.1");
    assert_eq!(proxy.port(), 8080);
    assert_eq!(proxy.timeout_ms(), Some(750));
    proxy.begin_serve();
    assert!(proxy.is_serving());
}
