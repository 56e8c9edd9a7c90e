use kitty_proxy::http_proxy::HttpReply;
use kitty_proxy::socks_proxy::SocksReply;
use kitty_proxy::types::ResponseCode;

#[test]
fn http_reply_forbidden_exact_bytes() {
    let reply = HttpReply::new(ResponseCode::ConnectionNotAllowed);
    let expected: &[u8] =
        b"HTTP/1.1 403 Proxy Error\r\nContent-Type: text/plain\r\nContent-Length: 11\r\n\r\nProxy Error";
    assert_eq!(reply.buf().as_slice(), expected);
}

#[test]
fn http_reply_bad_gateway_exact_bytes() {
    let reply = HttpReply::new(ResponseCode::ConnectionRefused);
    let expected: &[u8] =
        b"HTTP/1.1 502 Proxy Error\r\nContent-Type: text/plain\r\nContent-Length: 11\r\n\r\nProxy Error";
    assert_eq!(reply.buf().as_slice(), expected);
}

#[test]
fn http_codes_follow_taxonomy() {
    assert_eq!(ResponseCode::Success.http_code(), 200);
    assert_eq!(ResponseCode::GeneralFailure.http_code(), 500);
    assert_eq!(ResponseCode::ConnectionNotAllowed.http_code(), 403);
    assert_eq!(ResponseCode::NetworkUnreachable.http_code(), 502);
    assert_eq!(ResponseCode::HostUnreachable.http_code(), 502);
    assert_eq!(ResponseCode::ConnectionRefused.http_code(), 502);
    assert_eq!(ResponseCode::TtlExpired.http_code(), 502);
    assert_eq!(ResponseCode::CommandNotSupported.http_code(), 502);
    assert_eq!(ResponseCode::AddrTypeNotSupported.http_code(), 502);
}

#[test]
fn socks_reps_follow_taxonomy() {
    assert_eq!(ResponseCode::Success.socks_rep(), 0x00);
    assert_eq!(ResponseCode::GeneralFailure.socks_rep(), 0x01);
    assert_eq!(ResponseCode::ConnectionNotAllowed.socks_rep(), 0x02);
    assert_eq!(ResponseCode::NetworkUnreachable.socks_rep(), 0x03);
    assert_eq!(ResponseCode::HostUnreachable.socks_rep(), 0x04);
    assert_eq!(ResponseCode::ConnectionRefused.socks_rep(), 0x05);
    assert_eq!(ResponseCode::TtlExpired.socks_rep(), 0x06);
    assert_eq!(ResponseCode::CommandNotSupported.socks_rep(), 0x07);
    assert_eq!(ResponseCode::AddrTypeNotSupported.socks_rep(), 0x08);
}

#[test]
fn socks_reply_success_exact_bytes() {
    let reply = SocksReply::new(ResponseCode::Success);
    assert_eq!(reply.buf().as_slice(), &[5u8, 0, 0, 1, 0, 0, 0, 0, 0, 0]);
}

#[test]
fn socks_reply_command_not_supported_exact_bytes() {
    let reply = SocksReply::new(ResponseCode::CommandNotSupported);
    assert_eq!(reply.buf().as_slice(), &[5u8, 7, 0, 1, 0, 0, 0, 0, 0, 0]);
}
