use nodescope::socks5::{
    failure_reply, handshake_step, method_selection_reply, parse_greeting, parse_request, success_reply,
    Socks5Action, Socks5Error, Socks5Phase,
};

#[test]
fn greeting_with_no_methods_is_accepted() {
    assert_eq!(parse_greeting(&[5, 0]), Ok(()));
    assert_eq!(parse_greeting(&[5, 1, 0]), Ok(()));
}

#[test]
fn greeting_errors() {
    assert_eq!(parse_greeting(&[4, 0]), Err(Socks5Error::UnsupportedVersion(4)));
    assert_eq!(parse_greeting(&[5]), Err(Socks5Error::GreetingTooShort));
    assert_eq!(parse_greeting(&[5, 2, 0]), Err(Socks5Error::MethodsIncomplete));
}

#[test]
fn ipv4_request() {
    let q = parse_request(&[5, 1, 0, 1, 198, 51, 100, 1, 0x20, 0x8d]).unwrap();
    assert_eq!(q.target_addr, "198.51.100.1");
    assert_eq!(q.target_port, 8333);
    assert_eq!(q.to_text(), "198.51.100.1:8333");
}

#[test]
fn domain_request() {
    let mut buf = vec![5, 1, 0, 3, 11];
    buf.extend_from_slice(b"example.org");
    buf.extend_from_slice(&[0x00, 0x50]);
    let q = parse_request(&buf).unwrap();
    assert_eq!(q.target_addr, "example.org");
    assert_eq!(q.target_port, 80);
    let mut bad = vec![5, 1, 0, 3, 2, 0xff, 0xfe, 0, 80];
    assert_eq!(parse_request(&bad).unwrap_err(), Socks5Error::InvalidDomain);
    bad.truncate(6);
    assert_eq!(parse_request(&bad).unwrap_err(), Socks5Error::AddressIncomplete);
    assert_eq!(parse_request(&[5, 1, 0, 3]).unwrap_err(), Socks5Error::AddressIncomplete);
}

#[test]
fn ipv6_request() {
    let mut buf = vec![5, 1, 0, 4];
    buf.extend_from_slice(&[0x20, 0x01, 0x0d, 0xb8, 0, 0, 0, 0, 0, 0, 0, 0, 0, 0, 0xab, 0x01]);
    buf.extend_from_slice(&[0x20, 0x8d]);
    let q = parse_request(&buf).unwrap();
    assert_eq!(q.target_addr, "2001:0db8:0000:0000:0000:0000:0000:ab01");
    assert_eq!(q.target_port, 8333);
}

#[test]
fn request_errors() {
    assert_eq!(parse_request(&[5, 1, 0]).unwrap_err(), Socks5Error::RequestTooShort);
    assert_eq!(parse_request(&[4, 1, 0, 1]).unwrap_err(), Socks5Error::RequestVersion(4));
    assert_eq!(parse_request(&[5, 2, 0, 1]).unwrap_err(), Socks5Error::UnsupportedCommand(2));
    assert_eq!(parse_request(&[5, 1, 0, 9]).unwrap_err(), Socks5Error::UnsupportedAddressType(9));
    assert_eq!(parse_request(&[5, 1, 0, 1, 1, 2]).unwrap_err(), Socks5Error::AddressIncomplete);
    assert_eq!(parse_request(&[5, 1, 0, 4, 1, 2]).unwrap_err(), Socks5Error::AddressIncomplete);
}

#[test]
fn replies_are_bit_exact() {
    assert_eq!(method_selection_reply(), vec![5, 0]);
    assert_eq!(success_reply(), vec![5, 0, 0, 1, 0, 0, 0, 0, 0, 0]);
    assert_eq!(failure_reply(), vec![5, 1, 0, 1, 0, 0, 0, 0, 0, 0]);
}

#[test]
fn handshake_runs_to_connect() {
    let (phase, action) = handshake_step(Socks5Phase::AwaitGreeting, &[5, 1, 0]);
    assert_eq!(phase, Socks5Phase::AwaitRequest);
    match action {
        Socks5Action::Reply(v) => assert_eq!(v, vec![5, 0]),
        other => panic!("unexpected {:?}", other),
    }
    let (phase, action) = handshake_step(phase, &[5, 1, 0, 1, 192, 0, 2, 1, 0x20, 0x8d]);
    assert_eq!(phase, Socks5Phase::Done);
    match action {
        Socks5Action::Connect(q, v) => {
            assert_eq!(q.to_text(), "192.0.2.1:8333");
            assert_eq!(v, vec![5, 0, 0, 1, 0, 0, 0, 0, 0, 0]);
        }
        other => panic!("unexpected {:?}", other),
    }
}

#[test]
fn handshake_failures() {
    let (phase, action) = handshake_step(Socks5Phase::AwaitGreeting, &[4, 0]);
    assert_eq!(phase, Socks5Phase::Failed);
    match action {
        Socks5Action::Fail(e, v) => {
            assert_eq!(e, Socks5Error::UnsupportedVersion(4));
            assert!(v.is_empty());
        }
        other => panic!("unexpected {:?}", other),
    }
    let (phase, action) = handshake_step(Socks5Phase::AwaitRequest, &[5, 2, 0, 1]);
    assert_eq!(phase, Socks5Phase::Failed);
    match action {
        Socks5Action::Fail(e, v) => {
            assert_eq!(e, Socks5Error::UnsupportedCommand(2));
            assert_eq!(v, vec![5, 1, 0, 1, 0, 0, 0, 0, 0, 0]);
        }
        other => panic!("unexpected {:?}", other),
    }
    let (_, action) = handshake_step(Socks5Phase::AwaitRequest, &[5, 1, 0]);
    match action {
        Socks5Action::Fail(e, v) => {
            assert_eq!(e, Socks5Error::RequestTooShort);
            assert!(v.is_empty());
        }
        other => panic!("unexpected {:?}", other),
    }
}
