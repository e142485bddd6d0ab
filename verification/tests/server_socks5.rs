use ssh3::server::forward::socks5::{
    connected_reply, handle_socks5, refused_reply, Destination, Request, Socks5Error, Socks5Phase,
    Socks5Step, ATYP_DOMAIN, ATYP_IPV4, ATYP_IPV6, CMD_CONNECT, METHOD_NO_ACCEPTABLE,
    METHOD_NO_AUTH, REP_COMMAND_NOT_SUPPORTED, REP_CONNECTION_REFUSED, REP_SUCCEEDED,
    SOCKS5_VERSION,
};

fn socks5_greeting(methods: &[u8]) -> Vec<u8> {
    let mut buf = vec![SOCKS5_VERSION, methods.len() as u8];
    buf.extend_from_slice(methods);
    buf
}

fn socks5_connect_ipv4(ip: [u8; 4], port: u16) -> Vec<u8> {
    let mut buf = vec![SOCKS5_VERSION, CMD_CONNECT, 0x00, ATYP_IPV4];
    buf.extend_from_slice(&ip);
    buf.extend_from_slice(&port.to_be_bytes());
    buf
}

fn socks5_connect_domain(domain: &str, port: u16) -> Vec<u8> {
    let mut buf = vec![SOCKS5_VERSION, CMD_CONNECT, 0x00, ATYP_DOMAIN];
    buf.push(domain.len() as u8);
    buf.extend_from_slice(domain.as_bytes());
    buf.extend_from_slice(&port.to_be_bytes());
    buf
}

fn socks5_connect_ipv6(ip: [u8; 16], port: u16) -> Vec<u8> {
    let mut buf = vec![SOCKS5_VERSION, CMD_CONNECT, 0x00, ATYP_IPV6];
    buf.extend_from_slice(&ip);
    buf.extend_from_slice(&port.to_be_bytes());
    buf
}

/// Greets, and takes the request step on what follows.
fn connect(request: &[u8]) -> Socks5Step {
    let mut data = socks5_greeting(&[METHOD_NO_AUTH]);
    data.extend_from_slice(request);
    match handle_socks5(Socks5Phase::Greeting, &data) {
        Socks5Step::Greeted { reply, consumed } => {
            assert_eq!(reply, [SOCKS5_VERSION, METHOD_NO_AUTH]);
            handle_socks5(Socks5Phase::Request, &data[consumed..])
        }
        other => panic!("expected Greeted, got {other:?}"),
    }
}

#[test]
fn socks5_negotiation_no_auth() {
    assert_eq!(
        handle_socks5(Socks5Phase::Greeting, &socks5_greeting(&[METHOD_NO_AUTH])),
        Socks5Step::Greeted {
            reply: vec![SOCKS5_VERSION, METHOD_NO_AUTH],
            consumed: 3,
        }
    );
    assert!(matches!(connect(&[0xFF, 0, 0, 0]), Socks5Step::Fail(_)));
}

#[test]
fn socks5_connect_ipv4_echo() {
    let bytes = socks5_connect_ipv4([127, 0, 0, 1], 8080);
    let mut sent = bytes.clone();
    sent.extend_from_slice(b"hello-socks5");
    assert_eq!(
        connect(&sent),
        Socks5Step::Connect {
            request: Request {
                command: CMD_CONNECT,
                destination: Destination::Ipv4(vec![127, 0, 0, 1]),
                port: 8080,
            },
            consumed: bytes.len(),
        }
    );
    let reply = connected_reply(&[127, 0, 0, 1], 40000);
    assert_eq!(
        reply,
        vec![SOCKS5_VERSION, REP_SUCCEEDED, 0, ATYP_IPV4, 127, 0, 0, 1, 0x9c, 0x40]
    );
}

#[test]
fn socks5_connect_domain_echo() {
    let bytes = socks5_connect_domain("localhost", 80);
    assert_eq!(
        connect(&bytes),
        Socks5Step::Connect {
            request: Request {
                command: CMD_CONNECT,
                destination: Destination::Domain("localhost".to_string()),
                port: 80,
            },
            consumed: bytes.len(),
        }
    );
}

#[test]
fn socks5_connect_ipv6_echo() {
    let loopback = [0, 0, 0, 0, 0, 0, 0, 0, 0, 0, 0, 0, 0, 0, 0, 1];
    let bytes = socks5_connect_ipv6(loopback, 443);
    assert_eq!(
        connect(&bytes),
        Socks5Step::Connect {
            request: Request {
                command: CMD_CONNECT,
                destination: Destination::Ipv6(loopback.to_vec()),
                port: 443,
            },
            consumed: bytes.len(),
        }
    );
    let reply = connected_reply(&loopback, 1);
    assert_eq!(reply[..4], [SOCKS5_VERSION, REP_SUCCEEDED, 0, ATYP_IPV6]);
    assert_eq!(reply.len(), 22);
}

#[test]
fn socks5_connect_refused() {
    let Socks5Step::Connect { request, .. } = connect(&socks5_connect_ipv4([127, 0, 0, 1], 1))
    else {
        panic!("expected Connect");
    };
    let reply = refused_reply(&request);
    assert_eq!(reply[0], SOCKS5_VERSION);
    assert_eq!(
        reply[1], REP_CONNECTION_REFUSED,
        "expected REP=0x05 (connection refused)"
    );
}

#[test]
fn socks5_unsupported_cmd() {
    let mut req = vec![SOCKS5_VERSION, 0x02, 0x00, ATYP_IPV4];
    req.extend_from_slice(&[127, 0, 0, 1]);
    req.extend_from_slice(&8080u16.to_be_bytes());
    match connect(&req) {
        Socks5Step::Close(reply) => {
            assert_eq!(reply[0], SOCKS5_VERSION);
            assert_eq!(
                reply[1], REP_COMMAND_NOT_SUPPORTED,
                "expected REP=0x07 (command not supported)"
            );
        }
        other => panic!("expected Close, got {other:?}"),
    }
}

#[test]
fn socks5_no_acceptable_method() {
    assert_eq!(
        handle_socks5(Socks5Phase::Greeting, &socks5_greeting(&[0x02])),
        Socks5Step::Close(vec![SOCKS5_VERSION, METHOD_NO_ACCEPTABLE])
    );
}

#[test]
fn socks5_bytes_that_are_cut_off_need_more() {
    let greeting = socks5_greeting(&[0x02, METHOD_NO_AUTH]);
    for n in 0..greeting.len() {
        assert_eq!(
            handle_socks5(Socks5Phase::Greeting, &greeting[..n]),
            Socks5Step::NeedMore
        );
    }
    let request = socks5_connect_domain("localhost", 80);
    for n in 0..request.len() {
        assert_eq!(
            handle_socks5(Socks5Phase::Request, &request[..n]),
            Socks5Step::NeedMore
        );
    }
}

#[test]
fn socks5_errors_are_told() {
    assert!(matches!(
        handle_socks5(Socks5Phase::Greeting, &[4, 1, 0]),
        Socks5Step::Fail(Socks5Error::UnsupportedVersion { version: 4 })
    ));
    let mut request = socks5_connect_ipv4([1, 2, 3, 4], 5);
    request[3] = 9;
    assert!(matches!(
        handle_socks5(Socks5Phase::Request, &request),
        Socks5Step::Fail(_)
    ));
    let mut domain = socks5_connect_domain("a", 5);
    domain[5] = 0xff;
    assert!(matches!(
        handle_socks5(Socks5Phase::Request, &domain),
        Socks5Step::Fail(_)
    ));
}
