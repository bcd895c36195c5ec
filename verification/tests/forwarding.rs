use russh_rules::forwarding::{reported_port, ClientChannelPolicy, ServerChannelOpen};

fn forwarded(address: &str, port: u32) -> ServerChannelOpen {
    ServerChannelOpen::ForwardedTcpip { connected_address: address.to_string(), connected_port: port }
}

#[test]
fn server_opened_session_is_refused() {
    let policy = ClientChannelPolicy::new();
    assert!(!policy.accepts(&ServerChannelOpen::Session));
}

#[test]
fn server_opened_direct_tcpip_is_refused() {
    let mut policy = ClientChannelPolicy::new();
    assert!(!policy.accepts(&ServerChannelOpen::DirectTcpip));
    // even with forwards and X11 granted
    policy.forward_granted("127.0.0.1", 80, 0);
    policy.x11_granted();
    assert!(!policy.accepts(&ServerChannelOpen::DirectTcpip));
    assert!(!policy.accepts(&ServerChannelOpen::Session));
    assert!(!policy.accepts(&ServerChannelOpen::Other));
}

#[test]
fn forwarded_tcpip_without_request_is_refused() {
    let policy = ClientChannelPolicy::new();
    assert!(!policy.accepts(&forwarded("127.0.0.1", 8080)));
}

#[test]
fn forwarded_tcpip_after_request_is_accepted() {
    let mut policy = ClientChannelPolicy::new();
    let port = reported_port(8080, 8080);
    assert_eq!(port, 0);
    policy.forward_granted("127.0.0.1", 8080, port);
    assert!(policy.accepts(&forwarded("127.0.0.1", 8080)));
    // another port or another address is still refused
    assert!(!policy.accepts(&forwarded("127.0.0.1", 8081)));
    assert!(!policy.accepts(&forwarded("10.0.0.1", 8080)));
}

#[test]
fn forwarded_tcpip_after_cancel_is_refused() {
    let mut policy = ClientChannelPolicy::new();
    policy.forward_granted("127.0.0.1", 9090, 0);
    policy.forward_granted("127.0.0.1", 9091, 0);
    policy.forward_cancelled("127.0.0.1", 9090);
    assert!(!policy.accepts(&forwarded("127.0.0.1", 9090)));
    assert!(policy.accepts(&forwarded("127.0.0.1", 9091)));
}

#[test]
fn cancel_of_unknown_forward_changes_nothing() {
    let mut policy = ClientChannelPolicy::new();
    policy.forward_granted("localhost", 22, 0);
    policy.forward_cancelled("localhost", 23);
    assert!(policy.accepts(&forwarded("localhost", 22)));
}

#[test]
fn granting_twice_then_cancelling_once_removes_the_forward() {
    let mut policy = ClientChannelPolicy::new();
    policy.forward_granted("127.0.0.1", 7000, 0);
    policy.forward_granted("127.0.0.1", 7000, 0);
    policy.forward_cancelled("127.0.0.1", 7000);
    assert!(!policy.accepts(&forwarded("127.0.0.1", 7000)));
}

#[test]
fn port_zero_forward_uses_the_bound_port() {
    let mut policy = ClientChannelPolicy::new();
    let port = reported_port(0, 40123);
    assert_eq!(port, 40123);
    policy.forward_granted("0.0.0.0", 0, port);
    assert!(policy.accepts(&forwarded("0.0.0.0", 40123)));
    assert!(!policy.accepts(&forwarded("0.0.0.0", 0)));
}

#[test]
fn x11_without_request_is_refused() {
    let mut policy = ClientChannelPolicy::new();
    assert!(!policy.accepts(&ServerChannelOpen::X11));
    policy.x11_granted();
    assert!(policy.accepts(&ServerChannelOpen::X11));
}
