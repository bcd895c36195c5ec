use russh_rules::handlers::{
    cancel_processed, echo_once_step, Auth, DefaultServer, AuthSignalServer, ChannelHandoffServer, ChannelMsg,
    Server, EchoStep, ForwardTrackingServer, Client, FORWARD_CANCELLED, FORWARD_NONE,
    FORWARD_REQUESTED,
};
use russh_rules::registry::{ChannelId, ClientRegistry};

fn some_key() -> ssh_key::PublicKey {
    ssh_key::PublicKey::from_openssh(
        "ssh-ed25519 AAAAC3NzaC1lZDI1NTE5AAAAILM+rvN+ot98qgEN796jTiQfZfG1KaT0PtFDJ/XFSqti user@example.com",
    )
    .unwrap()
}

#[test]
fn client_trusts_any_server_key() {
    let mut client = Client;
    assert!(client.check_server_key(&some_key()));
}

#[test]
fn echo_server_numbers_clients_in_order() {
    let mut server = Server::new();
    let a = server.new_client();
    let b = server.new_client();
    let c = server.new_client();
    assert_eq!((a.id, b.id, c.id), (0, 1, 2));
    assert_eq!(server.id, 3);
}

#[test]
fn echo_server_registers_session_channels() {
    let mut server = Server::new();
    let first = server.new_client();
    let second = server.new_client();
    let mut clients: ClientRegistry<&str> = ClientRegistry::new();
    assert!(first.channel_open_session(&mut clients, ChannelId(0), "handle-a"));
    assert!(second.channel_open_session(&mut clients, ChannelId(0), "handle-b"));
    assert!(first.channel_open_session(&mut clients, ChannelId(1), "handle-c"));
    assert_eq!(clients.get(0, ChannelId(0)), Some(&"handle-a"));
    assert_eq!(clients.get(1, ChannelId(0)), Some(&"handle-b"));
    assert_eq!(clients.get(0, ChannelId(1)), Some(&"handle-c"));
    assert_eq!(clients.get(1, ChannelId(1)), None);
}

#[test]
fn echo_server_accepts_every_user() {
    let mut server = Server::new();
    assert_eq!(server.auth_publickey("user", &some_key()), Auth::Accept);
    assert_eq!(server.auth_publickey("", &some_key()), Auth::Accept);
}

#[test]
fn echo_server_sends_data_back() {
    let mut server = Server::new();
    let data = &b"Hello, world!"[..];
    let (channel, reply) = server.data(ChannelId(7), data);
    assert_eq!(channel, ChannelId(7));
    assert_eq!(&reply[..], data);
    let (_, empty) = server.data(ChannelId(0), &[]);
    assert!(empty.is_empty());
}

#[test]
fn auth_waiter_fires_once() {
    let mut server: AuthSignalServer<u32> = AuthSignalServer::new();
    assert_eq!(server.auth_succeeded(), None);
    server.get_auth_waiter(5);
    assert_eq!(server.auth_publickey("user", &some_key()), Auth::Accept);
    assert_eq!(server.auth_succeeded(), Some(5));
    assert_eq!(server.auth_succeeded(), None);
}

#[test]
fn channel_waiter_gets_first_session_channel() {
    let mut server: ChannelHandoffServer<&str> = ChannelHandoffServer::new();
    server.get_channel_waiter("sender");
    assert_eq!(server.auth_publickey("user", &some_key()), Auth::Accept);
    assert_eq!(server.channel_open_session(), (Some("sender"), true));
    assert_eq!(server.channel_open_session(), (None, true));
}

#[test]
fn echo_once_replies_to_data_and_passes_over_the_rest() {
    match echo_once_step(ChannelMsg::Data { data: b"hello world!".to_vec() }) {
        EchoStep::ReplyAndClose(reply) => assert_eq!(&reply[..], &b"hello world!"[..]),
        EchoStep::Wait => panic!("data was not echoed"),
    }
    assert!(matches!(echo_once_step(ChannelMsg::Eof), EchoStep::Wait));
    assert!(matches!(echo_once_step(ChannelMsg::Close), EchoStep::Wait));
    assert!(matches!(echo_once_step(ChannelMsg::Other), EchoStep::Wait));
}

#[test]
fn forward_tracking_records_request_then_cancel() {
    let mut server = ForwardTrackingServer::new();
    assert_eq!(server.state, FORWARD_NONE);
    assert!(!cancel_processed(server.state));
    let mut port = 9090;
    assert!(server.tcpip_forward("127.0.0.1", &mut port));
    assert_eq!(port, 9090);
    assert_eq!(server.state, FORWARD_REQUESTED);
    assert!(!cancel_processed(server.state));
    assert!(server.cancel_tcpip_forward("127.0.0.1", 9090));
    assert_eq!(server.state, FORWARD_CANCELLED);
    assert!(cancel_processed(server.state));
    assert_eq!(server.auth_publickey("user", &some_key()), Auth::Accept);
}

#[test]
fn echo_server_auth_and_data_leave_the_number_alone() {
    let mut server = Server::new();
    let mut handler = server.new_client();
    let _ = server.new_client();
    assert_eq!(handler.auth_publickey("user", &some_key()), Auth::Accept);
    let _ = handler.data(ChannelId(3), b"abc");
    assert_eq!(handler.id, 0);
    assert_eq!(server.id, 2);
}

#[test]
fn default_server_hands_out_copies_of_itself() {
    let mut server = DefaultServer;
    let handler = server.new_client();
    assert_eq!(handler, DefaultServer);
    assert_eq!(server, DefaultServer);
}

#[test]
fn echo_server_registration_grows_the_table_once_per_channel() {
    let mut server = Server::new();
    let handler = server.new_client();
    let mut clients: ClientRegistry<u8> = ClientRegistry::new();
    assert!(handler.channel_open_session(&mut clients, ChannelId(0), 1));
    assert!(handler.channel_open_session(&mut clients, ChannelId(0), 2));
    assert_eq!(clients.len(), 1);
    assert_eq!(clients.get(0, ChannelId(0)), Some(&2));
}
