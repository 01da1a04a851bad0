use async_resol_vbus::tcp_server_handshake::parse_channel;
use async_resol_vbus::{Error, IntoError, TcpClientHandshake, TcpServerHandshake};

fn message<T: std::fmt::Debug>(r: Option<Result<T, Error>>) -> String {
    r.unwrap().unwrap_err().message().to_string()
}

#[test]
fn tcp_client_handshake_test() {
    let mut server = TcpServerHandshake::new();
    let mut client = TcpClientHandshake::new();

    // The greeting.
    assert_eq!("+HELLO\r\n", TcpServerHandshake::greeting());
    client.extend_from_slice(TcpServerHandshake::greeting().as_bytes());
    assert_eq!(Some(Ok(())), client.read_reply());

    // CONNECT, PASS, CHANNEL and DATA, each accepted with +OK.
    server.extend_from_slice(TcpClientHandshake::connect_command("via_tag").as_bytes());
    let line = server.receive_line().unwrap().unwrap();
    let (command, args) = TcpServerHandshake::split_command(&line);
    assert!(!TcpServerHandshake::is_quit(&command));
    let (reply, value) = TcpServerHandshake::respond(TcpServerHandshake::connect_argument(&command, args));
    assert_eq!(Some("via_tag".to_string()), value);
    assert_eq!("+OK\r\n", reply);
    client.extend_from_slice(reply.as_bytes());
    assert_eq!(Some(Ok(())), client.read_reply());

    server.extend_from_slice(TcpClientHandshake::pass_command("password").as_bytes());
    let line = server.receive_line().unwrap().unwrap();
    let (command, args) = TcpServerHandshake::split_command(&line);
    let (reply, value) = TcpServerHandshake::respond(TcpServerHandshake::pass_argument(&command, args));
    assert_eq!(Some("password".to_string()), value);
    client.extend_from_slice(reply.as_bytes());
    assert_eq!(Some(Ok(())), client.read_reply());

    server.extend_from_slice(TcpClientHandshake::channel_command(1).as_bytes());
    let line = server.receive_line().unwrap().unwrap();
    let (command, args) = TcpServerHandshake::split_command(&line);
    let (reply, value) = TcpServerHandshake::respond(TcpServerHandshake::channel_argument(&command, args));
    assert_eq!(Some(1), value);
    client.extend_from_slice(reply.as_bytes());
    assert_eq!(Some(Ok(())), client.read_reply());

    server.extend_from_slice(TcpClientHandshake::data_command().as_bytes());
    let line = server.receive_line().unwrap().unwrap();
    let (command, args) = TcpServerHandshake::split_command(&line);
    let (reply, value) = TcpServerHandshake::respond(TcpServerHandshake::data_argument(&command, &args));
    assert_eq!(Some(()), value);
    client.extend_from_slice(reply.as_bytes());
    assert_eq!(Some(Ok(())), client.read_reply());

    // Nothing is left over on either side.
    assert!(server.receive_line().is_none());
    assert!(client.read_reply().is_none());
}

#[test]
fn client_command_lines() {
    assert_eq!("CONNECT via_tag\r\n", TcpClientHandshake::connect_command("via_tag"));
    assert_eq!("PASS vbus\r\n", TcpClientHandshake::pass_command("vbus"));
    assert_eq!("CHANNEL 0\r\n", TcpClientHandshake::channel_command(0));
    assert_eq!("CHANNEL 255\r\n", TcpClientHandshake::channel_command(255));
    assert_eq!("DATA\r\n", TcpClientHandshake::data_command());
    assert_eq!("QUIT\r\n", TcpClientHandshake::quit_command());
    assert_eq!("X a b\r\n", TcpClientHandshake::command_line("X", Some("a b")));
}

#[test]
fn client_classifies_replies() {
    let mut client = TcpClientHandshake::new();
    client.extend_from_slice(b"+OK");
    assert_eq!(None, client.read_reply());
    client.extend_from_slice(b"\r\n-ERROR no\r\nHELLO\n\n+x\n");
    assert_eq!(Some(Ok(())), client.read_reply());
    assert_eq!("Negative reply", message(client.read_reply()));
    assert_eq!("Unexpected reply", message(client.read_reply()));
    assert_eq!("Unexpected reply", message(client.read_reply()));
    assert_eq!(Some(Ok(())), client.read_reply());
    assert_eq!(None, client.read_reply());
}

#[test]
fn server_splits_commands() {
    let (command, args) = TcpServerHandshake::split_command("  connect \t via tag  \r");
    assert_eq!("CONNECT", command);
    assert_eq!(Some("via tag".to_string()), args);
    let (command, args) = TcpServerHandshake::split_command("data");
    assert_eq!("DATA", command);
    assert_eq!(None, args);
    let (command, args) = TcpServerHandshake::split_command("");
    assert_eq!("", command);
    assert_eq!(None, args);
}

#[test]
fn server_line_errors() {
    let mut server = TcpServerHandshake::new();
    server.extend_from_slice(b"PASS \xff\n");
    assert!(server.receive_line().unwrap().is_err());
    // The line that is not UTF-8 stays.
    assert!(server.receive_line().unwrap().is_err());
    let mut server = TcpServerHandshake::new();
    server.extend_from_slice(b"QUIT\r\nDATA");
    let line = server.receive_line().unwrap().unwrap();
    assert_eq!("QUIT\r", line);
    let (command, _) = TcpServerHandshake::split_command(&line);
    assert!(TcpServerHandshake::is_quit(&command));
    let (reply, err) = TcpServerHandshake::quit_outcome();
    assert_eq!("+OK\r\n", reply);
    assert_eq!("Received QUIT command", err.message());
    assert!(server.receive_line().is_none());
}

#[test]
fn server_validator_replies() {
    let cmd = |s: &str| s.to_string();
    let arg = |s: &str| Some(s.to_string());
    assert_eq!(Err("-ERROR Expected CONNECT command\r\n"), TcpServerHandshake::connect_argument(&cmd("PASS"), arg("x")));
    assert_eq!(Err("-ERROR Expected argument\r\n"), TcpServerHandshake::connect_argument(&cmd("CONNECT"), None));
    assert_eq!(Err("-ERROR Expected PASS command\r\n"), TcpServerHandshake::pass_argument(&cmd("CONNECT"), arg("x")));
    assert_eq!(Err("-ERROR Expected argument\r\n"), TcpServerHandshake::pass_argument(&cmd("PASS"), None));
    assert_eq!(Err("-ERROR Expected CHANNEL command\r\n"), TcpServerHandshake::channel_argument(&cmd("DATA"), arg("1")));
    assert_eq!(Err("-ERROR Expected argument\r\n"), TcpServerHandshake::channel_argument(&cmd("CHANNEL"), None));
    assert_eq!(
        Err("-ERROR Expected 8 bit number argument\r\n"),
        TcpServerHandshake::channel_argument(&cmd("CHANNEL"), arg("256"))
    );
    assert_eq!(Ok(7), TcpServerHandshake::channel_argument(&cmd("CHANNEL"), arg("+7")));
    assert_eq!(Err("-ERROR Expected DATA command\r\n"), TcpServerHandshake::data_argument(&cmd("QUIT"), &None));
    assert_eq!(Err("-ERROR Unexpected argument\r\n"), TcpServerHandshake::data_argument(&cmd("DATA"), &arg("x")));

    let (reply, value) = TcpServerHandshake::respond::<u8>(Err("-ERROR Expected argument\r\n"));
    assert_eq!("-ERROR Expected argument\r\n", reply);
    assert_eq!(None, value);
}

#[test]
fn channel_numbers_parse_like_u8() {
    for s in ["0", "7", "+12", "007", "255", "256", "", "+", "-1", "1 2", "x", "99999999999999999999"] {
        assert_eq!(s.parse::<u8>().ok(), parse_channel(s), "{}", s);
    }
}

#[test]
fn errors_compare_by_message() {
    let a = Error::new("Reached EOF");
    assert_eq!("Reached EOF", a.message());
    assert_eq!(a, "Reached EOF".into_error());
    assert_eq!(a, String::from("Reached EOF").into_error());
    assert_ne!(a, Error::new("Negative reply"));
}
