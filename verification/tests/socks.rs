use x2ssh::net::{IpAddress, SocketAddress};
use x2ssh::transport::{
    on_channel_message, on_client_read, ChannelEvent, CopyAction, ForwardAction,
};
use x2ssh::socks::{
    serve, serve_side_done, ReplyCode, ServeAction, SideStep, SocksCommand, SocksError,
    DUPLEX_BUFFER,
};

fn echo() -> SocketAddress {
    SocketAddress::new(IpAddress::v4(127, 0, 0, 1), 8080)
}

#[test]
fn connect_is_proxied_to_the_first_address() {
    let other = SocketAddress::new(IpAddress::v4(10, 0, 0, 1), 80);
    match serve(SocksCommand::TcpConnect, Ok(vec![echo(), other])) {
        ServeAction::Proxy { destination, buffer, bound } => {
            assert_eq!(destination, echo());
            assert_eq!(buffer, 4096);
            assert_eq!(buffer, DUPLEX_BUFFER);
            assert_eq!(bound, SocketAddress::new(IpAddress::v4(127, 0, 0, 1), 0));
        }
        other => panic!("proxy expected, got {:?}", other),
    }
}

#[test]
fn udp_associate_is_dropped() {
    assert!(matches!(serve(SocksCommand::UdpAssociate, Ok(vec![echo()])), ServeAction::Close));
}

#[test]
fn bind_is_refused_with_a_reply() {
    assert!(matches!(
        serve(SocksCommand::TcpBind, Ok(vec![echo()])),
        ServeAction::Refuse {
            reply: ReplyCode::CommandNotSupported,
            error: SocksError::CommandNotSupported
        }
    ));
}

#[test]
fn failed_resolution_is_refused_with_a_reply() {
    for command in [SocksCommand::TcpConnect, SocksCommand::TcpBind, SocksCommand::UdpAssociate] {
        assert!(matches!(
            serve(command, Err("no such host".to_string())),
            ServeAction::Refuse { reply: ReplyCode::GeneralFailure, error: SocksError::Resolve(reason) }
                if reason == "no such host"
        ));
        assert!(matches!(
            serve(command, Ok(Vec::new())),
            ServeAction::Refuse { reply: ReplyCode::GeneralFailure, error: SocksError::NoAddress }
        ));
    }
}

#[test]
fn reply_codes_on_the_wire() {
    assert_eq!(ReplyCode::Succeeded.as_u8(), 0x00);
    assert_eq!(ReplyCode::GeneralFailure.as_u8(), 0x01);
    assert_eq!(ReplyCode::CommandNotSupported.as_u8(), 0x07);
}

#[test]
fn first_error_of_a_side_ends_the_request() {
    assert!(matches!(
        serve_side_done(Err(SocksError::Forward("channel died".to_string())), false),
        SideStep::Fail(SocksError::Forward(reason)) if reason == "channel died"
    ));
    assert!(matches!(
        serve_side_done(Err(SocksError::Proxy("reset".to_string())), true),
        SideStep::Fail(SocksError::Proxy(_))
    ));
    assert!(matches!(serve_side_done(Ok(()), false), SideStep::AwaitOther));
    assert!(matches!(serve_side_done(Ok(()), true), SideStep::Done));
}

#[test]
fn echo_request_is_proxied_and_its_bytes_pass_unchanged() {
    let action = serve(SocksCommand::TcpConnect, Ok(vec![echo()]));
    assert!(matches!(action, ServeAction::Proxy { destination, .. } if destination == echo()));

    let sent = b"hello world".to_vec();
    assert_eq!(on_client_read(Some(sent.len())), CopyAction::SendToChannel);
    match on_channel_message(ChannelEvent::Data(sent.clone())) {
        ForwardAction::WriteToClient(data) => {
            assert_eq!(data.len(), 11);
            assert_eq!(data, b"hello world");
        }
        other => panic!("data expected, got {:?}", other),
    }
    for i in 0..5 {
        let message = format!("message {}", i).into_bytes();
        assert!(matches!(
            on_channel_message(ChannelEvent::Data(message.clone())),
            ForwardAction::WriteToClient(data) if data == message
        ));
    }
}

#[test]
fn large_transfer_passes_unchanged() {
    let data = vec![0xABu8; 100_000];
    match on_channel_message(ChannelEvent::Data(data.clone())) {
        ForwardAction::WriteToClient(back) => {
            assert_eq!(back.len(), 100_000);
            assert_eq!(back, data);
        }
        other => panic!("data expected, got {:?}", other),
    }
}
