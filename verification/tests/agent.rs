use x2ssh::agent::{
    deploy, deploy_command, parse_agent_args, start, start_command, AgentArgsError, AgentChannel,
    AgentError, DeployStep, RecvStep, AGENT_MTU, AGENT_PATH,
};
use x2ssh::buffer::PacketBuffer;
use x2ssh::framing::write_framed;
use x2ssh::transport::ChannelEvent;

fn data(bytes: &[u8]) -> Option<ChannelEvent> {
    Some(ChannelEvent::Data(bytes.to_vec()))
}

fn framed(packets: &[&[u8]]) -> Vec<u8> {
    let mut out = Vec::new();
    for p in packets {
        write_framed(&mut out, p).unwrap();
    }
    out
}

#[test]
fn agent_commands() {
    assert_eq!(AGENT_PATH, "/tmp/x2ssh-agent");
    assert_eq!(deploy_command(), "cat > /tmp/x2ssh-agent && chmod +x /tmp/x2ssh-agent");
    assert_eq!(start_command("10.8.0.1/24"), "sudo /tmp/x2ssh-agent --ip 10.8.0.1/24");
    let (command, mut channel) = start("10.9.0.1/24");
    assert_eq!(command, "sudo /tmp/x2ssh-agent --ip 10.9.0.1/24");
    assert!(matches!(channel.recv_packet(None), RecvStep::NextMessage));
}

#[test]
fn deployment_succeeds_on_status_zero() {
    assert_eq!(deploy(&ChannelEvent::Other), DeployStep::NextMessage);
    assert_eq!(deploy(&ChannelEvent::Eof), DeployStep::NextMessage);
    assert_eq!(deploy(&ChannelEvent::ExitStatus(0)), DeployStep::Done(Ok(())));
}

#[test]
fn deployment_fails_on_other_status() {
    assert_eq!(deploy(&ChannelEvent::Data(b"noise".to_vec())), DeployStep::NextMessage);
    assert_eq!(
        deploy(&ChannelEvent::ExtendedData { ext: 1, data: b"cat: error".to_vec() }),
        DeployStep::NextMessage
    );
    assert_eq!(
        deploy(&ChannelEvent::ExitStatus(1)),
        DeployStep::Done(Err(AgentError::DeployFailed { exit_code: 1 }))
    );
    assert_eq!(
        deploy(&ChannelEvent::ExitStatus(u32::MAX)),
        DeployStep::Done(Err(AgentError::DeployFailed { exit_code: u32::MAX }))
    );
}

#[test]
fn deployment_without_status_counts_as_success() {
    assert_eq!(deploy(&ChannelEvent::Closed), DeployStep::Done(Ok(())));
}

#[test]
fn send_packet_frames_the_packet() {
    let channel = AgentChannel::new();
    assert_eq!(channel.send_packet(b"abc"), Ok(vec![0, 0, 0, 3, b'a', b'b', b'c']));
    assert_eq!(channel.send_packet(b""), Ok(vec![0, 0, 0, 0]));
    let big = vec![0xABu8; 70000];
    let bytes = channel.send_packet(&big).unwrap();
    assert_eq!(&bytes[..4], &[0, 1, 0x11, 0x70]);
    assert_eq!(&bytes[4..], &big[..]);
}

#[test]
fn recv_packet_returns_one_packet_per_frame() {
    let mut channel = AgentChannel::new();
    assert!(matches!(channel.recv_packet(None), RecvStep::NextMessage));
    let bytes = framed(&[b"first", b"second", b""]);
    assert!(matches!(channel.recv_packet(data(&bytes)), RecvStep::Packet(p) if p == b"first"));
    assert!(matches!(channel.recv_packet(None), RecvStep::Packet(p) if p == b"second"));
    assert!(matches!(channel.recv_packet(None), RecvStep::Packet(p) if p.is_empty()));
    assert!(matches!(channel.recv_packet(None), RecvStep::NextMessage));
}

#[test]
fn recv_packet_joins_split_frames() {
    let bytes = framed(&[b"hello world", b"x"]);
    for cut in 0..=bytes.len() {
        let mut channel = AgentChannel::new();
        let mut got: Vec<Vec<u8>> = Vec::new();
        for piece in [&bytes[..cut], &bytes[cut..]] {
            let mut step = channel.recv_packet(data(piece));
            while let RecvStep::Packet(p) = step {
                got.push(p);
                step = channel.recv_packet(None);
            }
            assert!(matches!(step, RecvStep::NextMessage));
        }
        assert_eq!(got, vec![b"hello world".to_vec(), b"x".to_vec()]);
    }
}

#[test]
fn recv_packet_byte_by_byte() {
    let bytes = framed(&[b"ab", b"cde"]);
    let mut channel = AgentChannel::new();
    let mut got: Vec<Vec<u8>> = Vec::new();
    for b in &bytes {
        if let RecvStep::Packet(p) = channel.recv_packet(data(&[*b])) {
            got.push(p);
        }
    }
    assert_eq!(got, vec![b"ab".to_vec(), b"cde".to_vec()]);
}

#[test]
fn recv_packet_ends_with_the_stream() {
    let mut channel = AgentChannel::new();
    assert!(matches!(channel.recv_packet(data(&[0, 0, 0, 9, 1, 2])), RecvStep::NextMessage));
    assert!(matches!(channel.recv_packet(Some(ChannelEvent::Other)), RecvStep::NextMessage));
    assert!(matches!(
        channel.recv_packet(Some(ChannelEvent::ExitStatus(0))),
        RecvStep::NextMessage
    ));
    assert!(matches!(channel.recv_packet(Some(ChannelEvent::Eof)), RecvStep::EndOfStream));
    assert!(matches!(channel.recv_packet(Some(ChannelEvent::Closed)), RecvStep::EndOfStream));
    assert!(matches!(channel.recv_packet(None), RecvStep::NextMessage));
}

#[test]
fn close_asks_for_the_channel_once() {
    let mut channel = AgentChannel::new();
    assert!(channel.close());
    assert!(!channel.close());
}

#[test]
fn packet_buffer_takes_whole_frames_only() {
    let mut buffer = PacketBuffer::new();
    assert_eq!(buffer.len(), 0);
    assert!(!buffer.has_packet());
    assert_eq!(buffer.take_packet(), None);
    assert!(buffer.push_data(&[0, 0, 0]));
    assert!(!buffer.has_packet());
    assert!(buffer.push_data(&[2, 7]));
    assert_eq!(buffer.len(), 5);
    assert!(!buffer.has_packet());
    assert_eq!(buffer.take_packet(), None);
    assert_eq!(buffer.len(), 5);
    assert!(buffer.push_data(&[8, 0, 0]));
    assert!(buffer.has_packet());
    assert_eq!(buffer.take_packet(), Some(vec![7, 8]));
    assert_eq!(buffer.len(), 2);
    assert!(buffer.push_data(&[0, 0]));
    assert_eq!(buffer.take_packet(), Some(vec![]));
    assert_eq!(buffer.len(), 0);
}

#[test]
fn packet_buffer_large_length() {
    let mut buffer = PacketBuffer::new();
    assert!(buffer.push_data(&[0x01, 0x02, 0x03, 0x04]));
    assert!(buffer.push_data(&vec![5u8; 1000]));
    assert!(!buffer.has_packet());
    assert_eq!(buffer.take_packet(), None);
    assert_eq!(buffer.len(), 1004);
}

fn argv(args: &[&str]) -> Vec<String> {
    args.iter().map(|s| s.to_string()).collect()
}

#[test]
fn agent_arguments() {
    let parsed = parse_agent_args(&argv(&["x2ssh-agent", "--ip", "10.8.0.1/24"])).unwrap();
    assert_eq!(parsed.address, "10.8.0.1");
    assert_eq!(parsed.prefix_len, 24);
    assert_eq!(AGENT_MTU, 1400);
    let odd = parse_agent_args(&argv(&["x2ssh-agent", "--ip", "host/8/extra"]));
    assert_eq!(odd.err(), Some(AgentArgsError::InvalidPrefix));
    let empty_addr = parse_agent_args(&argv(&["x2ssh-agent", "--ip", "/0"])).unwrap();
    assert_eq!(empty_addr.address, "");
    assert_eq!(empty_addr.prefix_len, 0);
}

#[test]
fn agent_arguments_refused() {
    let usage = Some(AgentArgsError::Usage);
    assert_eq!(parse_agent_args(&argv(&[])).err(), usage);
    assert_eq!(parse_agent_args(&argv(&["x2ssh-agent"])).err(), usage);
    assert_eq!(parse_agent_args(&argv(&["x2ssh-agent", "--ip"])).err(), usage);
    assert_eq!(parse_agent_args(&argv(&["x2ssh-agent", "--addr", "10.8.0.1/24"])).err(), usage);
    assert_eq!(
        parse_agent_args(&argv(&["x2ssh-agent", "--ip", "10.8.0.1/24", "more"])).err(),
        usage
    );
    assert_eq!(
        parse_agent_args(&argv(&["x2ssh-agent", "--ip", "10.8.0.1"])).err(),
        Some(AgentArgsError::MissingPrefix)
    );
    assert_eq!(
        parse_agent_args(&argv(&["x2ssh-agent", "--ip", "10.8.0.1/"])).err(),
        Some(AgentArgsError::InvalidPrefix)
    );
    assert_eq!(
        parse_agent_args(&argv(&["x2ssh-agent", "--ip", "10.8.0.1/256"])).err(),
        Some(AgentArgsError::InvalidPrefix)
    );
    assert_eq!(
        parse_agent_args(&argv(&["x2ssh-agent", "--ip", "10.8.0.1/-1"])).err(),
        Some(AgentArgsError::InvalidPrefix)
    );
}
