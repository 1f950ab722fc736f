use x2ssh::net::{IpAddress, SocketAddress};
use x2ssh::retry::RetryPolicy;
use x2ssh::transport::{
    check_auth, exec_success, on_channel_message, on_channel_send, on_client_read,
    on_client_write, ChannelEvent, CopyAction, ExecResult, ForwardAction, ReconnectStep,
    Transport, TransportConfig, TransportError,
};

fn config(policy: RetryPolicy) -> TransportConfig {
    TransportConfig {
        retry_policy: policy,
        health_interval_ms: 1000,
        key_path: Some("/keys/id_ed25519".to_string()),
        user: "root".to_string(),
        host: "example.org".to_string(),
        port: 2222,
    }
}

fn transport(policy: RetryPolicy) -> Transport {
    Transport::connect(config(policy), Ok(())).unwrap()
}

fn failure() -> TransportError {
    TransportError::Session("connection refused".to_string())
}

#[test]
fn connect_request_names_key_address_and_user() {
    let request = config(RetryPolicy::default()).connect_request().unwrap();
    assert_eq!(request.key_path, "/keys/id_ed25519");
    assert_eq!(request.address, "example.org:2222");
    assert_eq!(request.user, "root");

    let mut other = config(RetryPolicy::default());
    other.host = "255.255.255.255".to_string();
    other.port = 22;
    assert_eq!(other.connect_request().unwrap().address, "255.255.255.255:22");
    other.port = 0;
    assert_eq!(other.connect_request().unwrap().address, "255.255.255.255:0");
    other.port = 65535;
    assert_eq!(other.connect_request().unwrap().address, "255.255.255.255:65535");
}

#[test]
fn connect_request_without_identity_is_refused() {
    let mut no_key = config(RetryPolicy::default());
    no_key.key_path = None;
    let err = no_key.connect_request().unwrap_err();
    assert!(matches!(err, TransportError::NoIdentity));
    assert_eq!(err.message(), "No identity file specified");
}

#[test]
fn refused_key_is_an_auth_error() {
    assert!(check_auth(true).is_ok());
    let err = check_auth(false).unwrap_err();
    assert!(matches!(err, TransportError::AuthFailed));
    assert_eq!(err.message(), "Authentication failed");
}

#[test]
fn first_connect_is_one_attempt() {
    let made = Transport::connect(config(RetryPolicy::default()), Ok(())).unwrap();
    assert_eq!(made.settings().host, "example.org");
    assert_eq!(made.settings().port, 2222);
    let err = Transport::connect(config(RetryPolicy::default()), Err(failure())).err().unwrap();
    assert!(matches!(err, TransportError::Session(reason) if reason == "connection refused"));
}

#[test]
fn reconnect_success_ends_the_loop() {
    let t = transport(RetryPolicy::default());
    assert!(matches!(t.reconnect(0, Ok(())), ReconnectStep::Connected));
    assert!(matches!(t.reconnect(9, Ok(())), ReconnectStep::Connected));
}

#[test]
fn reconnect_backs_off_until_the_limit() {
    let t = transport(RetryPolicy {
        max_attempts: Some(3),
        initial_delay_ms: 100,
        backoff_permille: 2000,
        max_delay_ms: 10000,
    });
    let mut delays = Vec::new();
    let mut attempt = 0;
    let last = loop {
        match t.reconnect(attempt, Err(failure())) {
            ReconnectStep::RetryAfter { delay_ms, next_attempt } => {
                assert_eq!(next_attempt, attempt + 1);
                delays.push(delay_ms);
                attempt = next_attempt;
            }
            other => break other,
        }
    };
    assert_eq!(delays, vec![100, 200, 400]);
    assert_eq!(attempt, 3);
    assert!(
        matches!(last, ReconnectStep::GiveUp(TransportError::Session(reason)) if reason == "connection refused")
    );
}

#[test]
fn reconnect_with_one_attempt_gives_up_after_the_second_failure() {
    let t = transport(RetryPolicy {
        max_attempts: Some(1),
        initial_delay_ms: 10,
        backoff_permille: 1000,
        max_delay_ms: 10,
    });
    assert!(matches!(
        t.reconnect(0, Err(failure())),
        ReconnectStep::RetryAfter { delay_ms: 10, next_attempt: 1 }
    ));
    assert!(matches!(t.reconnect(1, Err(failure())), ReconnectStep::GiveUp(_)));
}

#[test]
fn reconnect_without_limit_never_gives_up() {
    let t = transport(RetryPolicy::default());
    assert!(matches!(
        t.reconnect(1000, Err(failure())),
        ReconnectStep::RetryAfter { delay_ms: 30000, next_attempt: 1001 }
    ));
    assert!(matches!(
        t.reconnect(u32::MAX, Err(failure())),
        ReconnectStep::RetryAfter { delay_ms: 30000, next_attempt: u32::MAX }
    ));
}

#[test]
fn health_check_follows_the_probe() {
    let t = transport(RetryPolicy::default());
    let alive = t.check_alive(Ok(()));
    assert!(alive.is_ok());
    assert!(!t.needs_reconnect(&alive));
    let dead = t.check_alive(Err("channel open failure".to_string()));
    assert!(t.needs_reconnect(&dead));
    let err = dead.unwrap_err();
    assert!(matches!(&err, TransportError::HealthCheck(reason) if reason == "channel open failure"));
    assert_eq!(err.message(), "Health check failed: channel open failure");
}

#[test]
fn forward_opens_a_channel_to_the_first_address() {
    let t = transport(RetryPolicy::default());
    let open = t
        .forward(&vec![
            SocketAddress::new(IpAddress::v4(127, 0, 0, 1), 8080),
            SocketAddress::new(IpAddress::v4(10, 0, 0, 1), 1),
        ])
        .unwrap();
    assert_eq!(open.host, "127.0.0.1");
    assert_eq!(open.port, 8080);
    assert_eq!(open.originator, "127.0.0.1");
    assert_eq!(open.originator_port, 0);

    let v6 = t.forward(&vec![SocketAddress::new(IpAddress::V6(1), 65535)]).unwrap();
    assert_eq!(v6.host, "::1");
    assert_eq!(v6.port, 65535);
}

#[test]
fn forward_without_an_address_fails() {
    let t = transport(RetryPolicy::default());
    let err = t.forward(&Vec::new()).unwrap_err();
    assert!(matches!(err, TransportError::NoAddress));
    assert_eq!(err.message(), "No address found");
}

#[test]
fn forward_handles_channel_messages() {
    assert!(matches!(
        on_channel_message(ChannelEvent::Data(b"hello".to_vec())),
        ForwardAction::WriteToClient(data) if data == b"hello"
    ));
    assert!(matches!(on_channel_message(ChannelEvent::Eof), ForwardAction::Finish));
    assert!(matches!(on_channel_message(ChannelEvent::Closed), ForwardAction::Finish));
    assert!(matches!(on_channel_message(ChannelEvent::Other), ForwardAction::NextMessage));
    assert!(matches!(
        on_channel_message(ChannelEvent::ExitStatus(3)),
        ForwardAction::NextMessage
    ));
    assert!(matches!(
        on_channel_message(ChannelEvent::ExtendedData { ext: 1, data: vec![1] }),
        ForwardAction::NextMessage
    ));
    assert!(matches!(on_client_write(true, true), ForwardAction::NextMessage));
    assert!(matches!(on_client_write(true, false), ForwardAction::Finish));
    assert!(matches!(on_client_write(false, true), ForwardAction::Finish));
    assert!(matches!(on_client_write(false, false), ForwardAction::Finish));
}

#[test]
fn copier_follows_the_client() {
    assert_eq!(on_client_read(Some(0)), CopyAction::CloseChannel);
    assert_eq!(on_client_read(Some(1)), CopyAction::SendToChannel);
    assert_eq!(on_client_read(Some(4096)), CopyAction::SendToChannel);
    assert_eq!(on_client_read(None), CopyAction::Finish);
    assert_eq!(on_channel_send(true), CopyAction::NextRead);
    assert_eq!(on_channel_send(false), CopyAction::Finish);
}

#[test]
fn exec_gathers_output_and_status() {
    let mut result = ExecResult::new();
    assert_eq!(result.exit_code, 0);
    assert!(result.absorb(&ChannelEvent::Data(b"out ".to_vec())));
    assert!(result.absorb(&ChannelEvent::ExtendedData { ext: 1, data: b"err".to_vec() }));
    assert!(result.absorb(&ChannelEvent::ExtendedData { ext: 2, data: b"other".to_vec() }));
    assert!(result.absorb(&ChannelEvent::Data(b"put".to_vec())));
    assert!(result.absorb(&ChannelEvent::Other));
    assert!(result.absorb(&ChannelEvent::ExitStatus(3)));
    assert!(result.absorb(&ChannelEvent::Eof));
    assert!(!result.absorb(&ChannelEvent::Closed));
    assert_eq!(result.stdout, b"out put");
    assert_eq!(result.stderr, b"err");
    assert_eq!(result.exit_code, 3);
    assert!(!result.succeeded());
}

#[test]
fn exec_success_needs_status_zero() {
    let mut ok = ExecResult::new();
    ok.absorb(&ChannelEvent::Data(b"fine".to_vec()));
    ok.absorb(&ChannelEvent::ExitStatus(0));
    assert!(ok.succeeded());
    let same = exec_success(ok).unwrap();
    assert_eq!(same.stdout, b"fine");

    let mut bad = ExecResult::new();
    bad.absorb(&ChannelEvent::ExitStatus(127));
    let err = exec_success(bad).unwrap_err();
    assert!(matches!(err, TransportError::CommandFailed { exit_code: 127 }));
    assert_eq!(err.message(), "Command failed with exit code 127");
}

#[test]
fn error_clone_and_messages() {
    let err = TransportError::Session("boom".to_string());
    assert_eq!(err.clone().message(), "boom");
    assert_eq!(TransportError::CommandFailed { exit_code: 0 }.message(), "Command failed with exit code 0");
    let copy = config(RetryPolicy::default()).clone();
    assert_eq!(copy.user, "root");
    assert_eq!(copy.key_path, Some("/keys/id_ed25519".to_string()));
}

#[test]
fn forward_after_reconnect_goes_to_the_same_destination() {
    let t = transport(RetryPolicy::default());
    let echo = vec![SocketAddress::new(IpAddress::v4(127, 0, 0, 1), 8080)];
    let before = t.forward(&echo).unwrap();
    assert!(matches!(t.reconnect(0, Ok(())), ReconnectStep::Connected));
    assert!(t.check_alive(Ok(())).is_ok());
    let after = t.forward(&echo).unwrap();
    assert_eq!(after.host, before.host);
    assert_eq!(after.port, before.port);
    assert!(matches!(
        on_channel_message(ChannelEvent::Data(b"after".to_vec())),
        ForwardAction::WriteToClient(data) if data == b"after"
    ));
}

#[test]
fn connect_to_a_dead_host_fails_after_one_attempt() {
    let policy = RetryPolicy {
        max_attempts: Some(1),
        initial_delay_ms: 10,
        backoff_permille: 1000,
        max_delay_ms: 10,
    };
    let mut dead = config(policy);
    dead.host = "255.255.255.255".to_string();
    dead.port = 22;
    assert_eq!(dead.connect_request().unwrap().address, "255.255.255.255:22");
    let result = Transport::connect(dead, Err(TransportError::Session("timed out".to_string())));
    assert!(result.is_err(), "Connection to invalid host should fail");
}
