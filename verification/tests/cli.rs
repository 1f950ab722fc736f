use x2ssh::cli::{parse_user_host, Cli, Mode};
use x2ssh::config::VpnConfig;
use x2ssh::net::{IpAddress, SocketAddress};

fn socks_cli(addr: &str) -> Cli {
    let mut cli = Cli::new("user@host.com");
    cli.socks_addr = Some(addr.to_string());
    cli
}

#[test]
fn cli_test_argument_parsing() {
    let cli = socks_cli("1080");
    assert_eq!(cli.destination, "user@host.com");
    assert_eq!(cli.port, 22);
}

#[test]
fn cli_test_user_host_parsing() {
    let (user, host) = parse_user_host("alice@server.com").unwrap();
    assert_eq!(user, "alice");
    assert_eq!(host, "server.com");
}

#[test]
fn cli_test_socks_addr_port_only() {
    let cli = socks_cli("1080");

    let addr = cli.socks_socket_addr().unwrap();
    assert_eq!(addr.port, 1080);
}

#[test]
fn cli_test_socks_addr_full() {
    let cli = socks_cli("127.0.0.1:8080");

    let addr = cli.socks_socket_addr().unwrap();
    assert_eq!(addr.port, 8080);
}

#[test]
fn main_test_argument_parsing() {
    let cli = socks_cli("1080");
    assert_eq!(cli.destination, "user@host.com");
    assert_eq!(cli.port, 22);
    assert!(!cli.vpn);
}

#[test]
fn test_vpn_flag_parsing() {
    let mut cli = Cli::new("user@host.com");
    cli.vpn = true;
    assert!(cli.vpn);
    assert!(cli.socks_addr.is_none());
    assert_eq!(cli.mode(), Ok(Mode::Vpn));
}

#[test]
fn test_vpn_with_overrides() {
    let mut cli = Cli::new("user@host.com");
    cli.vpn = true;
    cli.vpn_client_address = Some("10.9.0.2/24".to_string());
    cli.vpn_server_address = Some("10.9.0.1/24".to_string());
    cli.vpn_mtu = Some(1280);
    cli.vpn_exclude = vec!["192.168.0.0/16".to_string(), "10.0.0.0/8".to_string()];

    assert!(cli.vpn);
    assert_eq!(cli.vpn_client_address, Some("10.9.0.2/24".to_string()));
    assert_eq!(cli.vpn_server_address, Some("10.9.0.1/24".to_string()));
    assert_eq!(cli.vpn_mtu, Some(1280));
    assert_eq!(
        cli.vpn_exclude,
        vec!["192.168.0.0/16".to_string(), "10.0.0.0/8".to_string()]
    );

    let config = cli.vpn_config(None);
    assert_eq!(config.client_address, "10.9.0.2/24");
    assert_eq!(config.server_address, "10.9.0.1/24");
    assert_eq!(config.client_tun, "tun-x2ssh");
    assert_eq!(config.mtu, 1280);
    assert_eq!(config.exclude, vec!["192.168.0.0/16", "10.0.0.0/8"]);
    assert!(config.post_up.is_empty());
    assert!(config.pre_down.is_empty());
}

#[test]
fn test_vpn_post_up_pre_down() {
    let mut cli = Cli::new("user@host.com");
    cli.vpn = true;
    cli.vpn_post_up = vec![
        "sysctl -w net.ipv4.ip_forward=1".to_string(),
        "iptables -t nat -I POSTROUTING -o eth0 -j MASQUERADE".to_string(),
    ];
    cli.vpn_pre_down = vec!["iptables -t nat -D POSTROUTING -o eth0 -j MASQUERADE".to_string()];

    assert!(cli.vpn);
    assert_eq!(
        cli.vpn_post_up,
        vec![
            "sysctl -w net.ipv4.ip_forward=1".to_string(),
            "iptables -t nat -I POSTROUTING -o eth0 -j MASQUERADE".to_string(),
        ]
    );
    assert_eq!(
        cli.vpn_pre_down,
        vec!["iptables -t nat -D POSTROUTING -o eth0 -j MASQUERADE".to_string()]
    );

    let mut file = VpnConfig::default();
    file.post_up = vec!["echo from-file".to_string()];
    file.pre_down = vec!["echo down-from-file".to_string()];
    file.exclude = vec!["172.16.0.0/12".to_string()];
    file.mtu = 1300;
    let config = cli.vpn_config(Some(file));
    assert_eq!(config.post_up, cli.vpn_post_up);
    assert_eq!(config.pre_down, cli.vpn_pre_down);
    assert_eq!(config.exclude, vec!["172.16.0.0/12"]);
    assert_eq!(config.mtu, 1300);
}

#[test]
fn main_test_user_host_parsing() {
    let (user, host) = parse_user_host("alice@server.com").unwrap();
    assert_eq!(user, "alice");
    assert_eq!(host, "server.com");
}

#[test]
fn main_test_socks_addr_port_only() {
    let cli = socks_cli("1080");

    let addr = cli.socks_socket_addr().unwrap();
    assert_eq!(addr.port, 1080);
}

#[test]
fn main_test_socks_addr_full() {
    let cli = socks_cli("127.0.0.1:8080");

    let addr = cli.socks_socket_addr().unwrap();
    assert_eq!(addr.port, 8080);
}

#[test]
fn user_host_splits_at_the_first_at_sign() {
    assert_eq!(
        parse_user_host("a@b@c"),
        Ok(("a".to_string(), "b@c".to_string()))
    );
    assert_eq!(parse_user_host("@host"), Ok(("".to_string(), "host".to_string())));
    assert_eq!(parse_user_host("user@"), Ok(("user".to_string(), "".to_string())));
    assert_eq!(
        parse_user_host("üser@hôst"),
        Ok(("üser".to_string(), "hôst".to_string()))
    );
}

#[test]
fn user_host_without_at_sign_is_refused() {
    assert_eq!(
        parse_user_host("server.com"),
        Err("Expected format: USER@HOST".to_string())
    );
    assert_eq!(parse_user_host(""), Err("Expected format: USER@HOST".to_string()));
    assert_eq!(
        Cli::new("nobody").user_host(),
        Err("Expected format: USER@HOST".to_string())
    );
}

#[test]
fn socks_addr_port_only_listens_on_loopback() {
    let addr = socks_cli("1080").socks_socket_addr().unwrap();
    assert_eq!(
        addr,
        SocketAddress::new(IpAddress::v4(127, 0, 0, 1), 1080)
    );
    assert_eq!(addr, SocketAddress::loopback(1080));
}

#[test]
fn socks_addr_full_keeps_the_address() {
    let addr = socks_cli("192.168.7.9:8080").socks_socket_addr().unwrap();
    assert_eq!(
        addr,
        SocketAddress::new(IpAddress::v4(192, 168, 7, 9), 8080)
    );
    let v6 = socks_cli("[::1]:1081").socks_socket_addr().unwrap();
    assert_eq!(v6, SocketAddress::new(IpAddress::V6(1), 1081));
}

#[test]
fn socks_addr_errors() {
    assert_eq!(
        Cli::new("user@host.com").socks_socket_addr(),
        Err("SOCKS address is required (-D, --socks)".to_string())
    );
    assert_eq!(
        socks_cli("not-an-address").socks_socket_addr(),
        Err("Invalid SOCKS address 'not-an-address': invalid socket address syntax".to_string())
    );
    assert!(socks_cli("70000").socks_socket_addr().is_err());
    assert!(socks_cli("localhost:1080").socks_socket_addr().is_err());
}

#[test]
fn mode_needs_socks_or_vpn() {
    assert_eq!(
        Cli::new("user@host.com").mode(),
        Err("Either --socks (-D) or --vpn must be specified".to_string())
    );
    assert_eq!(socks_cli("1080").mode(), Ok(Mode::Socks));
    let mut both = socks_cli("1080");
    both.vpn = true;
    assert_eq!(both.mode(), Ok(Mode::Socks));
}

#[test]
fn transport_config_from_arguments() {
    let mut cli = socks_cli("1080");
    cli.destination = "alice@server.com".to_string();
    cli.port = 2222;
    cli.identity = Some("/home/alice/.ssh/id_ed25519".to_string());
    cli.retry_max = Some(7);
    cli.retry_delay = 250;
    cli.retry_backoff = 1500;
    cli.retry_max_delay = 8000;
    cli.health_interval = 900;
    let config = cli.transport_config().unwrap();
    assert_eq!(config.user, "alice");
    assert_eq!(config.host, "server.com");
    assert_eq!(config.port, 2222);
    assert_eq!(config.key_path, Some("/home/alice/.ssh/id_ed25519".to_string()));
    assert_eq!(config.health_interval_ms, 900);
    assert_eq!(config.retry_policy.max_attempts, Some(7));
    assert_eq!(config.retry_policy.initial_delay_ms, 250);
    assert_eq!(config.retry_policy.backoff_permille, 1500);
    assert_eq!(config.retry_policy.max_delay_ms, 8000);

    assert_eq!(
        Cli::new("no-at-sign").transport_config().err(),
        Some("Expected format: USER@HOST".to_string())
    );
}

#[test]
fn defaults_of_the_command_line() {
    let cli = Cli::new("user@host.com");
    assert_eq!(cli.port, 22);
    assert_eq!(cli.retry_max, None);
    assert_eq!(cli.retry_delay, 1000);
    assert_eq!(cli.retry_backoff, 2000);
    assert_eq!(cli.retry_max_delay, 30000);
    assert_eq!(cli.health_interval, 5000);
    let config = cli.vpn_config(None);
    assert_eq!(config.client_address, "10.8.0.2/24");
    assert_eq!(config.server_address, "10.8.0.1/24");
    assert_eq!(config.mtu, 1400);
}
