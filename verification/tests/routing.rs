use x2ssh::config::VpnConfig;
use x2ssh::net::{IpAddress, IpNetwork};
use x2ssh::route_table::RouteTable;
use x2ssh::routing::{
    default_route_query, parse_default_route, RouteCommand, RouteInfo, RoutingError,
    RoutingManager,
};

fn row(destination: &str, gateway: Option<IpAddress>, interface: &str) -> RouteInfo {
    RouteInfo {
        destination: IpNetwork::parse(destination).unwrap(),
        gateway,
        interface: interface.to_string(),
    }
}

fn table(rows: Vec<RouteInfo>) -> RouteTable {
    let mut table = RouteTable::new();
    for r in rows {
        assert!(table.add(r));
    }
    table
}

fn home_rows() -> Vec<RouteInfo> {
    vec![
        row("0.0.0.0/0", Some(IpAddress::v4(192, 168, 1, 1)), "eth0"),
        row("192.168.1.0/24", None, "eth0"),
    ]
}

fn home_table() -> RouteTable {
    table(home_rows())
}

fn captured(table: &RouteTable) -> Option<RouteInfo> {
    table.default_route()
}

fn vpn_config(exclude: &[&str]) -> VpnConfig {
    VpnConfig {
        exclude: exclude.iter().map(|s| s.to_string()).collect(),
        ..Default::default()
    }
}

fn args_of(plan: &[RouteCommand]) -> Vec<String> {
    plan.iter().map(|c| c.args().join(" ")).collect()
}

#[test]
fn setup_plan_in_order() {
    let mut manager = RoutingManager::new();
    let table = home_table();
    let plan = manager
        .setup(
            &vpn_config(&["10.0.0.0/8", "172.16.0.0/12"]),
            IpAddress::v4(203, 0, 113, 7),
            captured(&table),
        )
        .unwrap();
    assert_eq!(
        args_of(&plan),
        vec![
            "route add 203.0.113.7/32 via 192.168.1.1 dev eth0",
            "route del default",
            "route add default via 10.8.0.1 dev tun-x2ssh",
            "route add 10.0.0.0/8 via 192.168.1.1 dev eth0",
            "route add 172.16.0.0/12 via 192.168.1.1 dev eth0",
        ]
    );
}

#[test]
fn cleanup_plan_in_order() {
    let mut manager = RoutingManager::new();
    let table = home_table();
    manager
        .setup(
            &vpn_config(&["10.0.0.0/8"]),
            IpAddress::v4(203, 0, 113, 7),
            captured(&table),
        )
        .unwrap();
    let plan = manager.cleanup();
    assert_eq!(
        args_of(&plan),
        vec![
            "route del default",
            "route add default via 192.168.1.1 dev eth0",
            "route del 203.0.113.7/32",
            "route del 10.0.0.0/8",
        ]
    );
    let again = manager.cleanup();
    assert_eq!(
        args_of(&again),
        vec!["route del default", "route add default via 192.168.1.1 dev eth0"]
    );
}

#[test]
fn setup_then_cleanup_restores_the_table() {
    let before = home_table();
    let mut table = home_table();
    let mut manager = RoutingManager::new();
    let plan = manager
        .setup(
            &vpn_config(&["10.0.0.0/8", "172.16.0.0/12", "10.0.0.0/8"]),
            IpAddress::v4(203, 0, 113, 7),
            captured(&table),
        )
        .unwrap();
    table.apply_all(&plan);
    assert!(!table.same_routes(&before));
    let tunnel = table.default_route().unwrap();
    assert_eq!(tunnel.gateway, Some(IpAddress::v4(10, 8, 0, 1)));
    assert_eq!(tunnel.interface, "tun-x2ssh");
    for added in ["203.0.113.7/32", "10.0.0.0/8", "172.16.0.0/12"] {
        let found = table.lookup(IpNetwork::parse(added).unwrap()).unwrap();
        assert_eq!(found.gateway, Some(IpAddress::v4(192, 168, 1, 1)));
        assert_eq!(found.interface, "eth0");
    }
    let undo = manager.cleanup();
    table.apply_all(&undo);
    assert!(table.same_routes(&before));
    assert!(before.same_routes(&table));
}

#[test]
fn setup_then_cleanup_without_a_default_route() {
    let rows = vec![row("192.168.1.0/24", None, "eth0")];
    let before = table(rows.clone());
    let mut table = table(rows);
    let mut manager = RoutingManager::new();
    let plan = manager
        .setup(&vpn_config(&["10.0.0.0/8"]), IpAddress::v4(203, 0, 113, 7), captured(&table))
        .unwrap();
    assert_eq!(
        args_of(&plan),
        vec!["route del default", "route add default via 10.8.0.1 dev tun-x2ssh"]
    );
    table.apply_all(&plan);
    assert!(!table.same_routes(&before));
    let undo = manager.cleanup();
    assert_eq!(args_of(&undo), vec!["route del default"]);
    table.apply_all(&undo);
    assert!(table.same_routes(&before));
}

#[test]
fn default_route_without_gateway_is_not_put_back() {
    let rows = vec![row("0.0.0.0/0", None, "ppp0")];
    let before = table(rows.clone());
    let mut table = table(rows);
    let mut manager = RoutingManager::new();
    let plan = manager
        .setup(&vpn_config(&[]), IpAddress::v4(203, 0, 113, 7), captured(&table))
        .unwrap();
    assert_eq!(
        args_of(&plan),
        vec![
            "route add 203.0.113.7/32 dev ppp0",
            "route del default",
            "route add default via 10.8.0.1 dev tun-x2ssh",
        ]
    );
    table.apply_all(&plan);
    let undo = manager.cleanup();
    assert_eq!(args_of(&undo), vec!["route del default", "route del 203.0.113.7/32"]);
    table.apply_all(&undo);
    assert!(!table.same_routes(&before));
    assert!(table.same_routes(&RouteTable::new()));
}

#[test]
fn route_already_in_the_table_is_lost_by_a_cleanup() {
    let mut rows = home_rows();
    rows.push(row("10.0.0.0/8", Some(IpAddress::v4(192, 168, 1, 254)), "eth0"));
    let before = table(rows.clone());
    let mut table = table(rows);
    let mut manager = RoutingManager::new();
    let plan = manager
        .setup(&vpn_config(&["10.0.0.0/8"]), IpAddress::v4(203, 0, 113, 7), captured(&table))
        .unwrap();
    table.apply_all(&plan);
    let kept = table.lookup(IpNetwork::parse("10.0.0.0/8").unwrap()).unwrap();
    assert_eq!(kept.gateway, Some(IpAddress::v4(192, 168, 1, 254)));
    table.apply_all(&manager.cleanup());
    assert!(table.lookup(IpNetwork::parse("10.0.0.0/8").unwrap()).is_none());
    assert!(!table.same_routes(&before));
}

#[test]
fn table_changes_one_by_one() {
    let mut table = RouteTable::new();
    assert!(table.default_route().is_none());
    table.apply(&RouteCommand::DeleteDefault);
    assert!(table.same_routes(&RouteTable::new()));
    table.apply(&RouteCommand::AddDefault {
        gateway: IpAddress::v4(10, 0, 0, 1),
        interface: "eth0".to_string(),
    });
    table.apply(&RouteCommand::AddDefault {
        gateway: IpAddress::v4(10, 0, 0, 2),
        interface: "eth1".to_string(),
    });
    let default = table.default_route().unwrap();
    assert_eq!(default.destination, IpNetwork::default_v4());
    assert_eq!(default.gateway, Some(IpAddress::v4(10, 0, 0, 1)));
    assert_eq!(default.interface, "eth0");
    let net = IpNetwork::parse("10.0.0.0/8").unwrap();
    table.apply(&RouteCommand::AddRoute {
        destination: net,
        gateway: None,
        interface: "eth0".to_string(),
    });
    assert!(!table.add(row("10.0.0.0/8", None, "eth9")));
    assert_eq!(table.lookup(net).unwrap().interface, "eth0");
    table.apply(&RouteCommand::DeleteRoute { destination: net });
    assert!(table.lookup(net).is_none());
    assert!(!table.remove(net));
    assert!(table.remove(IpNetwork::default_v4()));
    assert!(table.same_routes(&RouteTable::new()));
}

#[test]
fn tables_compare_without_regard_to_order() {
    let a = table(vec![row("10.0.0.0/8", None, "eth0"), row("172.16.0.0/12", None, "eth1")]);
    let b = table(vec![row("172.16.0.0/12", None, "eth1"), row("10.0.0.0/8", None, "eth0")]);
    let c = table(vec![row("172.16.0.0/12", None, "eth1"), row("10.0.0.0/8", None, "eth9")]);
    let d = table(vec![row("10.0.0.0/8", None, "eth0")]);
    let e = table(vec![
        row("10.0.0.0/8", Some(IpAddress::v4(1, 1, 1, 1)), "eth0"),
        row("172.16.0.0/12", None, "eth1"),
    ]);
    assert!(a.same_routes(&b));
    assert!(b.same_routes(&a));
    assert!(!a.same_routes(&c));
    assert!(!a.same_routes(&d));
    assert!(!d.same_routes(&a));
    assert!(!a.same_routes(&e));
}

#[test]
fn setup_refuses_a_bad_server_address() {
    let mut manager = RoutingManager::new();
    let config = VpnConfig {
        server_address: "10.8.0.1".to_string(),
        exclude: vec!["also bad".to_string()],
        ..Default::default()
    };
    let err = manager
        .setup(&config, IpAddress::v4(203, 0, 113, 7), captured(&home_table()))
        .unwrap_err();
    assert!(matches!(err, RoutingError::InvalidServerAddress(_)));
    assert_eq!(args_of(&manager.cleanup()), vec!["route del default"]);
}

#[test]
fn setup_refuses_the_first_bad_exclusion() {
    let mut manager = RoutingManager::new();
    let err = manager
        .setup(
            &vpn_config(&["10.0.0.0/8", "not-a-net", "also/bad"]),
            IpAddress::v4(203, 0, 113, 7),
            captured(&home_table()),
        )
        .unwrap_err();
    assert!(
        matches!(&err, RoutingError::InvalidExclusion { index: 1, text } if text == "not-a-net")
    );
    assert_eq!(args_of(&manager.cleanup()), vec!["route del default"]);
}

#[test]
fn command_arguments() {
    assert_eq!(default_route_query(), vec!["route", "show", "default"]);
    assert_eq!(RouteCommand::DeleteDefault.args(), vec!["route", "del", "default"]);
    assert_eq!(
        RouteCommand::AddDefault {
            gateway: IpAddress::v4(10, 8, 0, 1),
            interface: "tun-x2ssh".to_string()
        }
        .args(),
        vec!["route", "add", "default", "via", "10.8.0.1", "dev", "tun-x2ssh"]
    );
    assert_eq!(
        RouteCommand::AddRoute {
            destination: IpNetwork::parse("10.0.0.0/8").unwrap(),
            gateway: Some(IpAddress::v4(192, 168, 1, 1)),
            interface: "eth0".to_string()
        }
        .args(),
        vec!["route", "add", "10.0.0.0/8", "via", "192.168.1.1", "dev", "eth0"]
    );
    assert_eq!(
        RouteCommand::AddRoute {
            destination: IpNetwork::parse("fd00::/8").unwrap(),
            gateway: None,
            interface: "eth0".to_string()
        }
        .args(),
        vec!["route", "add", "fd00::/8", "dev", "eth0"]
    );
    assert_eq!(
        RouteCommand::DeleteRoute { destination: IpNetwork::parse("10.0.0.0/8").unwrap() }.args(),
        vec!["route", "del", "10.0.0.0/8"]
    );
}

#[test]
fn default_route_is_read_from_the_first_line() {
    let route =
        parse_default_route("default via 192.168.1.1 dev eth0 proto dhcp metric 100\n").unwrap();
    assert_eq!(route.destination, IpNetwork::default_v4());
    assert_eq!(route.gateway, Some(IpAddress::v4(192, 168, 1, 1)));
    assert_eq!(route.interface, "eth0");

    let two = parse_default_route(
        "default via 10.0.0.1 dev wlan0\ndefault via 192.168.1.1 dev eth0 metric 200\n",
    )
    .unwrap();
    assert_eq!(two.gateway, Some(IpAddress::v4(10, 0, 0, 1)));
    assert_eq!(two.interface, "wlan0");
}

#[test]
fn default_route_without_gateway_or_interface() {
    let route = parse_default_route("default dev ppp0 scope link").unwrap();
    assert_eq!(route.gateway, None);
    assert_eq!(route.interface, "ppp0");

    assert!(parse_default_route("").is_none());
    assert!(parse_default_route("\ndefault via 10.0.0.1 dev eth0").is_none());
    assert!(parse_default_route("default via 192.168.1.1").is_none());
    assert!(parse_default_route("default via 192.168.1.1 dev").is_none());
}

#[test]
fn default_route_takes_the_last_keyword() {
    let route = parse_default_route("default via 10.0.0.1 dev eth0 via bogus dev eth1").unwrap();
    assert_eq!(route.gateway, None);
    assert_eq!(route.interface, "eth1");

    let v6 = parse_default_route("default via fe80::1 dev eth0").unwrap();
    assert_eq!(v6.gateway, None);
}
