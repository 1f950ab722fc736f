//! The routing plan of a VPN session: which routes are captured, added and
//! removed when the tunnel comes up, and how they are put back.
//!
//! Nothing here touches the routing table. A plan is a list of commands for
//! the caller to run, and a model of the table says what they do to it.

use vstd::prelude::*;
use crate::config::{ConfigError, VpnConfig};
use crate::net::{ip_text, ipnet_parse, ipnet_text, ipv4_value, IpAddress, IpNetwork};
use crate::text::{
    find_value_after, first_line, split_whitespace, take_first_line, texts, tokens, value_after,
};

verus! {

/// One row of the routing table.
#[derive(Debug)]
pub struct RouteInfo {
    pub destination: IpNetwork,
    pub gateway: Option<IpAddress>,
    pub interface: String,
}

/// A row of the routing table as plain values.
pub struct Route {
    pub destination: IpNetwork,
    pub gateway: Option<IpAddress>,
    pub interface: Seq<char>,
}

impl View for RouteInfo {
    type V = Route;

    open spec fn view(&self) -> Route {
        Route {
            destination: self.destination,
            gateway: self.gateway,
            interface: self.interface@,
        }
    }
}

impl Clone for RouteInfo {
    fn clone(&self) -> (copy: Self)
        ensures
            copy@ == self@,
    {
        RouteInfo {
            destination: self.destination,
            gateway: self.gateway,
            interface: self.interface.clone(),
        }
    }
}

/// The rows of a list of routes as plain values.
pub open spec fn routes(v: Seq<RouteInfo>) -> Seq<Route> {
    v.map_values(|r: RouteInfo| r@)
}

/// One change to the routing table.
#[derive(Debug)]
#[allow(inconsistent_fields)]
pub enum RouteCommand {
    /// Remove the IPv4 default route.
    DeleteDefault,
    /// Add an IPv4 default route through `gateway` on `interface`.
    AddDefault { gateway: IpAddress, interface: String },
    /// Add a route to `destination` on `interface`, through `gateway` if
    /// there is one.
    AddRoute { destination: IpNetwork, gateway: Option<IpAddress>, interface: String },
    /// Remove the route to `destination`.
    DeleteRoute { destination: IpNetwork },
}

/// A change to the routing table as plain values.
#[allow(inconsistent_fields)]
pub enum RouteOp {
    DeleteDefault,
    AddDefault { gateway: IpAddress, interface: Seq<char> },
    AddRoute { destination: IpNetwork, gateway: Option<IpAddress>, interface: Seq<char> },
    DeleteRoute { destination: IpNetwork },
}

impl View for RouteCommand {
    type V = RouteOp;

    open spec fn view(&self) -> RouteOp {
        match *self {
            RouteCommand::DeleteDefault => RouteOp::DeleteDefault,
            RouteCommand::AddDefault { gateway, interface } => RouteOp::AddDefault {
                gateway,
                interface: interface@,
            },
            RouteCommand::AddRoute { destination, gateway, interface } => RouteOp::AddRoute {
                destination,
                gateway,
                interface: interface@,
            },
            RouteCommand::DeleteRoute { destination } => RouteOp::DeleteRoute { destination },
        }
    }
}

/// The changes of a list of commands as plain values.
pub open spec fn ops(v: Seq<RouteCommand>) -> Seq<RouteOp> {
    v.map_values(|c: RouteCommand| c@)
}

impl RouteOp {
    /// Every network that the change names has a prefix within its limit.
    pub open spec fn wf(&self) -> bool {
        match *self {
            RouteOp::AddRoute { destination, .. } => destination.wf(),
            RouteOp::DeleteRoute { destination } => destination.wf(),
            _ => true,
        }
    }

    /// The arguments to the `ip` tool that make the change.
    pub open spec fn args(&self) -> Seq<Seq<char>> {
        match *self {
            RouteOp::DeleteDefault => seq!["route"@, "del"@, "default"@],
            RouteOp::AddDefault { gateway, interface } => seq![
                "route"@,
                "add"@,
                "default"@,
                "via"@,
                ip_text(gateway),
                "dev"@,
                interface,
            ],
            RouteOp::AddRoute { destination, gateway: Some(gw), interface } => seq![
                "route"@,
                "add"@,
                ipnet_text(destination),
                "via"@,
                ip_text(gw),
                "dev"@,
                interface,
            ],
            RouteOp::AddRoute { destination, gateway: None, interface } => seq![
                "route"@,
                "add"@,
                ipnet_text(destination),
                "dev"@,
                interface,
            ],
            RouteOp::DeleteRoute { destination } => seq!["route"@, "del"@, ipnet_text(destination)],
        }
    }
}

/// The arguments to the `ip` tool that print the IPv4 default route.
pub fn default_route_query() -> (args: Vec<String>)
    ensures
        texts(args@) == seq!["route"@, "show"@, "default"@],
{
    let mut args: Vec<String> = Vec::new();
    args.push("route".to_string());
    args.push("show".to_string());
    args.push("default".to_string());
    assert(texts(args@) =~= seq!["route"@, "show"@, "default"@]);
    args
}

impl RouteCommand {
    /// The arguments to the `ip` tool that make the change.
    pub fn args(&self) -> (args: Vec<String>)
        requires
            self@.wf(),
        ensures
            texts(args@) == self@.args(),
    {
        let mut args: Vec<String> = Vec::new();
        args.push("route".to_string());
        match self {
            RouteCommand::DeleteDefault => {
                args.push("del".to_string());
                args.push("default".to_string());
            },
            RouteCommand::AddDefault { gateway, interface } => {
                args.push("add".to_string());
                args.push("default".to_string());
                args.push("via".to_string());
                args.push(gateway.to_text());
                args.push("dev".to_string());
                args.push(interface.clone());
            },
            RouteCommand::AddRoute { destination, gateway, interface } => {
                args.push("add".to_string());
                args.push(net_text(destination));
                match gateway {
                    Some(gw) => {
                        args.push("via".to_string());
                        args.push(gw.to_text());
                    },
                    None => {},
                }
                args.push("dev".to_string());
                args.push(interface.clone());
            },
            RouteCommand::DeleteRoute { destination } => {
                args.push("del".to_string());
                args.push(net_text(destination));
            },
        }
        assert(texts(args@) =~= self@.args());
        args
    }
}

/// The text of a network whose prefix is within its limit.
fn net_text(net: &IpNetwork) -> (text: String)
    requires
        net.wf(),
    ensures
        text@ == ipnet_text(*net),
{
    match net.to_text() {
        Some(t) => t,
        None => String::new(),
    }
}

/// The gateway that a default route names: the address after `via`, where it
/// reads as an IPv4 address.
pub open spec fn gateway_of(words: Seq<Seq<char>>) -> Option<IpAddress> {
    match value_after(words, "via"@, words.len() as int) {
        Some(text) => match ipv4_value(text) {
            Some(bits) => Some(IpAddress::V4(bits)),
            None => None,
        },
        None => None,
    }
}

/// The default route that the first line of the `ip` tool's answer
/// describes. A line that names no interface after `dev` describes none.
pub open spec fn default_route_of(answer: Seq<char>) -> Option<Route> {
    let words = tokens(first_line(answer));
    match value_after(words, "dev"@, words.len() as int) {
        Some(interface) => Some(
            Route {
                destination: IpNetwork::spec_default_v4(),
                gateway: gateway_of(words),
                interface,
            },
        ),
        None => None,
    }
}

/// Reads the default route from what the `ip` tool printed for the query of
/// `default_route_query`.
pub fn parse_default_route(answer: &str) -> (route: Option<RouteInfo>)
    ensures
        route_view(route) == default_route_of(answer@),
{
    let line = take_first_line(answer);
    let words = split_whitespace(line.as_str());
    let interface = match find_value_after(&words, "dev") {
        Some(i) => words[i].clone(),
        None => {
            return None;
        },
    };
    let gateway = match find_value_after(&words, "via") {
        Some(i) => IpAddress::parse_v4(words[i].as_str()),
        None => None,
    };
    Some(RouteInfo { destination: IpNetwork::default_v4(), gateway, interface })
}

/// Why no plan could be made.
#[derive(Debug)]
pub enum RoutingError {
    /// The server address of the tunnel is no `address/prefix`.
    InvalidServerAddress(ConfigError),
    /// The exclusion at `index` is no `address/prefix`; `text` is what was
    /// found.
    InvalidExclusion { index: usize, text: String },
}

impl RoutingError {
    /// The error says that the exclusion at `index`, which reads `text`, is
    /// no network.
    pub open spec fn refuses_exclusion(&self, index: int, text: Seq<char>) -> bool {
        match *self {
            RoutingError::InvalidExclusion { index: i, text: t } => i == index && t@ == text,
            _ => false,
        }
    }

    /// The error says that `text` is no server address.
    pub open spec fn refuses_server_address(&self, text: Seq<char>) -> bool {
        match *self {
            RoutingError::InvalidServerAddress(e) => e.refuses_server_address(text),
            _ => false,
        }
    }
}

/// The host route that keeps the SSH server on the path of the original
/// default route.
pub open spec fn pin_route(original: Route, ssh_server: IpAddress) -> Route {
    Route {
        destination: IpNetwork::spec_host(ssh_server),
        gateway: original.gateway,
        interface: original.interface,
    }
}

/// The route that keeps `net` on the path of the original default route.
pub open spec fn exclusion_route(original: Route, net: IpNetwork) -> Route {
    Route { destination: net, gateway: original.gateway, interface: original.interface }
}

/// The change that adds `route`.
pub open spec fn add_op(route: Route) -> RouteOp {
    RouteOp::AddRoute {
        destination: route.destination,
        gateway: route.gateway,
        interface: route.interface,
    }
}

/// The change that removes `route`.
pub open spec fn delete_op(route: Route) -> RouteOp {
    RouteOp::DeleteRoute { destination: route.destination }
}

/// The routes around the tunnel that setup adds and remembers: the pin of
/// the SSH server first, then one per exclusion. Without an original default
/// route there is no path for them, and there are none.
pub open spec fn bypass_routes(
    original: Option<Route>,
    ssh_server: IpAddress,
    exclusions: Seq<IpNetwork>,
) -> Seq<Route> {
    match original {
        Some(o) => seq![pin_route(o, ssh_server)] + exclusions.map_values(
            |net: IpNetwork| exclusion_route(o, net),
        ),
        None => Seq::empty(),
    }
}

/// The changes of setup, in order: pin the SSH server, replace the default
/// route by one through the tunnel, add the exclusions.
pub open spec fn setup_plan(
    original: Option<Route>,
    ssh_server: IpAddress,
    tunnel_peer: IpAddress,
    tunnel_interface: Seq<char>,
    exclusions: Seq<IpNetwork>,
) -> Seq<RouteOp> {
    let replace = seq![
        RouteOp::DeleteDefault,
        RouteOp::AddDefault { gateway: tunnel_peer, interface: tunnel_interface },
    ];
    match original {
        Some(o) => seq![add_op(pin_route(o, ssh_server))] + replace + exclusions.map_values(
            |net: IpNetwork| add_op(exclusion_route(o, net)),
        ),
        None => replace,
    }
}

/// The places of a setup plan, one by one.
pub proof fn lemma_setup_plan_shape(
    original: Option<Route>,
    ssh_server: IpAddress,
    tunnel_peer: IpAddress,
    tunnel_interface: Seq<char>,
    exclusions: Seq<IpNetwork>,
)
    ensures
        ({
            let plan = setup_plan(original, ssh_server, tunnel_peer, tunnel_interface, exclusions);
            let bypass = bypass_routes(original, ssh_server, exclusions);
            let replace = seq![
                RouteOp::DeleteDefault,
                RouteOp::AddDefault { gateway: tunnel_peer, interface: tunnel_interface },
            ];
            match original {
                Some(o) => {
                    &&& bypass.len() == 1 + exclusions.len()
                    &&& bypass[0] == pin_route(o, ssh_server)
                    &&& forall|k: int|
                        0 <= k < exclusions.len() ==> #[trigger] bypass[1 + k] == exclusion_route(
                            o,
                            exclusions[k],
                        )
                    &&& plan.len() == 3 + exclusions.len()
                    &&& plan[0] == add_op(pin_route(o, ssh_server))
                    &&& plan[1] == replace[0]
                    &&& plan[2] == replace[1]
                    &&& forall|k: int|
                        0 <= k < exclusions.len() ==> #[trigger] plan[3 + k] == add_op(
                            exclusion_route(o, exclusions[k]),
                        )
                },
                None => bypass.len() == 0 && plan =~= replace,
            }
        }),
{
}

/// The change that puts the original default route back. A default route
/// without a gateway is not put back.
pub open spec fn restore_ops(original: Option<Route>) -> Seq<RouteOp> {
    match original {
        Some(Route { gateway: Some(gw), interface, .. }) => seq![
            RouteOp::AddDefault { gateway: gw, interface },
        ],
        _ => Seq::empty(),
    }
}

/// The changes of cleanup, in order: remove the default route through the
/// tunnel, put the original one back, remove every remembered route.
pub open spec fn cleanup_plan(original: Option<Route>, remembered: Seq<Route>) -> Seq<RouteOp> {
    seq![RouteOp::DeleteDefault] + restore_ops(original) + remembered.map_values(
        |r: Route| delete_op(r),
    )
}

/// Whether every text of the list reads as a network.
pub open spec fn all_networks(list: Seq<Seq<char>>) -> bool {
    forall|i: int| 0 <= i < list.len() ==> (#[trigger] ipnet_parse(list[i])).is_some()
}

/// The networks that the texts of the list read as.
pub open spec fn networks_of(list: Seq<Seq<char>>) -> Seq<IpNetwork> {
    list.map_values(|t: Seq<char>| ipnet_parse(t).unwrap())
}

/// Whether `i` is the first place of the list whose text reads as no
/// network.
pub open spec fn first_bad_network(list: Seq<Seq<char>>, i: int) -> bool {
    &&& 0 <= i < list.len()
    &&& ipnet_parse(list[i]).is_none()
    &&& forall|j: int| 0 <= j < i ==> (#[trigger] ipnet_parse(list[j])).is_some()
}

/// What setup captured and added, kept for cleanup.
pub struct RoutingState {
    original_default_route: Option<RouteInfo>,
    exclusion_routes: Vec<RouteInfo>,
}

pub struct RoutingManager {
    state: RoutingState,
}

/// The row of an optional route as plain values.
pub open spec fn route_view(route: Option<RouteInfo>) -> Option<Route> {
    match route {
        Some(r) => Some(r@),
        None => None,
    }
}

impl RoutingManager {
    /// The default route that setup captured.
    pub closed spec fn original(&self) -> Option<Route> {
        route_view(self.state.original_default_route)
    }

    /// The routes that setup added and cleanup has yet to remove.
    pub closed spec fn remembered(&self) -> Seq<Route> {
        routes(self.state.exclusion_routes@)
    }

    /// Every remembered route names a network with a prefix within its
    /// limit.
    pub closed spec fn wf(&self) -> bool {
        forall|i: int|
            0 <= i < self.state.exclusion_routes@.len() ==> (
            #[trigger] self.state.exclusion_routes@[i]).destination.wf()
    }

    pub fn new() -> (manager: Self)
        ensures
            manager.wf(),
            manager.original().is_none(),
            manager.remembered() == Seq::<Route>::empty(),
    {
        let manager = RoutingManager {
            state: RoutingState { original_default_route: None, exclusion_routes: Vec::new() },
        };
        assert(manager.remembered() =~= Seq::<Route>::empty());
        manager
    }

    /// Plans the setup for `config`, given the default route that the host
    /// has now, and remembers what cleanup will need. The caller runs the
    /// plan in order. Where the server address or an exclusion reads as no
    /// network, there is no plan and nothing is remembered.
    pub fn setup(
        &mut self,
        config: &VpnConfig,
        ssh_server_ip: IpAddress,
        current_default: Option<RouteInfo>,
    ) -> (res: Result<Vec<RouteCommand>, RoutingError>)
        requires
            old(self).wf(),
        ensures
            final(self).wf(),
            res.is_ok() <==> ipnet_parse(config@.server_address).is_some() && all_networks(
                config@.exclude,
            ),
            res matches Ok(plan) ==> {
                &&& ops(plan@) == setup_plan(
                    route_view(current_default),
                    ssh_server_ip,
                    ipnet_parse(config@.server_address).unwrap().addr,
                    config@.client_tun,
                    networks_of(config@.exclude),
                )
                &&& forall|i: int| 0 <= i < plan@.len() ==> (#[trigger] plan@[i])@.wf()
                &&& final(self).original() == route_view(current_default)
                &&& final(self).remembered() == bypass_routes(
                    route_view(current_default),
                    ssh_server_ip,
                    networks_of(config@.exclude),
                )
            },
            res matches Err(e) ==> {
                &&& final(self).original() == old(self).original()
                &&& final(self).remembered() == old(self).remembered()
                &&& if ipnet_parse(config@.server_address).is_none() {
                    e.refuses_server_address(config@.server_address)
                } else {
                    exists|i: int|
                        first_bad_network(config@.exclude, i) && #[trigger] e.refuses_exclusion(
                            i,
                            config@.exclude[i],
                        )
                }
            },
    {
        let tunnel_peer = match config.server_ip() {
            Ok(ip) => ip,
            Err(e) => {
                return Err(RoutingError::InvalidServerAddress(e));
            },
        };
        let ghost list = config@.exclude;
        let mut nets: Vec<IpNetwork> = Vec::new();
        let mut i: usize = 0;
        while i < config.exclude.len()
            invariant
                i <= config.exclude@.len(),
                *self == *old(self),
                self.wf(),
                ipnet_parse(config@.server_address).is_some(),
                list == texts(config.exclude@),
                nets@ == networks_of(list.take(i as int)),
                forall|j: int| 0 <= j < i ==> (#[trigger] ipnet_parse(list[j])).is_some(),
                forall|j: int| 0 <= j < i ==> (#[trigger] nets@[j]).wf(),
            decreases config.exclude@.len() - i,
        {
            assert(list[i as int] == config.exclude@[i as int]@);
            match IpNetwork::parse(config.exclude[i].as_str()) {
                Some(net) => {
                    nets.push(net);
                    assert(nets@ =~= networks_of(list.take(i + 1)));
                },
                None => {
                    assert(first_bad_network(list, i as int));
                    let e = RoutingError::InvalidExclusion {
                        index: i,
                        text: config.exclude[i].clone(),
                    };
                    assert(e.refuses_exclusion(i as int, list[i as int]));
                    return Err(e);
                },
            }
            i = i + 1;
        }
        assert(list.take(i as int) =~= list);
        assert(all_networks(list));
        let ghost original = route_view(current_default);
        let ghost goal = setup_plan(
            original,
            ssh_server_ip,
            tunnel_peer,
            config@.client_tun,
            nets@,
        );
        let ghost bypass = bypass_routes(original, ssh_server_ip, nets@);
        let mut plan: Vec<RouteCommand> = Vec::new();
        let mut kept: Vec<RouteInfo> = Vec::new();
        match &current_default {
            Some(o) => {
                let pin = RouteInfo {
                    destination: IpNetwork::host(ssh_server_ip),
                    gateway: o.gateway,
                    interface: o.interface.clone(),
                };
                plan.push(
                    RouteCommand::AddRoute {
                        destination: pin.destination,
                        gateway: pin.gateway,
                        interface: pin.interface.clone(),
                    },
                );
                kept.push(pin);
            },
            None => {},
        }
        plan.push(RouteCommand::DeleteDefault);
        plan.push(
            RouteCommand::AddDefault { gateway: tunnel_peer, interface: config.client_tun.clone() },
        );
        proof {
            lemma_setup_plan_shape(
                original,
                ssh_server_ip,
                tunnel_peer,
                config@.client_tun,
                nets@,
            );
        }
        assert(ops(plan@) =~= goal.take(plan@.len() as int));
        assert(routes(kept@) =~= bypass.take(kept@.len() as int));
        match &current_default {
            Some(o) => {
                let mut k: usize = 0;
                while k < nets.len()
                    invariant
                        k <= nets@.len(),
                        current_default == Some(*o),
                        original == route_view(current_default),
                        goal == setup_plan(
                            original,
                            ssh_server_ip,
                            tunnel_peer,
                            config@.client_tun,
                            nets@,
                        ),
                        bypass == bypass_routes(original, ssh_server_ip, nets@),
                        plan@.len() == 3 + k,
                        kept@.len() == 1 + k,
                        ops(plan@) == goal.take(3 + k),
                        routes(kept@) == bypass.take(1 + k),
                        forall|j: int| 0 <= j < nets@.len() ==> (#[trigger] nets@[j]).wf(),
                        forall|j: int| 0 <= j < plan@.len() ==> (#[trigger] plan@[j])@.wf(),
                        forall|j: int| 0 <= j < kept@.len() ==> (#[trigger] kept@[j]).destination.wf(),
                    decreases nets@.len() - k,
                {
                    let net = nets[k];
                    let route = RouteInfo {
                        destination: net,
                        gateway: o.gateway,
                        interface: o.interface.clone(),
                    };
                    let ghost plan_before = ops(plan@);
                    let ghost kept_before = routes(kept@);
                    plan.push(
                        RouteCommand::AddRoute {
                            destination: net,
                            gateway: o.gateway,
                            interface: o.interface.clone(),
                        },
                    );
                    kept.push(route);
                    assert(bypass[1 + k] == exclusion_route(o@, net));
                    assert(goal[3 + k] == add_op(exclusion_route(o@, net)));
                    assert(ops(plan@) =~= plan_before.push(goal[3 + k]));
                    assert(routes(kept@) =~= kept_before.push(bypass[1 + k]));
                    assert(goal.take(3 + k + 1) =~= goal.take(3 + k).push(goal[3 + k]));
                    assert(bypass.take(1 + k + 1) =~= bypass.take(1 + k).push(bypass[1 + k]));
                    k = k + 1;
                }
            },
            None => {},
        }
        assert(ops(plan@) =~= goal);
        assert(routes(kept@) =~= bypass);
        self.state.original_default_route = current_default;
        self.state.exclusion_routes = kept;
        Ok(plan)
    }

    /// Plans the cleanup and forgets the remembered routes. The caller runs
    /// every command of the plan, whether or not the ones before it
    /// succeeded.
    pub fn cleanup(&mut self) -> (plan: Vec<RouteCommand>)
        requires
            old(self).wf(),
        ensures
            ops(plan@) == cleanup_plan(old(self).original(), old(self).remembered()),
            forall|i: int| 0 <= i < plan@.len() ==> (#[trigger] plan@[i])@.wf(),
            final(self).wf(),
            final(self).original() == old(self).original(),
            final(self).remembered() == Seq::<Route>::empty(),
    {
        let mut plan: Vec<RouteCommand> = Vec::new();
        plan.push(RouteCommand::DeleteDefault);
        match &self.state.original_default_route {
            Some(original) => {
                match original.gateway {
                    Some(gw) => {
                        plan.push(
                            RouteCommand::AddDefault {
                                gateway: gw,
                                interface: original.interface.clone(),
                            },
                        );
                    },
                    None => {},
                }
            },
            None => {},
        }
        let ghost head = ops(plan@);
        assert(head =~= seq![RouteOp::DeleteDefault] + restore_ops(self.original()));
        let ghost kept = self.remembered();
        let mut i: usize = 0;
        while i < self.state.exclusion_routes.len()
            invariant
                i <= self.state.exclusion_routes@.len(),
                self.wf(),
                kept == self.remembered(),
                ops(plan@) == head + kept.take(i as int).map_values(|r: Route| delete_op(r)),
                forall|k: int| 0 <= k < plan@.len() ==> (#[trigger] plan@[k])@.wf(),
            decreases self.state.exclusion_routes@.len() - i,
        {
            let ghost before = ops(plan@);
            let destination = self.state.exclusion_routes[i].destination;
            assert(self.state.exclusion_routes@[i as int].destination.wf());
            plan.push(RouteCommand::DeleteRoute { destination });
            assert(ops(plan@) =~= before.push(delete_op(kept[i as int])));
            assert(kept.take(i + 1).map_values(|r: Route| delete_op(r)) =~= kept.take(
                i as int,
            ).map_values(|r: Route| delete_op(r)).push(delete_op(kept[i as int])));
            i = i + 1;
        }
        assert(kept.take(i as int) =~= kept);
        self.state.exclusion_routes.clear();
        assert(self.remembered() =~= Seq::<Route>::empty());
        plan
    }
}

} // verus!
