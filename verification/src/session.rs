//! The VPN session: the order of its startup, the two directions of its
//! packet pump, and its cleanup.
//!
//! The session decides; the caller owns the TUN device and the SSH
//! channels, does what it is told and reports what happened.

use vstd::prelude::*;
use crate::agent::{recv_kind, recv_rest, after_message, AgentChannel, AgentError, RecvKind, RecvStep};
use crate::config::VpnConfig;
use crate::framing::{first_payload, fits_frame, frame};
use crate::net::IpAddress;
use crate::net::ipnet_parse;
use crate::routing::{
    all_networks, bypass_routes, cleanup_plan, networks_of, ops, route_view, setup_plan, Route,
    RouteCommand, RouteInfo, RoutingError, RoutingManager,
};
use crate::transport::ChannelEvent;

verus! {

/// The steps of a startup, in the order in which they are taken.
#[derive(Clone, Copy, Debug, PartialEq, Eq, Structural)]
pub enum StartStep {
    CreateTun,
    SetupRouting,
    DeployAgent,
    StartAgent,
    RunPostUp,
}

/// The number of steps of a startup.
pub const START_STEPS: u8 = 5;

/// The step that follows `completed` steps, if there is one.
pub open spec fn step_after(completed: nat) -> Option<StartStep> {
    if completed == 0 {
        Some(StartStep::CreateTun)
    } else if completed == 1 {
        Some(StartStep::SetupRouting)
    } else if completed == 2 {
        Some(StartStep::DeployAgent)
    } else if completed == 3 {
        Some(StartStep::StartAgent)
    } else if completed == 4 {
        Some(StartStep::RunPostUp)
    } else {
        None
    }
}

/// What the startup does after a step.
#[derive(Clone, Copy, Debug, PartialEq, Eq, Structural)]
pub enum StartAction {
    /// Take this step next.
    Perform(StartStep),
    /// Every step succeeded: the tunnel is up.
    Ready,
    /// A step failed: clean up what the steps before it did, and give up.
    Abort,
}

/// One thing to do when the session goes down. Each is done whether or not
/// the ones before it succeeded.
#[derive(Debug)]
pub enum CleanupAction {
    /// Run the `pre_down` commands on the remote host.
    RunPreDown,
    /// Close the channel to the agent.
    CloseAgent,
    /// Put the routing table back with these commands.
    RollbackRouting(Vec<RouteCommand>),
}

/// The kinds of things to do when a session goes down.
#[derive(Clone, Copy, Debug, PartialEq, Eq, Structural)]
pub enum CleanupKind {
    RunPreDown,
    CloseAgent,
    RollbackRouting,
}

impl CleanupAction {
    pub open spec fn kind(&self) -> CleanupKind {
        match *self {
            CleanupAction::RunPreDown => CleanupKind::RunPreDown,
            CleanupAction::CloseAgent => CleanupKind::CloseAgent,
            CleanupAction::RollbackRouting(_) => CleanupKind::RollbackRouting,
        }
    }
}

/// The kinds of a list of cleanup actions, in order.
pub open spec fn kinds(actions: Seq<CleanupAction>) -> Seq<CleanupKind> {
    actions.map_values(|a: CleanupAction| a.kind())
}

/// What a cleanup undoes, in order, after `completed` steps of the startup
/// succeeded: the `pre_down` commands answer the `post_up` commands, closing
/// the agent's channel answers its start, and the routing is put back
/// wherever a routing plan was made.
pub open spec fn cleanup_kinds(completed: nat, routing_planned: bool, agent_open: bool) -> Seq<
    CleanupKind,
> {
    let hooks = if completed >= 5 {
        seq![CleanupKind::RunPreDown]
    } else {
        Seq::empty()
    };
    let agent = if completed >= 4 && agent_open {
        seq![CleanupKind::CloseAgent]
    } else {
        Seq::empty()
    };
    let routing = if routing_planned {
        seq![CleanupKind::RollbackRouting]
    } else {
        Seq::empty()
    };
    hooks + agent + routing
}

pub struct VpnSession {
    routing: RoutingManager,
    agent: AgentChannel,
    ssh_server_ip: IpAddress,
    /// How many steps of the startup succeeded.
    completed: u8,
    /// Whether a step of the startup failed.
    failed: bool,
    /// Whether a routing plan was made.
    routing_planned: bool,
    cleaned_up: bool,
}

/// The state of a session as plain values.
pub struct SessionState {
    pub ssh_server_ip: IpAddress,
    pub completed: nat,
    pub failed: bool,
    pub routing_planned: bool,
    pub cleaned_up: bool,
    /// The default route that the routing plan was made for.
    pub original_route: Option<Route>,
    /// The routes that the routing plan added.
    pub added_routes: Seq<Route>,
    /// The bytes received from the agent and not yet handed out.
    pub buffered: Seq<u8>,
    /// Whether the sending side of the agent's channel was shut.
    pub agent_closed: bool,
}

impl View for VpnSession {
    type V = SessionState;

    closed spec fn view(&self) -> SessionState {
        SessionState {
            ssh_server_ip: self.ssh_server_ip,
            completed: self.completed as nat,
            failed: self.failed,
            routing_planned: self.routing_planned,
            cleaned_up: self.cleaned_up,
            original_route: self.routing.original(),
            added_routes: self.routing.remembered(),
            buffered: self.agent.buffered(),
            agent_closed: self.agent.is_closed(),
        }
    }
}

impl SessionState {
    /// The step that the startup takes next, if it is still under way.
    pub open spec fn pending_step(&self) -> Option<StartStep> {
        if self.failed || self.cleaned_up {
            None
        } else {
            step_after(self.completed)
        }
    }

    /// The state after the pending step ended: a success is counted, a
    /// failure is noted. Without a pending step nothing changes.
    pub open spec fn after_step(self, ok: bool) -> SessionState {
        if self.pending_step().is_none() {
            self
        } else if ok {
            SessionState { completed: self.completed + 1, ..self }
        } else {
            SessionState { failed: true, ..self }
        }
    }

    /// What a cleanup of this state undoes, in order. A session that was
    /// cleaned up has nothing left to undo.
    pub open spec fn cleanup_kinds(&self) -> Seq<CleanupKind> {
        if self.cleaned_up {
            Seq::empty()
        } else {
            cleanup_kinds(self.completed, self.routing_planned, !self.agent_closed)
        }
    }

    /// The state after a cleanup: the session is marked, the agent's channel
    /// is shut where the agent was started, and the routes of a routing plan
    /// are forgotten. A session that was cleaned up stays as it is.
    pub open spec fn after_cleanup(self) -> SessionState {
        if self.cleaned_up {
            self
        } else {
            SessionState {
                cleaned_up: true,
                agent_closed: self.agent_closed || self.completed >= 4,
                added_routes: if self.routing_planned {
                    Seq::empty()
                } else {
                    self.added_routes
                },
                ..self
            }
        }
    }

    /// What the startup does in this state.
    pub open spec fn start_action(&self) -> StartAction {
        if self.failed || self.cleaned_up {
            StartAction::Abort
        } else {
            match step_after(self.completed) {
                Some(step) => StartAction::Perform(step),
                None => StartAction::Ready,
            }
        }
    }
}

impl VpnSession {
    /// The session is well formed: it counts no more steps than a startup
    /// has, and its routing state is well formed.
    pub closed spec fn wf(&self) -> bool {
        self.completed <= 5 && self.routing.wf()
    }

    /// A session before the first step of its startup.
    pub fn start(ssh_server_ip: IpAddress) -> (session: VpnSession)
        ensures
            session.wf(),
            session@ == (SessionState {
                ssh_server_ip,
                completed: 0,
                failed: false,
                routing_planned: false,
                cleaned_up: false,
                original_route: None,
                added_routes: Seq::empty(),
                buffered: Seq::empty(),
                agent_closed: false,
            }),
    {
        VpnSession {
            routing: RoutingManager::new(),
            agent: AgentChannel::new(),
            ssh_server_ip,
            completed: 0,
            failed: false,
            routing_planned: false,
            cleaned_up: false,
        }
    }

    /// The step that the startup takes next, if it is still under way.
    pub fn next_step(&self) -> (step: Option<StartStep>)
        ensures
            step == self@.pending_step(),
    {
        if self.failed || self.cleaned_up {
            return None;
        }
        step_number(self.completed)
    }

    /// Notes how the pending step ended and says what the startup does
    /// next. The first failure ends the startup.
    pub fn step_done(&mut self, ok: bool) -> (action: StartAction)
        requires
            old(self).wf(),
        ensures
            final(self).wf(),
            final(self)@ == old(self)@.after_step(ok),
            action == final(self)@.start_action(),
    {
        if !self.failed && !self.cleaned_up && self.completed < START_STEPS {
            if ok {
                self.completed = self.completed + 1;
            } else {
                self.failed = true;
            }
        }
        if self.failed || self.cleaned_up {
            return StartAction::Abort;
        }
        match step_number(self.completed) {
            Some(step) => StartAction::Perform(step),
            None => StartAction::Ready,
        }
    }

    /// Plans the routing for `config`, given the default route that the host
    /// has now. The plan is what the step `SetupRouting` runs; from now on a
    /// cleanup puts the routing back. Where the config names a network that
    /// reads as none, there is no plan and the session is as before.
    pub fn plan_routing(&mut self, config: &VpnConfig, current_default: Option<RouteInfo>) -> (res:
        Result<Vec<RouteCommand>, RoutingError>)
        requires
            old(self).wf(),
        ensures
            final(self).wf(),
            res.is_ok() <==> ipnet_parse(config@.server_address).is_some() && all_networks(
                config@.exclude,
            ),
            res matches Ok(plan) ==> {
                &&& ops(plan@) == setup_plan(
                    route_view(current_default),
                    old(self)@.ssh_server_ip,
                    ipnet_parse(config@.server_address).unwrap().addr,
                    config@.client_tun,
                    networks_of(config@.exclude),
                )
                &&& forall|i: int| 0 <= i < plan@.len() ==> (#[trigger] plan@[i])@.wf()
                &&& final(self)@ == (SessionState {
                    routing_planned: true,
                    original_route: route_view(current_default),
                    added_routes: bypass_routes(
                        route_view(current_default),
                        old(self)@.ssh_server_ip,
                        networks_of(config@.exclude),
                    ),
                    ..old(self)@
                })
            },
            res is Err ==> final(self)@ == old(self)@,
    {
        let res = self.routing.setup(config, self.ssh_server_ip, current_default);
        if res.is_ok() {
            self.routing_planned = true;
        }
        res
    }

    /// Takes the session down: says what to undo, in order, and marks the
    /// session as cleaned up. Every action is carried out whether or not the
    /// ones before it succeeded. On a session that was cleaned up already
    /// there is nothing to do and nothing changes.
    pub fn cleanup(&mut self) -> (actions: Vec<CleanupAction>)
        requires
            old(self).wf(),
        ensures
            final(self).wf(),
            kinds(actions@) == old(self)@.cleanup_kinds(),
            final(self)@ == old(self)@.after_cleanup(),
            forall|i: int|
                0 <= i < actions@.len() ==> rolls_back(
                    #[trigger] actions@[i],
                    old(self)@.original_route,
                    old(self)@.added_routes,
                ),
    {
        let mut actions: Vec<CleanupAction> = Vec::new();
        if self.cleaned_up {
            assert(kinds(actions@) =~= Seq::<CleanupKind>::empty());
            return actions;
        }
        let ghost before = self@;
        if self.completed >= START_STEPS {
            actions.push(CleanupAction::RunPreDown);
        }
        if self.completed >= 4 {
            if self.agent.close() {
                actions.push(CleanupAction::CloseAgent);
            }
        }
        if self.routing_planned {
            let plan = self.routing.cleanup();
            actions.push(CleanupAction::RollbackRouting(plan));
        }
        self.cleaned_up = true;
        assert(kinds(actions@) =~= cleanup_kinds(
            before.completed,
            before.routing_planned,
            !before.agent_closed,
        ));
        actions
    }

    /// The last resort when a session is dropped without a cleanup: the
    /// commands that put the routing back. On a session that was cleaned up,
    /// or for which no routing plan was made, there are none.
    pub fn on_drop(&mut self) -> (plan: Vec<RouteCommand>)
        requires
            old(self).wf(),
        ensures
            final(self).wf(),
            if old(self)@.cleaned_up || !old(self)@.routing_planned {
                plan@.len() == 0 && final(self)@ == old(self)@
            } else {
                ops(plan@) == cleanup_plan(old(self)@.original_route, old(self)@.added_routes)
                    && final(self)@ == (SessionState {
                    cleaned_up: true,
                    added_routes: Seq::empty(),
                    ..old(self)@
                })
            },
            forall|i: int| 0 <= i < plan@.len() ==> (#[trigger] plan@[i])@.wf(),
    {
        if self.cleaned_up || !self.routing_planned {
            return Vec::new();
        }
        let plan = self.routing.cleanup();
        self.cleaned_up = true;
        plan
    }

    /// The direction from the TUN device to the agent: decides what follows
    /// a read from the device or a send to the agent. A packet read is
    /// framed and sent; after a send the device is read again; any failure
    /// ends this direction with its error.
    pub fn forward_tun_to_agent(&self, event: TunEvent) -> (action: UplinkAction)
        ensures
            match event {
                TunEvent::Packet(packet) => if fits_frame(packet@) {
                    action matches UplinkAction::SendToAgent(bytes) && bytes@ == frame(packet@)
                } else {
                    action matches UplinkAction::Stop(e) && e@ == PumpFailure::Agent(
                        AgentError::PacketTooLarge,
                    )
                },
                TunEvent::ReadFailed(reason) => action matches UplinkAction::Stop(e) && e@
                    == PumpFailure::TunRead(reason@),
                TunEvent::Sent => action is ReadTun,
                TunEvent::SendFailed(reason) => action matches UplinkAction::Stop(e) && e@
                    == PumpFailure::AgentSend(reason@),
            },
    {
        match event {
            TunEvent::Packet(packet) => match self.agent.send_packet(packet.as_slice()) {
                Ok(bytes) => UplinkAction::SendToAgent(bytes),
                Err(e) => UplinkAction::Stop(PumpError::Agent(e)),
            },
            TunEvent::ReadFailed(reason) => UplinkAction::Stop(PumpError::TunRead(reason)),
            TunEvent::Sent => UplinkAction::ReadTun,
            TunEvent::SendFailed(reason) => UplinkAction::Stop(PumpError::AgentSend(reason)),
        }
    }

    /// The direction from the agent to the TUN device: decides what follows
    /// a message of the agent's channel or a write to the device. A whole
    /// packet is written to the device; a failed write is passed over and
    /// the tunnel goes on; the end of the agent's stream ends this direction
    /// without an error.
    pub fn forward_agent_to_tun(&mut self, event: AgentEvent) -> (action: DownlinkAction)
        requires
            old(self).wf(),
        ensures
            final(self).wf(),
            final(self)@ == (SessionState {
                buffered: recv_rest(old(self)@.buffered, event.message()),
                ..old(self)@
            }),
            match action {
                DownlinkAction::WriteToTun(packet) => recv_kind(
                    old(self)@.buffered,
                    event.message(),
                ) == RecvKind::Packet && packet@ == first_payload(
                    after_message(old(self)@.buffered, event.message()),
                ),
                DownlinkAction::AwaitChannel => recv_kind(old(self)@.buffered, event.message())
                    == RecvKind::NextMessage,
                DownlinkAction::Stop(Ok(())) => recv_kind(old(self)@.buffered, event.message())
                    == RecvKind::EndOfStream,
                DownlinkAction::Stop(Err(e)) => recv_kind(old(self)@.buffered, event.message())
                    == RecvKind::Overflow && e@ == PumpFailure::Agent(AgentError::BufferFull),
            },
    {
        let message = match event {
            AgentEvent::Channel(message) => message,
            AgentEvent::TunWritten(_) => None,
        };
        match self.agent.recv_packet(message) {
            RecvStep::Packet(packet) => DownlinkAction::WriteToTun(packet),
            RecvStep::NextMessage => DownlinkAction::AwaitChannel,
            RecvStep::EndOfStream => DownlinkAction::Stop(Ok(())),
            RecvStep::Failed(e) => DownlinkAction::Stop(Err(PumpError::Agent(e))),
        }
    }

    /// The channel to the agent.
    pub fn agent(&self) -> (agent: &AgentChannel)
        ensures
            agent.buffered() == self@.buffered,
            agent.is_closed() == self@.agent_closed,
    {
        &self.agent
    }

    pub fn ssh_server_ip(&self) -> (ip: IpAddress)
        ensures
            ip == self@.ssh_server_ip,
    {
        self.ssh_server_ip
    }

    pub fn is_cleaned_up(&self) -> (done: bool)
        ensures
            done == self@.cleaned_up,
    {
        self.cleaned_up
    }
}

/// A second cleanup undoes nothing and changes nothing.
pub proof fn lemma_cleanup_idempotent(state: SessionState)
    ensures
        state.after_cleanup().cleanup_kinds() == Seq::<CleanupKind>::empty(),
        state.after_cleanup().after_cleanup() == state.after_cleanup(),
{
}

/// A cleanup after a startup that got part of the way undoes every step
/// that succeeded and has something to undo: the routing wherever a plan was
/// made, the agent's channel once the agent was started, the `post_up`
/// commands once they ran.
pub proof fn lemma_cleanup_covers_startup(state: SessionState)
    requires
        !state.cleaned_up,
    ensures
        state.routing_planned <==> state.cleanup_kinds().contains(CleanupKind::RollbackRouting),
        state.completed >= 4 && !state.agent_closed <==> state.cleanup_kinds().contains(
            CleanupKind::CloseAgent,
        ),
        state.completed >= 5 <==> state.cleanup_kinds().contains(CleanupKind::RunPreDown),
{
    let hooks = if state.completed >= 5 {
        seq![CleanupKind::RunPreDown]
    } else {
        Seq::empty()
    };
    let agent = if state.completed >= 4 && !state.agent_closed {
        seq![CleanupKind::CloseAgent]
    } else {
        Seq::empty()
    };
    let routing = if state.routing_planned {
        seq![CleanupKind::RollbackRouting]
    } else {
        Seq::empty()
    };
    let all = hooks + agent + routing;
    assert(all == state.cleanup_kinds());
    if state.completed >= 5 {
        assert(all[0] == CleanupKind::RunPreDown);
    }
    if state.completed >= 4 && !state.agent_closed {
        assert(all[hooks.len() as int] == CleanupKind::CloseAgent);
    }
    if state.routing_planned {
        assert(all[(hooks.len() + agent.len()) as int] == CleanupKind::RollbackRouting);
    }
}

/// Why a direction of the packet pump ended.
#[derive(Debug)]
pub enum PumpError {
    /// Reading from the TUN device failed; holds the reason.
    TunRead(String),
    /// Sending to the agent failed; holds the reason.
    AgentSend(String),
    /// The agent's channel could not frame or buffer a packet.
    Agent(AgentError),
}

/// What a pump error says, as plain values.
pub enum PumpFailure {
    TunRead(Seq<char>),
    AgentSend(Seq<char>),
    Agent(AgentError),
}

impl View for PumpError {
    type V = PumpFailure;

    open spec fn view(&self) -> PumpFailure {
        match *self {
            PumpError::TunRead(reason) => PumpFailure::TunRead(reason@),
            PumpError::AgentSend(reason) => PumpFailure::AgentSend(reason@),
            PumpError::Agent(e) => PumpFailure::Agent(e),
        }
    }
}

/// What happened on the way from the TUN device to the agent.
#[derive(Debug)]
pub enum TunEvent {
    /// One IP packet was read from the device.
    Packet(Vec<u8>),
    /// Reading from the device failed.
    ReadFailed(String),
    /// The framed packet was sent to the agent.
    Sent,
    /// Sending to the agent failed.
    SendFailed(String),
}

/// What the direction from the TUN device to the agent does next.
#[derive(Debug)]
pub enum UplinkAction {
    /// Send these bytes to the agent as one data message.
    SendToAgent(Vec<u8>),
    /// Read the next packet from the device.
    ReadTun,
    /// This direction is over, with this error.
    Stop(PumpError),
}

/// What happened on the way from the agent to the TUN device.
#[derive(Debug)]
pub enum AgentEvent {
    /// What the agent's channel delivered; `None` where the pump only asks
    /// for what is buffered.
    Channel(Option<ChannelEvent>),
    /// A packet was handed to the device; `false` where the device refused
    /// it.
    TunWritten(bool),
}

impl AgentEvent {
    /// The message of the agent's channel that the event carries, if any.
    pub open spec fn message(&self) -> Option<ChannelEvent> {
        match *self {
            AgentEvent::Channel(message) => message,
            AgentEvent::TunWritten(_) => None,
        }
    }
}

/// What the direction from the agent to the TUN device does next.
#[derive(Debug)]
pub enum DownlinkAction {
    /// Write this packet to the device.
    WriteToTun(Vec<u8>),
    /// Wait for the next message of the agent's channel.
    AwaitChannel,
    /// This direction is over, with this outcome.
    Stop(Result<(), PumpError>),
}

/// A rollback of the routing carries the cleanup plan for what setup
/// captured and added, and every command of it names a network with a
/// prefix within its limit. Of any other action nothing is asked.
pub open spec fn rolls_back(action: CleanupAction, original: Option<Route>, added: Seq<Route>) -> bool {
    match action {
        CleanupAction::RollbackRouting(plan) => ops(plan@) == cleanup_plan(original, added)
            && forall|i: int| 0 <= i < plan@.len() ==> (#[trigger] plan@[i])@.wf(),
        _ => true,
    }
}

fn step_number(completed: u8) -> (step: Option<StartStep>)
    ensures
        step == step_after(completed as nat),
{
    if completed == 0 {
        Some(StartStep::CreateTun)
    } else if completed == 1 {
        Some(StartStep::SetupRouting)
    } else if completed == 2 {
        Some(StartStep::DeployAgent)
    } else if completed == 3 {
        Some(StartStep::StartAgent)
    } else if completed == 4 {
        Some(StartStep::RunPostUp)
    } else {
        None
    }
}

} // verus!
