//! How peers come in: those that connect to this device, and the one that this
//! device connects to.

use vstd::prelude::*;

verus! {

/// Where the device listens.
pub fn listen_addr() -> (r: String)
    ensures
        r@ == "0.0.0.0:4399"@,
{
    "0.0.0.0:4399".to_string()
}

/// How long the two loops rest after something went wrong, in seconds.
pub const RETRY_DELAY_SECS: u64 = 1;

/// The barrier in front of the connector: while the peer that this process
/// connected to is there, no second connection is tried.
#[derive(Debug, Clone, Copy, PartialEq, Eq)]
pub struct ConnectServerStatus {
    pub active: bool,
}

impl ConnectServerStatus {
    /// There is no such peer.
    pub fn new() -> (r: Self)
        ensures
            !r.active,
    {
        ConnectServerStatus { active: false }
    }

    /// Whether the connector may go on; if not, it waits to be woken.
    pub fn wait_until_inactive(&self) -> (r: bool)
        ensures
            r == !self.active,
    {
        !self.active
    }

    /// There is such a peer from now on.
    pub fn mark_connected(&mut self)
        ensures
            final(self).active,
    {
        self.active = true;
    }

    /// There is no such peer any more. `true` means that there was one, and that
    /// the connector has to be woken.
    pub fn mark_disconnected(&mut self) -> (r: bool)
        ensures
            r == old(self).active,
            !final(self).active,
    {
        if self.active {
            self.active = false;
            true
        } else {
            false
        }
    }
}

/// Where the connector stands.
#[derive(Debug, Clone, Copy, PartialEq, Eq, Structural)]
pub enum ConnectorPhase {
    /// In front of the barrier.
    Waiting,
    /// Trying to connect.
    Connecting,
    /// Handing a new peer over.
    Reporting,
    Stopped,
}

/// What the connector met with.
#[derive(Debug, Clone, Copy, PartialEq, Eq, Structural)]
pub enum ConnectorEvent {
    /// It was started, or woken, or has rested.
    Resumed,
    /// Whether a connection came about.
    Connected(bool),
    /// Whether somebody took the new peer.
    Reported(bool),
}

/// What the connector does next.
#[derive(Debug, Clone, Copy, PartialEq, Eq, Structural)]
pub enum ConnectorAction {
    /// Wait for the barrier to open.
    Wait,
    /// Try to connect.
    Connect,
    /// Hand the new peer over.
    Report,
    /// Rest, then resume.
    Rest,
    /// End.
    Stop,
}

/// What the connector does about an event, and what becomes of the barrier.
pub open spec fn connector_next(
    phase: ConnectorPhase,
    barrier: ConnectServerStatus,
    event: ConnectorEvent,
) -> (ConnectorPhase, ConnectServerStatus, ConnectorAction) {
    match (phase, event) {
        (ConnectorPhase::Connecting, ConnectorEvent::Connected(true)) => (
            ConnectorPhase::Reporting,
            ConnectServerStatus { active: true },
            ConnectorAction::Report,
        ),
        (ConnectorPhase::Connecting, ConnectorEvent::Connected(false)) => (
            ConnectorPhase::Waiting,
            barrier,
            ConnectorAction::Rest,
        ),
        (ConnectorPhase::Reporting, ConnectorEvent::Reported(false)) => (
            ConnectorPhase::Stopped,
            ConnectServerStatus { active: false },
            ConnectorAction::Stop,
        ),
        (ConnectorPhase::Stopped, _) => (ConnectorPhase::Stopped, barrier, ConnectorAction::Stop),
        _ => if barrier.active {
            (ConnectorPhase::Waiting, barrier, ConnectorAction::Wait)
        } else {
            (ConnectorPhase::Connecting, barrier, ConnectorAction::Connect)
        },
    }
}

/// Advances the connector; see [`connector_next`].
pub fn connector_step(
    phase: &mut ConnectorPhase,
    barrier: &mut ConnectServerStatus,
    event: ConnectorEvent,
) -> (r: ConnectorAction)
    ensures
        (*final(phase), *final(barrier), r) == connector_next(*old(phase), *old(barrier), event),
{
    match (*phase, event) {
        (ConnectorPhase::Connecting, ConnectorEvent::Connected(true)) => {
            barrier.mark_connected();
            *phase = ConnectorPhase::Reporting;
            ConnectorAction::Report
        },
        (ConnectorPhase::Connecting, ConnectorEvent::Connected(false)) => {
            *phase = ConnectorPhase::Waiting;
            ConnectorAction::Rest
        },
        (ConnectorPhase::Reporting, ConnectorEvent::Reported(false)) => {
            let _ = barrier.mark_disconnected();
            *phase = ConnectorPhase::Stopped;
            ConnectorAction::Stop
        },
        (ConnectorPhase::Stopped, _) => ConnectorAction::Stop,
        _ => {
            if barrier.wait_until_inactive() {
                *phase = ConnectorPhase::Connecting;
                ConnectorAction::Connect
            } else {
                *phase = ConnectorPhase::Waiting;
                ConnectorAction::Wait
            }
        },
    }
}

/// No connection is tried while the peer that this process connected to is
/// there.
pub proof fn law_one_outbound_peer_at_a_time(
    phase: ConnectorPhase,
    barrier: ConnectServerStatus,
    event: ConnectorEvent,
)
    ensures
        connector_next(phase, barrier, event).2 == ConnectorAction::Connect ==> !barrier.active
            && !connector_next(phase, barrier, event).1.active,
        connector_next(phase, barrier, event).2 == ConnectorAction::Report
            ==> connector_next(phase, barrier, event).1.active,
{
}

/// A connection that failed is tried again: the connector rests and, as long as
/// the barrier is open, connects.
pub proof fn law_failed_connection_is_tried_again(barrier: ConnectServerStatus)
    requires
        !barrier.active,
    ensures
        ({
            let (phase, after, action) = connector_next(
                ConnectorPhase::Connecting,
                barrier,
                ConnectorEvent::Connected(false),
            );
            &&& action == ConnectorAction::Rest
            &&& connector_next(phase, after, ConnectorEvent::Resumed).2 == ConnectorAction::Connect
        }),
{
}

/// Where the listener stands.
#[derive(Debug, Clone, Copy, PartialEq, Eq, Structural)]
pub enum ListenerPhase {
    Binding,
    Accepting,
    Upgrading,
    Reporting,
}

/// What the listener met with.
#[derive(Debug, Clone, Copy, PartialEq, Eq, Structural)]
pub enum ListenerEvent {
    /// It was started or has rested.
    Resumed,
    /// Whether the address could be bound.
    Bound(bool),
    /// Whether a connection was accepted.
    Accepted(bool),
    /// Whether it became a WebSocket.
    Upgraded(bool),
    /// Whether somebody took the new peer.
    Reported(bool),
}

/// What the listener does next.
#[derive(Debug, Clone, Copy, PartialEq, Eq, Structural)]
pub enum ListenerAction {
    Bind,
    Accept,
    /// Make the connection a WebSocket.
    Upgrade,
    /// Hand the new peer over.
    Report,
    /// Give the address up and rest, then resume.
    Rest,
}

/// What the listener does about an event: it never ends. A connection that does
/// not become a WebSocket is forgotten; whatever else fails has it start over.
pub open spec fn listener_next(phase: ListenerPhase, event: ListenerEvent) -> (
    ListenerPhase,
    ListenerAction,
) {
    match (phase, event) {
        (ListenerPhase::Binding, ListenerEvent::Bound(true)) => (
            ListenerPhase::Accepting,
            ListenerAction::Accept,
        ),
        (ListenerPhase::Accepting, ListenerEvent::Accepted(true)) => (
            ListenerPhase::Upgrading,
            ListenerAction::Upgrade,
        ),
        (ListenerPhase::Upgrading, ListenerEvent::Upgraded(true)) => (
            ListenerPhase::Reporting,
            ListenerAction::Report,
        ),
        (ListenerPhase::Upgrading, ListenerEvent::Upgraded(false)) => (
            ListenerPhase::Accepting,
            ListenerAction::Accept,
        ),
        (ListenerPhase::Reporting, ListenerEvent::Reported(true)) => (
            ListenerPhase::Accepting,
            ListenerAction::Accept,
        ),
        (_, ListenerEvent::Resumed) => (ListenerPhase::Binding, ListenerAction::Bind),
        _ => (ListenerPhase::Binding, ListenerAction::Rest),
    }
}

/// Advances the listener; see [`listener_next`].
pub fn listener_step(phase: &mut ListenerPhase, event: ListenerEvent) -> (r: ListenerAction)
    ensures
        (*final(phase), r) == listener_next(*old(phase), event),
{
    let (next, action) = match (*phase, event) {
        (ListenerPhase::Binding, ListenerEvent::Bound(true)) => (
            ListenerPhase::Accepting,
            ListenerAction::Accept,
        ),
        (ListenerPhase::Accepting, ListenerEvent::Accepted(true)) => (
            ListenerPhase::Upgrading,
            ListenerAction::Upgrade,
        ),
        (ListenerPhase::Upgrading, ListenerEvent::Upgraded(true)) => (
            ListenerPhase::Reporting,
            ListenerAction::Report,
        ),
        (ListenerPhase::Upgrading, ListenerEvent::Upgraded(false)) => (
            ListenerPhase::Accepting,
            ListenerAction::Accept,
        ),
        (ListenerPhase::Reporting, ListenerEvent::Reported(true)) => (
            ListenerPhase::Accepting,
            ListenerAction::Accept,
        ),
        (_, ListenerEvent::Resumed) => (ListenerPhase::Binding, ListenerAction::Bind),
        _ => (ListenerPhase::Binding, ListenerAction::Rest),
    };
    *phase = next;
    action
}

/// A peer that cannot shake hands does not keep others out: the listener goes on
/// accepting.
pub proof fn law_bad_handshake_does_not_stop_the_listener()
    ensures
        listener_next(ListenerPhase::Upgrading, ListenerEvent::Upgraded(false)) == (
            ListenerPhase::Accepting,
            ListenerAction::Accept,
        ),
{
}

/// The connector hands over what it connected to and closes the barrier behind it; a failed attempt
/// has it rest; it stops once nobody takes its peer, opens the barrier, and stays stopped. In every
/// other turn the barrier decides: open, it connects, closed, it waits.
pub proof fn law_connector_goes_by_the_barrier(
    phase: ConnectorPhase,
    barrier: ConnectServerStatus,
    event: ConnectorEvent,
)
    ensures
        ({
            let (next, after, action) = connector_next(phase, barrier, event);
            let connected = phase == ConnectorPhase::Connecting && event is Connected;
            let refused = phase == ConnectorPhase::Reporting && event == ConnectorEvent::Reported(
                false,
            );
            &&& connected && event->Connected_0 ==> action == ConnectorAction::Report && next
                == ConnectorPhase::Reporting && after.active
            &&& connected && !event->Connected_0 ==> action == ConnectorAction::Rest && next
                == ConnectorPhase::Waiting && after.active == barrier.active
            &&& refused ==> action == ConnectorAction::Stop && next == ConnectorPhase::Stopped
                && !after.active
            &&& phase == ConnectorPhase::Stopped ==> action == ConnectorAction::Stop && next
                == ConnectorPhase::Stopped && after.active == barrier.active
            &&& !connected && !refused && phase != ConnectorPhase::Stopped ==> {
                &&& after.active == barrier.active
                &&& barrier.active ==> action == ConnectorAction::Wait && next
                    == ConnectorPhase::Waiting
                &&& !barrier.active ==> action == ConnectorAction::Connect && next
                    == ConnectorPhase::Connecting
            }
        }),
{
}

/// The listener takes one step after the other while all goes well, and starts over with every new
/// start; it goes on accepting after a handshake that failed, and rests after anything else.
pub proof fn law_listener_steps(phase: ListenerPhase, event: ListenerEvent)
    ensures
        listener_next(phase, ListenerEvent::Resumed) == (ListenerPhase::Binding, ListenerAction::Bind),
        listener_next(ListenerPhase::Binding, ListenerEvent::Bound(true)).1
            == ListenerAction::Accept,
        listener_next(ListenerPhase::Accepting, ListenerEvent::Accepted(true)) == (
            ListenerPhase::Upgrading,
            ListenerAction::Upgrade,
        ),
        listener_next(ListenerPhase::Upgrading, ListenerEvent::Upgraded(true)) == (
            ListenerPhase::Reporting,
            ListenerAction::Report,
        ),
        listener_next(ListenerPhase::Reporting, ListenerEvent::Reported(true)).1
            == ListenerAction::Accept,
        listener_next(phase, event).1 == ListenerAction::Accept <==> listener_next(phase, event).0
            == ListenerPhase::Accepting,
        !(event is Resumed) && listener_next(phase, event).0 == ListenerPhase::Binding
            ==> listener_next(phase, event).1 == ListenerAction::Rest,
        event == ListenerEvent::Bound(false) || event == ListenerEvent::Accepted(false) || event
            == ListenerEvent::Reported(false) ==> listener_next(phase, event) == (
            ListenerPhase::Binding,
            ListenerAction::Rest,
        ),
        RETRY_DELAY_SECS == 1,
{
}

/// The connector and the listener take the turns of the laws about them, and the barrier is what it was
/// last marked as.
pub proof fn law_connector_and_listener_take_their_turns(
    phase: &mut ConnectorPhase,
    barrier: &mut ConnectServerStatus,
    event: ConnectorEvent,
    action: ConnectorAction,
    place: &mut ListenerPhase,
    heard: ListenerEvent,
    next: ListenerAction,
    fresh: ConnectServerStatus,
    holds: bool,
    addr: String,
)
    ensures
        call_ensures(connector_step, (phase, barrier, event), action) ==> (
            *final(phase),
            *final(barrier),
            action,
        ) == connector_next(*old(phase), *old(barrier), event),
        call_ensures(listener_step, (place, heard), next) ==> (*final(place), next) == listener_next(
            *old(place),
            heard,
        ),
        call_ensures(ConnectServerStatus::new, (), fresh) ==> !fresh.active,
        call_ensures(ConnectServerStatus::wait_until_inactive, (&fresh,), holds) ==> holds
            == !fresh.active,
        call_ensures(ConnectServerStatus::mark_connected, (barrier,), ()) ==> final(barrier).active,
        call_ensures(ConnectServerStatus::mark_disconnected, (barrier,), holds) ==> !final(barrier).active && holds == old(barrier).active,
        call_ensures(listen_addr, (), addr) ==> addr@ == "0.0.0.0:4399"@,
{
}

} // verus!
