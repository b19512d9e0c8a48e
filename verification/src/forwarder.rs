//! The forwarder: the per-connection state machine that decides, for each
//! inbound event, what is sent to whom, and that cleans up when the
//! connection ends. The caller reads the socket, keeps the timer and
//! performs the actions.

use crate::connections::connection::{attached, recipients_of};
use crate::registry::{
    after_removal, drain_report, drained, has_id, index_of, lemma_removed_is_gone, registry_wf,
    removal_answer, DrainReport, Registry,
};
use crate::register::registration::RegistrationView;
use crate::sockets::SocketType;
use vstd::prelude::*;

verus! {

/// Where a forwarder stands.
#[derive(Debug, Clone, Copy, PartialEq, Eq, Structural)]
pub enum ForwarderState {
    /// It waits for the next inbound event.
    Running,
    /// It has seen the end of its connection and is to be drained.
    Draining,
    /// It has drained: its connection is detached and it acts no more.
    Closed,
}

/// What happened on a connection.
#[derive(Debug, Clone, Copy, PartialEq, Eq, Structural)]
pub enum Inbound {
    /// A frame arrived that is to be forwarded.
    Message,
    /// A pong arrived.
    Pong,
    /// Reading failed.
    Failure,
    /// The stream ended.
    End,
    /// Nothing arrived for [`crate::config::IDLE_SECONDS`] seconds.
    Idle,
}

/// What the caller is to do next.
#[derive(Debug, Clone, PartialEq, Eq)]
pub enum Action {
    /// Nothing: wait for the next event.
    Skip,
    /// Send one ping with an empty payload to the forwarder's own connection.
    Ping,
    /// Send a copy of the frame to each of these connections, in this
    /// order; a failed send does not stop the others.
    Deliver(Vec<String>),
    /// Stop reading and drain the forwarder.
    Drain,
}

/// An action as a value.
pub enum ActionView {
    Skip,
    Ping,
    Deliver(Seq<Seq<char>>),
    Drain,
}

impl View for Action {
    type V = ActionView;

    open spec fn view(&self) -> ActionView {
        match self {
            Action::Skip => ActionView::Skip,
            Action::Ping => ActionView::Ping,
            Action::Deliver(ids) => ActionView::Deliver(ids.deep_view()),
            Action::Drain => ActionView::Drain,
        }
    }
}

/// Whether the connection `con_id` still forwards within the registration
/// `reg_id`: the registration is in the registry, is not destroyed, and
/// holds the connection.
pub open spec fn live(regs: Seq<RegistrationView>, reg_id: Seq<char>, con_id: Seq<char>) -> bool {
    &&& has_id(regs, reg_id)
    &&& !regs[index_of(regs, reg_id)].destroy
    &&& attached(regs[index_of(regs, reg_id)].connections, con_id)
}

/// What a running forwarder does on an event. A pong and a failed read are
/// passed over; the end of the stream drains; silence is answered with a
/// ping; a frame is delivered to its recipients while the connection is
/// live, and drains once it is not.
pub open spec fn decision(
    regs: Seq<RegistrationView>,
    reg_id: Seq<char>,
    con_id: Seq<char>,
    role: SocketType,
    event: Inbound,
) -> ActionView {
    match event {
        Inbound::Pong => ActionView::Skip,
        Inbound::Failure => ActionView::Skip,
        Inbound::End => ActionView::Drain,
        Inbound::Idle => ActionView::Ping,
        Inbound::Message => if live(regs, reg_id, con_id) {
            ActionView::Deliver(
                recipients_of(regs[index_of(regs, reg_id)].connections, role, con_id),
            )
        } else {
            ActionView::Drain
        },
    }
}

/// The state after an event, and the action: a running forwarder decides
/// as [`decision`] says and turns to draining when the decision is to
/// drain; a draining one is still to be drained; a closed one does nothing.
pub open spec fn transition(
    state: ForwarderState,
    regs: Seq<RegistrationView>,
    reg_id: Seq<char>,
    con_id: Seq<char>,
    role: SocketType,
    event: Inbound,
) -> (ForwarderState, ActionView) {
    match state {
        ForwarderState::Running => {
            let action = decision(regs, reg_id, con_id, role, event);
            if action is Drain {
                (ForwarderState::Draining, action)
            } else {
                (ForwarderState::Running, action)
            }
        },
        ForwarderState::Draining => (ForwarderState::Draining, ActionView::Drain),
        ForwarderState::Closed => (ForwarderState::Closed, ActionView::Skip),
    }
}

/// Once a registration is destroyed, no frame is delivered to its peers:
/// whatever the event, no forwarder of the registration decides to deliver.
pub proof fn lemma_destroyed_delivers_nothing(
    state: ForwarderState,
    regs: Seq<RegistrationView>,
    reg_id: Seq<char>,
    con_id: Seq<char>,
    role: SocketType,
    event: Inbound,
)
    requires
        has_id(regs, reg_id) ==> regs[index_of(regs, reg_id)].destroy,
    ensures
        !(transition(state, regs, reg_id, con_id, role, event).1 is Deliver),
        state is Running && event is Message ==> transition(
            state,
            regs,
            reg_id,
            con_id,
            role,
            event,
        ) == (ForwarderState::Draining, ActionView::Drain),
{
}

/// After a remove request is granted, a frame that arrives on a connection
/// of the removed registration is not delivered: its forwarder drains.
pub proof fn lemma_removed_delivers_nothing(
    regs: Seq<RegistrationView>,
    id: Seq<char>,
    key: Seq<char>,
    host_key: Seq<char>,
    con_id: Seq<char>,
    role: SocketType,
)
    requires
        registry_wf(regs),
        removal_answer(regs, id, key, host_key) is Ok,
    ensures
        transition(
            ForwarderState::Running,
            after_removal(regs, id, key, host_key),
            id,
            con_id,
            role,
            Inbound::Message,
        ) == (ForwarderState::Draining, ActionView::Drain),
{
    lemma_removed_is_gone(regs, id);
}

/// A running forwarder answers silence with one ping and keeps running,
/// and a pong delivers nothing: it does not count as a frame.
pub proof fn lemma_idle_pings(
    regs: Seq<RegistrationView>,
    reg_id: Seq<char>,
    con_id: Seq<char>,
    role: SocketType,
)
    ensures
        transition(ForwarderState::Running, regs, reg_id, con_id, role, Inbound::Idle) == (
            ForwarderState::Running,
            ActionView::Ping,
        ),
        transition(ForwarderState::Running, regs, reg_id, con_id, role, Inbound::Pong) == (
            ForwarderState::Running,
            ActionView::Skip,
        ),
{
}

/// A forwarder never goes back: a draining one stays draining and a closed
/// one stays closed, whatever the event.
pub proof fn lemma_no_way_back(
    state: ForwarderState,
    regs: Seq<RegistrationView>,
    reg_id: Seq<char>,
    con_id: Seq<char>,
    role: SocketType,
    event: Inbound,
)
    ensures
        state is Draining ==> transition(state, regs, reg_id, con_id, role, event).0 is Draining,
        state is Closed ==> transition(state, regs, reg_id, con_id, role, event).0 is Closed,
{
}

/// The forwarder of one connection.
#[derive(Debug, PartialEq, Eq)]
pub struct Forwarder {
    pub reg_uuid: String,
    pub con_uuid: String,
    pub sock_type: SocketType,
    pub state: ForwarderState,
}

/// A forwarder as a value.
pub struct ForwarderView {
    pub reg_uuid: Seq<char>,
    pub con_uuid: Seq<char>,
    pub sock_type: SocketType,
    pub state: ForwarderState,
}

impl View for Forwarder {
    type V = ForwarderView;

    open spec fn view(&self) -> ForwarderView {
        ForwarderView {
            reg_uuid: self.reg_uuid@,
            con_uuid: self.con_uuid@,
            sock_type: self.sock_type,
            state: self.state,
        }
    }
}

impl Forwarder {
    /// Takes one event and says what to do.
    pub fn step(&mut self, registrations: &Registry, event: Inbound) -> (action: Action)
        requires
            registrations.wf(),
        ensures
            final(self)@ == (ForwarderView {
                state: transition(
                    old(self)@.state,
                    registrations@,
                    old(self)@.reg_uuid,
                    old(self)@.con_uuid,
                    old(self)@.sock_type,
                    event,
                ).0,
                ..old(self)@
            }),
            action@ == transition(
                old(self)@.state,
                registrations@,
                old(self)@.reg_uuid,
                old(self)@.con_uuid,
                old(self)@.sock_type,
                event,
            ).1,
    {
        match self.state {
            ForwarderState::Running => {},
            ForwarderState::Draining => {
                return Action::Drain;
            },
            ForwarderState::Closed => {
                return Action::Skip;
            },
        }
        match event {
            Inbound::Pong => Action::Skip,
            Inbound::Failure => Action::Skip,
            Inbound::Idle => Action::Ping,
            Inbound::End => {
                self.state = ForwarderState::Draining;
                Action::Drain
            },
            Inbound::Message => {
                match registrations.lookup(self.reg_uuid.as_str()) {
                    Some(reg) => {
                        if !reg.destroy && reg.find_connection(self.con_uuid.as_str()).is_some() {
                            Action::Deliver(reg.recipients(self.sock_type, self.con_uuid.as_str()))
                        } else {
                            self.state = ForwarderState::Draining;
                            Action::Drain
                        }
                    },
                    None => {
                        self.state = ForwarderState::Draining;
                        Action::Drain
                    },
                }
            },
        }
    }

    /// Drains the forwarder, whatever it was doing: its connection is
    /// detached, its registration removed where that leaves it without
    /// connections and `auto_remove` is on, and the forwarder is closed. A
    /// closed forwarder changes nothing.
    pub fn drain(&mut self, registrations: &mut Registry, auto_remove: bool) -> (report:
        DrainReport)
        requires
            old(registrations).wf(),
        ensures
            final(registrations).wf(),
            final(self)@ == (ForwarderView { state: ForwarderState::Closed, ..old(self)@ }),
            old(self)@.state is Closed ==> final(registrations)@ == old(registrations)@ && report
                == (DrainReport { detached: false, remaining: 0, removed: false }),
            !(old(self)@.state is Closed) ==> final(registrations)@ == drained(
                old(registrations)@,
                old(self)@.reg_uuid,
                old(self)@.con_uuid,
                auto_remove,
            ) && report == drain_report(
                old(registrations)@,
                old(self)@.reg_uuid,
                old(self)@.con_uuid,
                auto_remove,
            ),
    {
        match self.state {
            ForwarderState::Closed => DrainReport { detached: false, remaining: 0, removed: false },
            _ => {
                self.state = ForwarderState::Closed;
                registrations.drain(self.reg_uuid.as_str(), self.con_uuid.as_str(), auto_remove)
            },
        }
    }
}

} // verus!
