//! Per-peripheral session: the state machine that orders connection, service
//! validation, channel resolution, subscription, notification handling, script
//! execution and status reporting, and releases the connection exactly once.
//!
//! The machine is driven from outside: each state has one pending action (the
//! transport or sandbox operation to perform), and the outcome of that action
//! comes back as the next event.  `step` consumes one event and yields the next
//! state together with the next pending action.

use vstd::prelude::*;
use vstd::pervasive::unreached;
use crate::channels::{
    command_usable, resolve, service_present, spec_command_usable, spec_resolve, Characteristic,
    ResolvedChannels, PERIPHERAL_SERVICE_UUID,
};
use crate::dispatch::{
    build_invocation, spec_build_invocation, CommandError, InvocationModel, ScriptInvocation,
};
use crate::status::{exit_code_bytes, spec_decimal_bytes};

verus! {

/// A fatal failure: it is propagated to the caller once the session has been
/// disconnected, and ends the whole run.
#[derive(Clone, Copy, PartialEq, Eq, Structural, Debug)]
pub enum SessionError {
    /// Subscribing to the command channel failed.
    SubscribeFailed,
    /// The pre-execution status read failed.
    StatusReadFailed,
    /// Writing the exit code to the status channel failed.
    StatusWriteFailed,
    /// A notification payload yielded no invocation.
    BadPayload(CommandError),
}

/// How a session ended.
#[derive(Clone, Copy, PartialEq, Eq, Structural, Debug)]
pub enum SessionOutcome {
    /// The connection attempt failed; the peripheral is skipped, with nothing
    /// to release.
    NeverConnected,
    /// The peripheral does not advertise the target service: a normal "not our
    /// peripheral" outcome.
    NotOurPeripheral,
    /// The command channel is missing or cannot push notifications.
    CommandChannelUnusable,
    /// The notification feed closed: the normal end of a command session.
    FeedClosed,
    /// A fatal error ended the session.
    Failed(SessionError),
}

/// The state of one peripheral's session.  Each non-terminal state waits for
/// the outcome of exactly one pending action.
#[derive(PartialEq, Eq, Debug)]
pub enum SessionState {
    /// Discovered; the connection attempt is pending.
    Discovered,
    /// Connected; service discovery is pending.
    Connected,
    /// The target service is present; the characteristic listing is pending.
    ServiceValidated,
    /// Channels resolved and the command channel usable; the subscription to
    /// it is pending.
    ChannelsResolved(ResolvedChannels),
    /// Subscribed and idle: the next notification, or feed closure, is pending.
    Subscribed(ResolvedChannels),
    /// A notification arrived and a status channel exists; the pre-execution
    /// status read is pending.
    PreReading(ResolvedChannels, ScriptInvocation),
    /// The script is running; its completion is pending.
    Executing(ResolvedChannels),
    /// The script finished and a status channel exists; the status write of
    /// its exit code is pending.
    ReportingStatus(ResolvedChannels),
    /// The loop is over; the one disconnect of the session is pending.
    Disconnecting(SessionOutcome),
    /// Terminal: the session is over with the recorded outcome.
    Disconnected(SessionOutcome),
}

/// Mathematical model of a session state.
pub ghost enum StateModel {
    Discovered,
    Connected,
    ServiceValidated,
    ChannelsResolved(ResolvedChannels),
    Subscribed(ResolvedChannels),
    PreReading(ResolvedChannels, InvocationModel),
    Executing(ResolvedChannels),
    ReportingStatus(ResolvedChannels),
    Disconnecting(SessionOutcome),
    Disconnected(SessionOutcome),
}

impl View for SessionState {
    type V = StateModel;

    open spec fn view(&self) -> StateModel {
        match self {
            SessionState::Discovered => StateModel::Discovered,
            SessionState::Connected => StateModel::Connected,
            SessionState::ServiceValidated => StateModel::ServiceValidated,
            SessionState::ChannelsResolved(ch) => StateModel::ChannelsResolved(*ch),
            SessionState::Subscribed(ch) => StateModel::Subscribed(*ch),
            SessionState::PreReading(ch, inv) => StateModel::PreReading(*ch, inv@),
            SessionState::Executing(ch) => StateModel::Executing(*ch),
            SessionState::ReportingStatus(ch) => StateModel::ReportingStatus(*ch),
            SessionState::Disconnecting(o) => StateModel::Disconnecting(*o),
            SessionState::Disconnected(o) => StateModel::Disconnected(*o),
        }
    }
}

/// The outcome of one pending action, reported back by the driver.
#[derive(PartialEq, Eq, Debug)]
pub enum SessionEvent {
    /// Whether the connection attempt succeeded.
    ConnectCompleted(bool),
    /// The discovered service identifiers, or nothing when discovery failed.
    ServicesDiscovered(Option<Vec<u128>>),
    /// The characteristics listed for the validated service set.
    CharacteristicsDiscovered(Vec<Characteristic>),
    /// Whether subscribing to the command channel succeeded.
    SubscribeCompleted(bool),
    /// A notification arrived with this payload.
    NotificationReceived(Vec<u8>),
    /// The notification feed closed.
    FeedClosed,
    /// Whether the pre-execution status read succeeded.
    StatusReadCompleted(bool),
    /// The script finished with this exit code.
    ExecutionCompleted(i32),
    /// Whether the status write succeeded.
    StatusWriteCompleted(bool),
    /// The disconnect was attempted.
    DisconnectCompleted,
}

/// Mathematical model of an event.
pub ghost enum EventModel {
    ConnectCompleted(bool),
    ServicesDiscovered(Option<Seq<u128>>),
    CharacteristicsDiscovered(Seq<Characteristic>),
    SubscribeCompleted(bool),
    NotificationReceived(Seq<u8>),
    FeedClosed,
    StatusReadCompleted(bool),
    ExecutionCompleted(int),
    StatusWriteCompleted(bool),
    DisconnectCompleted,
}

impl View for SessionEvent {
    type V = EventModel;

    open spec fn view(&self) -> EventModel {
        match self {
            SessionEvent::ConnectCompleted(ok) => EventModel::ConnectCompleted(*ok),
            SessionEvent::ServicesDiscovered(services) => EventModel::ServicesDiscovered(
                match services {
                    Some(v) => Some(v@),
                    None => None,
                },
            ),
            SessionEvent::CharacteristicsDiscovered(cs) => EventModel::CharacteristicsDiscovered(
                cs@,
            ),
            SessionEvent::SubscribeCompleted(ok) => EventModel::SubscribeCompleted(*ok),
            SessionEvent::NotificationReceived(payload) => EventModel::NotificationReceived(
                payload@,
            ),
            SessionEvent::FeedClosed => EventModel::FeedClosed,
            SessionEvent::StatusReadCompleted(ok) => EventModel::StatusReadCompleted(*ok),
            SessionEvent::ExecutionCompleted(code) => EventModel::ExecutionCompleted(*code as int),
            SessionEvent::StatusWriteCompleted(ok) => EventModel::StatusWriteCompleted(*ok),
            SessionEvent::DisconnectCompleted => EventModel::DisconnectCompleted,
        }
    }
}

/// The operation the driver must perform next.
#[derive(PartialEq, Eq, Debug)]
pub enum SessionAction {
    /// Attempt to connect to the peripheral.
    Connect,
    /// Discover its services.
    DiscoverServices,
    /// List the characteristics it advertises.
    ListCharacteristics,
    /// Subscribe to this characteristic's notifications.
    Subscribe(Characteristic),
    /// Wait for the next notification or for the feed to close.
    AwaitNotification,
    /// Read this characteristic, as a pre-execution liveness signal.
    ReadStatus(Characteristic),
    /// Run this command line in the execution sandbox.
    RunScript(ScriptInvocation),
    /// Write these bytes to this characteristic without response.
    WriteStatus(Characteristic, Vec<u8>),
    /// Disconnect from the peripheral.
    Disconnect,
    /// The session is over; nothing is pending.
    Stop,
}

/// Mathematical model of an action.
pub ghost enum ActionModel {
    Connect,
    DiscoverServices,
    ListCharacteristics,
    Subscribe(Characteristic),
    AwaitNotification,
    ReadStatus(Characteristic),
    RunScript(InvocationModel),
    WriteStatus(Characteristic, Seq<u8>),
    Disconnect,
    Stop,
}

impl View for SessionAction {
    type V = ActionModel;

    open spec fn view(&self) -> ActionModel {
        match self {
            SessionAction::Connect => ActionModel::Connect,
            SessionAction::DiscoverServices => ActionModel::DiscoverServices,
            SessionAction::ListCharacteristics => ActionModel::ListCharacteristics,
            SessionAction::Subscribe(c) => ActionModel::Subscribe(*c),
            SessionAction::AwaitNotification => ActionModel::AwaitNotification,
            SessionAction::ReadStatus(c) => ActionModel::ReadStatus(*c),
            SessionAction::RunScript(inv) => ActionModel::RunScript(inv@),
            SessionAction::WriteStatus(c, bytes) => ActionModel::WriteStatus(*c, bytes@),
            SessionAction::Disconnect => ActionModel::Disconnect,
            SessionAction::Stop => ActionModel::Stop,
        }
    }
}

/// Whether an event can arrive in a state: each non-terminal state accepts
/// exactly the completions of its pending action, and the terminal state
/// accepts nothing.
pub open spec fn accepts(s: StateModel, e: EventModel) -> bool {
    match (s, e) {
        (StateModel::Discovered, EventModel::ConnectCompleted(_)) => true,
        (StateModel::Connected, EventModel::ServicesDiscovered(_)) => true,
        (StateModel::ServiceValidated, EventModel::CharacteristicsDiscovered(_)) => true,
        (StateModel::ChannelsResolved(_), EventModel::SubscribeCompleted(_)) => true,
        (StateModel::Subscribed(_), EventModel::NotificationReceived(_)) => true,
        (StateModel::Subscribed(_), EventModel::FeedClosed) => true,
        (StateModel::PreReading(_, _), EventModel::StatusReadCompleted(_)) => true,
        (StateModel::Executing(_), EventModel::ExecutionCompleted(_)) => true,
        (StateModel::ReportingStatus(_), EventModel::StatusWriteCompleted(_)) => true,
        (StateModel::Disconnecting(_), EventModel::DisconnectCompleted) => true,
        _ => false,
    }
}

/// One transition of the session machine: the next state and the next pending
/// action, as a mathematical function of the state, the event and the scripts
/// directory.
pub open spec fn spec_step(s: StateModel, e: EventModel, root: Seq<char>) -> (
    StateModel,
    ActionModel,
)
    recommends
        accepts(s, e),
{
    match (s, e) {
        (StateModel::Discovered, EventModel::ConnectCompleted(ok)) => {
            if ok {
                (StateModel::Connected, ActionModel::DiscoverServices)
            } else {
                (StateModel::Disconnected(SessionOutcome::NeverConnected), ActionModel::Stop)
            }
        },
        (StateModel::Connected, EventModel::ServicesDiscovered(services)) => {
            match services {
                Some(list) => {
                    if list.contains(PERIPHERAL_SERVICE_UUID) {
                        (StateModel::ServiceValidated, ActionModel::ListCharacteristics)
                    } else {
                        (
                            StateModel::Disconnecting(SessionOutcome::NotOurPeripheral),
                            ActionModel::Disconnect,
                        )
                    }
                },
                None => (
                    StateModel::Disconnecting(SessionOutcome::NotOurPeripheral),
                    ActionModel::Disconnect,
                ),
            }
        },
        (StateModel::ServiceValidated, EventModel::CharacteristicsDiscovered(cs)) => {
            let ch = spec_resolve(cs);
            if spec_command_usable(ch) {
                (StateModel::ChannelsResolved(ch), ActionModel::Subscribe(ch.command.unwrap()))
            } else {
                (
                    StateModel::Disconnecting(SessionOutcome::CommandChannelUnusable),
                    ActionModel::Disconnect,
                )
            }
        },
        (StateModel::ChannelsResolved(ch), EventModel::SubscribeCompleted(ok)) => {
            if ok {
                (StateModel::Subscribed(ch), ActionModel::AwaitNotification)
            } else {
                (
                    StateModel::Disconnecting(
                        SessionOutcome::Failed(SessionError::SubscribeFailed),
                    ),
                    ActionModel::Disconnect,
                )
            }
        },
        (StateModel::Subscribed(ch), EventModel::NotificationReceived(payload)) => {
            match spec_build_invocation(payload, root) {
                Ok(inv) => {
                    match ch.status {
                        Some(st) => (
                            StateModel::PreReading(ch, inv),
                            ActionModel::ReadStatus(st),
                        ),
                        None => (StateModel::Executing(ch), ActionModel::RunScript(inv)),
                    }
                },
                Err(err) => (
                    StateModel::Disconnecting(
                        SessionOutcome::Failed(SessionError::BadPayload(err)),
                    ),
                    ActionModel::Disconnect,
                ),
            }
        },
        (StateModel::Subscribed(_), EventModel::FeedClosed) => (
            StateModel::Disconnecting(SessionOutcome::FeedClosed),
            ActionModel::Disconnect,
        ),
        (StateModel::PreReading(ch, inv), EventModel::StatusReadCompleted(ok)) => {
            if ok {
                (StateModel::Executing(ch), ActionModel::RunScript(inv))
            } else {
                (
                    StateModel::Disconnecting(
                        SessionOutcome::Failed(SessionError::StatusReadFailed),
                    ),
                    ActionModel::Disconnect,
                )
            }
        },
        (StateModel::Executing(ch), EventModel::ExecutionCompleted(code)) => {
            match ch.status {
                Some(st) => (
                    StateModel::ReportingStatus(ch),
                    ActionModel::WriteStatus(st, spec_decimal_bytes(code)),
                ),
                None => (StateModel::Subscribed(ch), ActionModel::AwaitNotification),
            }
        },
        (StateModel::ReportingStatus(ch), EventModel::StatusWriteCompleted(ok)) => {
            if ok {
                (StateModel::Subscribed(ch), ActionModel::AwaitNotification)
            } else {
                (
                    StateModel::Disconnecting(
                        SessionOutcome::Failed(SessionError::StatusWriteFailed),
                    ),
                    ActionModel::Disconnect,
                )
            }
        },
        (StateModel::Disconnecting(o), EventModel::DisconnectCompleted) => (
            StateModel::Disconnected(o),
            ActionModel::Stop,
        ),
        _ => (s, ActionModel::Stop),
    }
}

/// A fresh session for one discovered peripheral: the connection attempt is
/// the first pending action.
pub fn start_session() -> (r: (SessionState, SessionAction))
    ensures
        r.0@ == StateModel::Discovered,
        r.1@ == ActionModel::Connect,
{
    (SessionState::Discovered, SessionAction::Connect)
}

/// True iff the event is the completion of the state's pending action; the
/// driver checks this before calling `step`.
pub fn event_accepted(state: &SessionState, event: &SessionEvent) -> (r: bool)
    ensures
        r == accepts(state@, event@),
{
    match (state, event) {
        (SessionState::Discovered, SessionEvent::ConnectCompleted(_)) => true,
        (SessionState::Connected, SessionEvent::ServicesDiscovered(_)) => true,
        (SessionState::ServiceValidated, SessionEvent::CharacteristicsDiscovered(_)) => true,
        (SessionState::ChannelsResolved(_), SessionEvent::SubscribeCompleted(_)) => true,
        (SessionState::Subscribed(_), SessionEvent::NotificationReceived(_)) => true,
        (SessionState::Subscribed(_), SessionEvent::FeedClosed) => true,
        (SessionState::PreReading(_, _), SessionEvent::StatusReadCompleted(_)) => true,
        (SessionState::Executing(_), SessionEvent::ExecutionCompleted(_)) => true,
        (SessionState::ReportingStatus(_), SessionEvent::StatusWriteCompleted(_)) => true,
        (SessionState::Disconnecting(_), SessionEvent::DisconnectCompleted) => true,
        _ => false,
    }
}

/// Consumes one event and yields the next state and the next pending action.
pub fn step(state: SessionState, event: SessionEvent, scripts_root: &str) -> (r: (
    SessionState,
    SessionAction,
))
    requires
        accepts(state@, event@),
    ensures
        r.0@ == spec_step(state@, event@, scripts_root@).0,
        r.1@ == spec_step(state@, event@, scripts_root@).1,
{
    match (state, event) {
        (SessionState::Discovered, SessionEvent::ConnectCompleted(ok)) => {
            if ok {
                (SessionState::Connected, SessionAction::DiscoverServices)
            } else {
                (
                    SessionState::Disconnected(SessionOutcome::NeverConnected),
                    SessionAction::Stop,
                )
            }
        },
        (SessionState::Connected, SessionEvent::ServicesDiscovered(services)) => {
            match services {
                Some(list) => {
                    if service_present(&list, PERIPHERAL_SERVICE_UUID) {
                        (SessionState::ServiceValidated, SessionAction::ListCharacteristics)
                    } else {
                        (
                            SessionState::Disconnecting(SessionOutcome::NotOurPeripheral),
                            SessionAction::Disconnect,
                        )
                    }
                },
                None => (
                    SessionState::Disconnecting(SessionOutcome::NotOurPeripheral),
                    SessionAction::Disconnect,
                ),
            }
        },
        (SessionState::ServiceValidated, SessionEvent::CharacteristicsDiscovered(cs)) => {
            let ch = resolve(&cs);
            if command_usable(&ch) {
                let cmd = match ch.command {
                    Some(c) => c,
                    None => { unreached() },
                };
                (SessionState::ChannelsResolved(ch), SessionAction::Subscribe(cmd))
            } else {
                (
                    SessionState::Disconnecting(SessionOutcome::CommandChannelUnusable),
                    SessionAction::Disconnect,
                )
            }
        },
        (SessionState::ChannelsResolved(ch), SessionEvent::SubscribeCompleted(ok)) => {
            if ok {
                (SessionState::Subscribed(ch), SessionAction::AwaitNotification)
            } else {
                (
                    SessionState::Disconnecting(
                        SessionOutcome::Failed(SessionError::SubscribeFailed),
                    ),
                    SessionAction::Disconnect,
                )
            }
        },
        (SessionState::Subscribed(ch), SessionEvent::NotificationReceived(payload)) => {
            match build_invocation(payload.as_slice(), scripts_root) {
                Ok(inv) => {
                    match ch.status {
                        Some(st) => (
                            SessionState::PreReading(ch, inv),
                            SessionAction::ReadStatus(st),
                        ),
                        None => (SessionState::Executing(ch), SessionAction::RunScript(inv)),
                    }
                },
                Err(err) => (
                    SessionState::Disconnecting(
                        SessionOutcome::Failed(SessionError::BadPayload(err)),
                    ),
                    SessionAction::Disconnect,
                ),
            }
        },
        (SessionState::Subscribed(_), SessionEvent::FeedClosed) => (
            SessionState::Disconnecting(SessionOutcome::FeedClosed),
            SessionAction::Disconnect,
        ),
        (SessionState::PreReading(ch, inv), SessionEvent::StatusReadCompleted(ok)) => {
            if ok {
                (SessionState::Executing(ch), SessionAction::RunScript(inv))
            } else {
                (
                    SessionState::Disconnecting(
                        SessionOutcome::Failed(SessionError::StatusReadFailed),
                    ),
                    SessionAction::Disconnect,
                )
            }
        },
        (SessionState::Executing(ch), SessionEvent::ExecutionCompleted(code)) => {
            match ch.status {
                Some(st) => (
                    SessionState::ReportingStatus(ch),
                    SessionAction::WriteStatus(st, exit_code_bytes(code)),
                ),
                None => (SessionState::Subscribed(ch), SessionAction::AwaitNotification),
            }
        },
        (SessionState::ReportingStatus(ch), SessionEvent::StatusWriteCompleted(ok)) => {
            if ok {
                (SessionState::Subscribed(ch), SessionAction::AwaitNotification)
            } else {
                (
                    SessionState::Disconnecting(
                        SessionOutcome::Failed(SessionError::StatusWriteFailed),
                    ),
                    SessionAction::Disconnect,
                )
            }
        },
        (SessionState::Disconnecting(o), SessionEvent::DisconnectCompleted) => (
            SessionState::Disconnected(o),
            SessionAction::Stop,
        ),
        _ => { unreached() },
    }
}

/// The states a session visits when the events are consumed in order, the
/// start state included.
pub open spec fn run_states(s: StateModel, events: Seq<EventModel>, root: Seq<char>) -> Seq<
    StateModel,
>
    decreases events.len(),
{
    if events.len() == 0 {
        seq![s]
    } else {
        seq![s] + run_states(spec_step(s, events[0], root).0, events.drop_first(), root)
    }
}

/// The actions a session issues when the events are consumed in order.
pub open spec fn run_actions(s: StateModel, events: Seq<EventModel>, root: Seq<char>) -> Seq<
    ActionModel,
>
    decreases events.len(),
{
    if events.len() == 0 {
        seq![]
    } else {
        seq![spec_step(s, events[0], root).1] + run_actions(
            spec_step(s, events[0], root).0,
            events.drop_first(),
            root,
        )
    }
}

/// Every event of the sequence is accepted in the state in which it arrives.
pub open spec fn accepted_run(s: StateModel, events: Seq<EventModel>, root: Seq<char>) -> bool
    decreases events.len(),
{
    events.len() == 0 || (accepts(s, events[0]) && accepted_run(
        spec_step(s, events[0], root).0,
        events.drop_first(),
        root,
    ))
}

/// How many disconnects a sequence of actions issues.
pub open spec fn count_disconnects(actions: Seq<ActionModel>) -> nat
    decreases actions.len(),
{
    if actions.len() == 0 {
        0
    } else {
        (if actions[0] is Disconnect {
            1nat
        } else {
            0nat
        }) + count_disconnects(actions.drop_first())
    }
}

/// A state in which the session has not yet begun (or skipped) its disconnect.
pub open spec fn live_state(s: StateModel) -> bool {
    match s {
        StateModel::Disconnecting(_) => false,
        StateModel::Disconnected(_) => false,
        _ => true,
    }
}

pub proof fn lemma_run_states_len(s: StateModel, events: Seq<EventModel>, root: Seq<char>)
    ensures
        run_states(s, events, root).len() == events.len() + 1,
    decreases events.len(),
{
    if events.len() > 0 {
        lemma_run_states_len(spec_step(s, events[0], root).0, events.drop_first(), root);
    }
}

/// The terminal state accepts no event: once disconnected, the run is over.
pub proof fn lemma_disconnected_is_terminal(
    o: SessionOutcome,
    events: Seq<EventModel>,
    root: Seq<char>,
)
    requires
        accepted_run(StateModel::Disconnected(o), events, root),
    ensures
        events.len() == 0,
        run_states(StateModel::Disconnected(o), events, root) =~= seq![
            StateModel::Disconnected(o),
        ],
{
    if events.len() > 0 {
        assert(!accepts(StateModel::Disconnected(o), events[0]));
    }
}

/// From `Disconnecting` the session only performs its one pending disconnect
/// and stops: every later state is the matching terminal one, and no further
/// disconnect is issued.
pub proof fn lemma_disconnecting_terminal_path(
    o: SessionOutcome,
    events: Seq<EventModel>,
    root: Seq<char>,
)
    requires
        accepted_run(StateModel::Disconnecting(o), events, root),
    ensures
        forall|st: StateModel| #[trigger] run_states(
            StateModel::Disconnecting(o),
            events,
            root,
        ).contains(st) ==> st == StateModel::Disconnecting(o) || st == StateModel::Disconnected(o),
        count_disconnects(run_actions(StateModel::Disconnecting(o), events, root)) == 0,
        events.len() > 0 ==> run_states(StateModel::Disconnecting(o), events, root).last()
            == StateModel::Disconnected(o),
{
    let s = StateModel::Disconnecting(o);
    let term = StateModel::Disconnected(o);
    if events.len() == 0 {
        assert(run_states(s, events, root) =~= seq![s]);
        assert forall|st: StateModel| #[trigger] run_states(s, events, root).contains(st) implies st
            == s || st == term by {
            let i = choose|i: int|
                0 <= i < run_states(s, events, root).len() && run_states(s, events, root)[i] == st;
        }
    } else {
        let e = events[0];
        let rest = events.drop_first();
        assert(accepts(s, e));
        assert(e == EventModel::DisconnectCompleted);
        assert(spec_step(s, e, root).0 == term);
        assert(spec_step(s, e, root).1 == ActionModel::Stop);
        lemma_disconnected_is_terminal(o, rest, root);
        assert(run_states(term, rest, root) =~= seq![term]);
        assert(run_states(s, events, root) == seq![s] + run_states(term, rest, root));
        assert(run_states(s, events, root) =~= seq![s, term]);
        assert(run_actions(term, rest, root) =~= Seq::<ActionModel>::empty());
        assert(run_actions(s, events, root) == seq![ActionModel::Stop] + run_actions(
            term,
            rest,
            root,
        ));
        assert(run_actions(s, events, root) =~= seq![ActionModel::Stop]);
        assert(count_disconnects(seq![ActionModel::Stop]) == 0) by {
            assert(seq![ActionModel::Stop].drop_first() =~= Seq::<ActionModel>::empty());
            assert(count_disconnects(Seq::<ActionModel>::empty()) == 0);
            assert(!(seq![ActionModel::Stop][0] is Disconnect));
        }
        assert(run_states(s, events, root).last() == term);
        assert forall|st: StateModel| #[trigger] run_states(s, events, root).contains(st) implies st
            == s || st == term by {
            let i = choose|i: int|
                0 <= i < run_states(s, events, root).len() && run_states(s, events, root)[i] == st;
        }
    }
}

proof fn lemma_count_from_live(s: StateModel, events: Seq<EventModel>, root: Seq<char>)
    requires
        live_state(s),
        accepted_run(s, events, root),
        run_states(s, events, root).last() is Disconnected,
    ensures
        count_disconnects(run_actions(s, events, root)) == (
        if run_states(s, events, root).last() == StateModel::Disconnected(
            SessionOutcome::NeverConnected,
        ) {
            0nat
        } else {
            1nat
        }),
    decreases events.len(),
{
    if events.len() == 0 {
        assert(run_states(s, events, root).last() == s);
        assert(false);
    } else {
        let e = events[0];
        let next = spec_step(s, e, root).0;
        let act = spec_step(s, e, root).1;
        let rest = events.drop_first();
        lemma_run_states_len(next, rest, root);
        assert(run_states(s, events, root) == seq![s] + run_states(next, rest, root));
        assert(run_states(s, events, root).last() == run_states(next, rest, root).last());
        assert(run_actions(s, events, root) == seq![act] + run_actions(next, rest, root));
        assert(count_disconnects(run_actions(s, events, root)) == (if act is Disconnect {
            1nat
        } else {
            0nat
        }) + count_disconnects(run_actions(s, events, root).drop_first()));
        assert(run_actions(s, events, root).drop_first() =~= run_actions(next, rest, root));
        if live_state(next) {
            assert(!(act is Disconnect));
            lemma_count_from_live(next, rest, root);
        } else if next is Disconnecting {
            let o = next->Disconnecting_0;
            assert(act is Disconnect);
            assert(o != SessionOutcome::NeverConnected);
            lemma_disconnecting_terminal_path(o, rest, root);
            if rest.len() == 0 {
                assert(run_states(next, rest, root).last() == next);
                assert(false);
            }
            assert(run_states(next, rest, root).last() == StateModel::Disconnected(o));
        } else {
            let o = next->Disconnected_0;
            assert(o == SessionOutcome::NeverConnected);
            assert(!(act is Disconnect));
            lemma_disconnected_is_terminal(o, rest, root);
            assert(run_states(next, rest, root).last() == StateModel::Disconnected(o));
            assert(count_disconnects(run_actions(next, rest, root)) == 0);
        }
    }
}

/// A session issues its disconnect exactly once — and not at all for a session
/// whose connection attempt already failed, where there is nothing to release.
pub proof fn lemma_disconnect_exactly_once(events: Seq<EventModel>, root: Seq<char>)
    requires
        accepted_run(StateModel::Discovered, events, root),
        run_states(StateModel::Discovered, events, root).last() is Disconnected,
    ensures
        run_states(StateModel::Discovered, events, root).last() == StateModel::Disconnected(
            SessionOutcome::NeverConnected,
        ) ==> count_disconnects(run_actions(StateModel::Discovered, events, root)) == 0,
        run_states(StateModel::Discovered, events, root).last() != StateModel::Disconnected(
            SessionOutcome::NeverConnected,
        ) ==> count_disconnects(run_actions(StateModel::Discovered, events, root)) == 1,
{
    lemma_count_from_live(StateModel::Discovered, events, root);
}

/// With the command identifier missing from the characteristic set, or its
/// notify flag absent, the session heads straight for disconnection: no
/// continuation of the run enters `Subscribed`, and a completed run ends
/// disconnected with the channel-unusable outcome.
pub proof fn lemma_unusable_channels_never_subscribed(
    cs: Seq<Characteristic>,
    events: Seq<EventModel>,
    root: Seq<char>,
)
    requires
        !spec_command_usable(spec_resolve(cs)),
        accepted_run(
            StateModel::ServiceValidated,
            seq![EventModel::CharacteristicsDiscovered(cs)] + events,
            root,
        ),
    ensures
        forall|st: StateModel| #[trigger] run_states(
            StateModel::ServiceValidated,
            seq![EventModel::CharacteristicsDiscovered(cs)] + events,
            root,
        ).contains(st) ==> !(st is Subscribed),
        events.len() > 0 ==> run_states(
            StateModel::ServiceValidated,
            seq![EventModel::CharacteristicsDiscovered(cs)] + events,
            root,
        ).last() == StateModel::Disconnected(SessionOutcome::CommandChannelUnusable),
{
    let s = StateModel::ServiceValidated;
    let evs = seq![EventModel::CharacteristicsDiscovered(cs)] + events;
    assert(evs[0] == EventModel::CharacteristicsDiscovered(cs));
    assert(evs.drop_first() =~= events);
    let next = spec_step(s, evs[0], root).0;
    assert(next == StateModel::Disconnecting(SessionOutcome::CommandChannelUnusable));
    lemma_disconnecting_terminal_path(SessionOutcome::CommandChannelUnusable, events, root);
    let run = run_states(s, evs, root);
    let rest = run_states(next, events, root);
    lemma_run_states_len(next, events, root);
    assert(run == seq![s] + rest);
    assert forall|st: StateModel| #[trigger] run.contains(st) implies !(st is Subscribed) by {
        let i = choose|i: int| 0 <= i < run.len() && run[i] == st;
        if i == 0 {
            assert(st == s);
        } else {
            assert(rest[i - 1] == st);
            assert(rest.contains(st));
        }
    }
    if events.len() > 0 {
        assert(run.last() == rest.last());
    }
}

/// While one notification's cycle is in flight — the pre-read, the execution
/// or the status write still pending — no further notification is accepted:
/// dispatch is strictly sequential, and a second notification waits in the
/// transport's buffer.
pub proof fn lemma_no_overlapping_dispatch(s: StateModel, payload: Seq<u8>)
    ensures
        (s is PreReading || s is Executing || s is ReportingStatus) ==> !accepts(
            s,
            EventModel::NotificationReceived(payload),
        ),
{
}

} // verus!
