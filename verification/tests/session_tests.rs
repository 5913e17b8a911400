use ble_central::channels::{
    CharProps, Characteristic, PERIPHERAL_SERVICE_UUID, SCRIPT_CHARACTERISTIC_UUID,
    STATUS_CHARACTERISTIC_UUID,
};
use ble_central::dispatch::CommandError;
use ble_central::session::{
    event_accepted, start_session, step, SessionAction, SessionError, SessionEvent, SessionOutcome,
    SessionState,
};

fn chr(uuid: u128, notify: bool) -> Characteristic {
    Characteristic {
        uuid,
        service_uuid: PERIPHERAL_SERVICE_UUID,
        properties: CharProps { notify, read: true, write_without_response: true },
    }
}

const ROOT: &str = "/home/pi/scripts";

/// Drives the session up to the idle (subscribed) state and returns it,
/// recording every action issued on the way.
fn drive_to_subscribed(
    characteristics: Vec<Characteristic>,
    actions: &mut Vec<SessionAction>,
) -> SessionState {
    let (state, action) = start_session();
    assert_eq!(action, SessionAction::Connect);
    actions.push(action);

    let (state, action) = step(state, SessionEvent::ConnectCompleted(true), ROOT);
    assert_eq!(state, SessionState::Connected);
    assert_eq!(action, SessionAction::DiscoverServices);
    actions.push(action);

    let (state, action) = step(
        state,
        SessionEvent::ServicesDiscovered(Some(vec![0x99_u128, PERIPHERAL_SERVICE_UUID])),
        ROOT,
    );
    assert_eq!(state, SessionState::ServiceValidated);
    assert_eq!(action, SessionAction::ListCharacteristics);
    actions.push(action);

    let command = characteristics
        .iter()
        .rev()
        .find(|c| c.uuid == SCRIPT_CHARACTERISTIC_UUID)
        .copied()
        .unwrap();
    let (state, action) =
        step(state, SessionEvent::CharacteristicsDiscovered(characteristics), ROOT);
    assert_eq!(action, SessionAction::Subscribe(command));
    actions.push(action);

    let (state, action) = step(state, SessionEvent::SubscribeCompleted(true), ROOT);
    assert_eq!(action, SessionAction::AwaitNotification);
    actions.push(action);
    state
}

fn count_disconnects(actions: &[SessionAction]) -> usize {
    actions.iter().filter(|a| **a == SessionAction::Disconnect).count()
}

#[test]
fn scenario_no_status_channel_executes_without_feedback() {
    let mut actions = Vec::new();
    let state = drive_to_subscribed(vec![chr(SCRIPT_CHARACTERISTIC_UUID, true)], &mut actions);

    // The command goes straight to execution: no pre-read.
    let (state, action) = step(state, SessionEvent::NotificationReceived(b"blink.sh".to_vec()), ROOT);
    match &action {
        SessionAction::RunScript(inv) => {
            assert_eq!(inv.program, "/home/pi/scripts/blink.sh");
            assert!(inv.args.is_empty());
        }
        other => panic!("expected RunScript, got {:?}", other),
    }
    assert!(matches!(state, SessionState::Executing(_)));

    // After execution there is no status write: the session is idle again.
    let (state, action) = step(state, SessionEvent::ExecutionCompleted(0), ROOT);
    assert_eq!(action, SessionAction::AwaitNotification);
    assert!(matches!(state, SessionState::Subscribed(_)));
    assert_eq!(count_disconnects(&actions), 0);
}

#[test]
fn scenario_back_to_back_notifications_stay_sequential() {
    let mut actions = Vec::new();
    let state = drive_to_subscribed(
        vec![chr(SCRIPT_CHARACTERISTIC_UUID, true), chr(STATUS_CHARACTERISTIC_UUID, false)],
        &mut actions,
    );
    let second = SessionEvent::NotificationReceived(b"second.sh".to_vec());

    // First notification: the pre-read starts its cycle.
    let (state, action) = step(state, SessionEvent::NotificationReceived(b"first.sh".to_vec()), ROOT);
    assert!(matches!(action, SessionAction::ReadStatus(_)));
    assert!(matches!(state, SessionState::PreReading(_, _)));
    assert!(!event_accepted(&state, &second));

    // Pre-read done: the script runs; still no second dispatch.
    let (state, action) = step(state, SessionEvent::StatusReadCompleted(true), ROOT);
    match &action {
        SessionAction::RunScript(inv) => assert_eq!(inv.program, "/home/pi/scripts/first.sh"),
        other => panic!("expected RunScript, got {:?}", other),
    }
    assert!(!event_accepted(&state, &second));

    // Execution done: the exit code is written; still no second dispatch.
    let (state, action) = step(state, SessionEvent::ExecutionCompleted(3), ROOT);
    match &action {
        SessionAction::WriteStatus(c, bytes) => {
            assert_eq!(c.uuid, STATUS_CHARACTERISTIC_UUID);
            assert_eq!(bytes, &b"3".to_vec());
        }
        other => panic!("expected WriteStatus, got {:?}", other),
    }
    assert!(!event_accepted(&state, &second));

    // Only once the full cycle is over is the second notification accepted.
    let (state, action) = step(state, SessionEvent::StatusWriteCompleted(true), ROOT);
    assert_eq!(action, SessionAction::AwaitNotification);
    assert!(event_accepted(&state, &second));
    let (_, action) = step(state, second, ROOT);
    match &action {
        SessionAction::RunScript(_) | SessionAction::ReadStatus(_) => {}
        other => panic!("expected the second cycle to start, got {:?}", other),
    }
}

#[test]
fn scenario_missing_service_disconnects_without_resolution() {
    let (state, _) = start_session();
    let (state, action) = step(state, SessionEvent::ConnectCompleted(true), ROOT);
    assert_eq!(action, SessionAction::DiscoverServices);

    // The target service is absent: straight to disconnection, never listing
    // characteristics.
    let (state, action) =
        step(state, SessionEvent::ServicesDiscovered(Some(vec![0x7_u128])), ROOT);
    assert_eq!(state, SessionState::Disconnecting(SessionOutcome::NotOurPeripheral));
    assert_eq!(action, SessionAction::Disconnect);

    let (state, action) = step(state, SessionEvent::DisconnectCompleted, ROOT);
    assert_eq!(state, SessionState::Disconnected(SessionOutcome::NotOurPeripheral));
    assert_eq!(action, SessionAction::Stop);
}

#[test]
fn scenario_failed_discovery_counts_as_missing_service() {
    let (state, _) = start_session();
    let (state, _) = step(state, SessionEvent::ConnectCompleted(true), ROOT);
    let (state, action) = step(state, SessionEvent::ServicesDiscovered(None), ROOT);
    assert_eq!(state, SessionState::Disconnecting(SessionOutcome::NotOurPeripheral));
    assert_eq!(action, SessionAction::Disconnect);
}

#[test]
fn scenario_feed_closure_disconnects_exactly_once() {
    let mut actions = Vec::new();
    let state = drive_to_subscribed(
        vec![chr(SCRIPT_CHARACTERISTIC_UUID, true), chr(STATUS_CHARACTERISTIC_UUID, false)],
        &mut actions,
    );

    let (state, action) = step(state, SessionEvent::FeedClosed, ROOT);
    assert_eq!(state, SessionState::Disconnecting(SessionOutcome::FeedClosed));
    actions.push(action);

    let (state, action) = step(state, SessionEvent::DisconnectCompleted, ROOT);
    assert_eq!(state, SessionState::Disconnected(SessionOutcome::FeedClosed));
    assert_eq!(action, SessionAction::Stop);
    actions.push(action);

    assert_eq!(count_disconnects(&actions), 1);
}

#[test]
fn unusable_command_channel_never_subscribes() {
    let (state, _) = start_session();
    let (state, _) = step(state, SessionEvent::ConnectCompleted(true), ROOT);
    let (state, _) = step(
        state,
        SessionEvent::ServicesDiscovered(Some(vec![PERIPHERAL_SERVICE_UUID])),
        ROOT,
    );

    // Command channel present but without the notify flag.
    let cs = vec![chr(SCRIPT_CHARACTERISTIC_UUID, false), chr(STATUS_CHARACTERISTIC_UUID, false)];
    let (state, action) = step(state, SessionEvent::CharacteristicsDiscovered(cs), ROOT);
    assert_eq!(state, SessionState::Disconnecting(SessionOutcome::CommandChannelUnusable));
    assert_eq!(action, SessionAction::Disconnect);
}

#[test]
fn missing_command_channel_never_subscribes() {
    let (state, _) = start_session();
    let (state, _) = step(state, SessionEvent::ConnectCompleted(true), ROOT);
    let (state, _) = step(
        state,
        SessionEvent::ServicesDiscovered(Some(vec![PERIPHERAL_SERVICE_UUID])),
        ROOT,
    );
    let (state, action) = step(
        state,
        SessionEvent::CharacteristicsDiscovered(vec![chr(STATUS_CHARACTERISTIC_UUID, true)]),
        ROOT,
    );
    assert_eq!(state, SessionState::Disconnecting(SessionOutcome::CommandChannelUnusable));
    assert_eq!(action, SessionAction::Disconnect);
}

#[test]
fn failed_connection_skips_peripheral_without_disconnect() {
    let (state, _) = start_session();
    let (state, action) = step(state, SessionEvent::ConnectCompleted(false), ROOT);
    assert_eq!(state, SessionState::Disconnected(SessionOutcome::NeverConnected));
    assert_eq!(action, SessionAction::Stop);
}

#[test]
fn failed_subscription_is_fatal() {
    let (state, _) = start_session();
    let (state, _) = step(state, SessionEvent::ConnectCompleted(true), ROOT);
    let (state, _) = step(
        state,
        SessionEvent::ServicesDiscovered(Some(vec![PERIPHERAL_SERVICE_UUID])),
        ROOT,
    );
    let (state, _) = step(
        state,
        SessionEvent::CharacteristicsDiscovered(vec![chr(SCRIPT_CHARACTERISTIC_UUID, true)]),
        ROOT,
    );
    let (state, action) = step(state, SessionEvent::SubscribeCompleted(false), ROOT);
    assert_eq!(
        state,
        SessionState::Disconnecting(SessionOutcome::Failed(SessionError::SubscribeFailed))
    );
    assert_eq!(action, SessionAction::Disconnect);
}

#[test]
fn bad_payload_mid_loop_is_fatal() {
    let mut actions = Vec::new();
    let state = drive_to_subscribed(vec![chr(SCRIPT_CHARACTERISTIC_UUID, true)], &mut actions);
    let (state, action) = step(state, SessionEvent::NotificationReceived(vec![]), ROOT);
    assert_eq!(
        state,
        SessionState::Disconnecting(SessionOutcome::Failed(SessionError::BadPayload(
            CommandError::EmptyPayload
        )))
    );
    assert_eq!(action, SessionAction::Disconnect);
}

#[test]
fn failed_status_read_and_write_are_fatal() {
    let mut actions = Vec::new();
    let state = drive_to_subscribed(
        vec![chr(SCRIPT_CHARACTERISTIC_UUID, true), chr(STATUS_CHARACTERISTIC_UUID, false)],
        &mut actions,
    );
    let (state, _) = step(state, SessionEvent::NotificationReceived(b"x.sh".to_vec()), ROOT);
    let (state, action) = step(state, SessionEvent::StatusReadCompleted(false), ROOT);
    assert_eq!(
        state,
        SessionState::Disconnecting(SessionOutcome::Failed(SessionError::StatusReadFailed))
    );
    assert_eq!(action, SessionAction::Disconnect);

    let mut actions = Vec::new();
    let state = drive_to_subscribed(
        vec![chr(SCRIPT_CHARACTERISTIC_UUID, true), chr(STATUS_CHARACTERISTIC_UUID, false)],
        &mut actions,
    );
    let (state, _) = step(state, SessionEvent::NotificationReceived(b"x.sh".to_vec()), ROOT);
    let (state, _) = step(state, SessionEvent::StatusReadCompleted(true), ROOT);
    let (state, _) = step(state, SessionEvent::ExecutionCompleted(1), ROOT);
    let (state, action) = step(state, SessionEvent::StatusWriteCompleted(false), ROOT);
    assert_eq!(
        state,
        SessionState::Disconnecting(SessionOutcome::Failed(SessionError::StatusWriteFailed))
    );
    assert_eq!(action, SessionAction::Disconnect);
}
