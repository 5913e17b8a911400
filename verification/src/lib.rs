//! Verified core of a wireless remote-command bridge.
//!
//! The library covers the protocol logic of the bridge: vetting a discovered
//! peripheral, mapping its advertised characteristics onto the command and
//! status channels, turning an inbound notification payload into a script
//! invocation rooted under a fixed directory, and the per-peripheral session
//! state machine that orders connection, subscription, notification handling,
//! execution and status reporting.  The wireless transport and the process
//! spawning themselves are outside collaborators: a thin driver performs them
//! and feeds their outcomes back into the state machine as events.

pub mod channels;
pub mod paths;
pub mod dispatch;
pub mod status;
pub mod session;
