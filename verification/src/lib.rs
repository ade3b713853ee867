//! Core logic of two independent desktop-integration subsystems that live on
//! an inter-process message bus:
//!
//! * a media-metadata watcher that interprets property-change broadcast
//!   signals from whatever media player owns the "now playing" interface,
//!   keeps a running snapshot of track identity and playback state, and
//!   coalesces bursts of updates through a trailing-edge debouncer; and
//! * a tray-icon registration broker that tracks which icon-producing and
//!   icon-displaying processes are registered, with idempotent registration,
//!   change notifications, and pruning of registrants whose bus name lost
//!   its owner.
//!
//! The bus transport itself (connections, name claiming, wire serialization)
//! is an external collaborator; this crate holds the decisions and state
//! machines, stated and proved over plain values.

pub mod debounce;
pub mod media;
pub mod registry;
pub mod text;
pub mod tray;
