//! The tray-icon broker's outer shell: the well-known broker identities, the
//! fallback emulator that owns the membership registry, and the presence
//! detector that decides whether the emulator is needed at all.

use vstd::prelude::*;
use crate::registry::{Watcher, registry_wf};

verus! {

/// The vendor-neutral broker identity clients look up.
pub fn freedesktop_watcher_name() -> (r: String)
    ensures
        r@ == "org.freedesktop.StatusNotifierWatcher"@,
{
    "org.freedesktop.StatusNotifierWatcher".to_owned()
}

/// The desktop-environment-specific alias of the broker identity.
pub fn kde_watcher_name() -> (r: String)
    ensures
        r@ == "org.kde.StatusNotifierWatcher"@,
{
    "org.kde.StatusNotifierWatcher".to_owned()
}

/// The fixed object path the broker serves its interface at.
pub fn watcher_object_path() -> (r: String)
    ensures
        r@ == "/StatusNotifierWatcher"@,
{
    "/StatusNotifierWatcher".to_owned()
}

/// The fallback tray-icon broker: stands in when no conformant broker
/// already owns the well-known identities, claiming both and serving the
/// membership registry at the fixed object path.
///
/// The transport-facing shell owns the bus connection, forwards remote
/// registration calls to the registry, broadcasts the signals the registry
/// decides on, and feeds bus-wide ownership-loss notifications to
/// [`Watcher::handle_name_owner_changed`].
pub struct SystemTrayEmulator {
    pub watcher: Watcher,
}

impl SystemTrayEmulator {
    /// A fresh emulator: an empty registry served at the fixed object path.
    pub fn new() -> (r: SystemTrayEmulator)
        ensures
            registry_wf(r.watcher@),
            r.watcher@.items == Seq::<Seq<char>>::empty(),
            r.watcher@.hosts == Seq::<Seq<char>>::empty(),
            r.watcher@.path == "/StatusNotifierWatcher"@,
    {
        SystemTrayEmulator { watcher: Watcher::new(watcher_object_path()) }
    }
}

/// The presence detector: queries, once at startup, whether either
/// well-known broker identity already has an owner, and activates the
/// fallback emulator only when neither has.
///
/// The check is a single best-effort snapshot: another broker may claim an
/// identity between the check and the fallback's own claim, in which case
/// the fallback's claim simply fails and must not bring the process down.
pub struct TouriSystemTray {}

impl TouriSystemTray {
    /// A fresh detector.
    pub fn new() -> (r: TouriSystemTray) {
        TouriSystemTray {  }
    }

    /// Whether the fallback emulator is to be activated: only when neither
    /// the vendor-neutral identity nor its alias currently has an owner.
    pub fn should_emulate(&self, notifier_exist: bool, kde_notifier_exist: bool) -> (r: bool)
        ensures
            r == (!notifier_exist && !kde_notifier_exist),
    {
        !notifier_exist && !kde_notifier_exist
    }
}

} // verus!
