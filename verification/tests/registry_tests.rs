use tray_media::registry::Watcher;
use tray_media::tray::{
    SystemTrayEmulator, TouriSystemTray, freedesktop_watcher_name, kde_watcher_name,
    watcher_object_path,
};

#[test]
fn scenario_item_registration_is_idempotent() {
    let mut watcher = Watcher::new("/StatusNotifierWatcher".to_string());
    let first = watcher.RegisterStatusNotifierItem("com.example.tray1");
    let second = watcher.RegisterStatusNotifierItem("com.example.tray1");
    assert!(first);
    assert!(!second);
    assert_eq!(
        watcher.RegisteredStatusNotifierItems(),
        vec!["com.example.tray1".to_string()]
    );
}

#[test]
fn scenario_host_presence() {
    let mut watcher = Watcher::new("/StatusNotifierWatcher".to_string());
    assert!(!watcher.IsStatusNotifierHostRegistered());
    let first = watcher.RegisterStatusNotifierHost("org.example.host1");
    assert!(first);
    assert!(watcher.IsStatusNotifierHostRegistered());
    watcher.RegisterStatusNotifierHost("org.example.host2");
    assert!(watcher.IsStatusNotifierHostRegistered());
}

#[test]
fn host_registration_is_idempotent() {
    let mut watcher = Watcher::new("/StatusNotifierWatcher".to_string());
    let first = watcher.RegisterStatusNotifierHost("org.example.host1");
    let second = watcher.RegisterStatusNotifierHost("org.example.host1");
    assert!(first);
    assert!(!second);
}

#[test]
fn distinct_items_are_all_reported() {
    let mut watcher = Watcher::new("/StatusNotifierWatcher".to_string());
    assert!(watcher.RegisterStatusNotifierItem("com.example.tray1"));
    assert!(watcher.RegisterStatusNotifierItem("com.example.tray2"));
    let items = watcher.RegisteredStatusNotifierItems();
    assert_eq!(items.len(), 2);
    assert!(items.contains(&"com.example.tray1".to_string()));
    assert!(items.contains(&"com.example.tray2".to_string()));
}

#[test]
fn ownership_loss_prunes_the_item_once() {
    let mut watcher = Watcher::new("/StatusNotifierWatcher".to_string());
    watcher.RegisterStatusNotifierItem("com.example.tray1");
    let first = watcher.handle_name_owner_changed("com.example.tray1", true, false);
    assert!(first);
    assert!(watcher.RegisteredStatusNotifierItems().is_empty());
    let second = watcher.handle_name_owner_changed("com.example.tray1", true, false);
    assert!(!second);
}

#[test]
fn ownership_handover_prunes_nothing() {
    let mut watcher = Watcher::new("/StatusNotifierWatcher".to_string());
    watcher.RegisterStatusNotifierItem("com.example.tray1");
    let notify = watcher.handle_name_owner_changed("com.example.tray1", true, true);
    assert!(!notify);
    assert_eq!(
        watcher.RegisteredStatusNotifierItems(),
        vec!["com.example.tray1".to_string()]
    );
}

#[test]
fn ownership_loss_of_unknown_name_is_silent() {
    let mut watcher = Watcher::new("/StatusNotifierWatcher".to_string());
    watcher.RegisterStatusNotifierItem("com.example.tray1");
    let notify = watcher.handle_name_owner_changed("com.example.other", true, false);
    assert!(!notify);
    assert_eq!(
        watcher.RegisteredStatusNotifierItems(),
        vec!["com.example.tray1".to_string()]
    );
}

#[test]
fn ownership_loss_never_prunes_hosts() {
    let mut watcher = Watcher::new("/StatusNotifierWatcher".to_string());
    watcher.RegisterStatusNotifierHost("org.example.host1");
    let notify = watcher.handle_name_owner_changed("org.example.host1", true, false);
    assert!(!notify);
    assert!(watcher.IsStatusNotifierHostRegistered());
}

#[test]
fn emulator_starts_empty_at_the_fixed_path() {
    let emulator = SystemTrayEmulator::new();
    assert_eq!(emulator.watcher.path(), "/StatusNotifierWatcher");
    assert!(emulator.watcher.RegisteredStatusNotifierItems().is_empty());
    assert!(!emulator.watcher.IsStatusNotifierHostRegistered());
}

#[test]
fn detector_activates_only_when_no_broker_owns_a_name() {
    let detector = TouriSystemTray::new();
    assert!(detector.should_emulate(false, false));
    assert!(!detector.should_emulate(true, false));
    assert!(!detector.should_emulate(false, true));
    assert!(!detector.should_emulate(true, true));
}

#[test]
fn broker_identities_are_the_well_known_ones() {
    assert_eq!(freedesktop_watcher_name(), "org.freedesktop.StatusNotifierWatcher");
    assert_eq!(kde_watcher_name(), "org.kde.StatusNotifierWatcher");
    assert_eq!(watcher_object_path(), "/StatusNotifierWatcher");
}
