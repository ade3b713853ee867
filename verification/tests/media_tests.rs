use tray_media::media::{MediaSnapshot, PropValue, properties_changed_match_rule};

fn status_props(status: &str) -> Vec<(String, PropValue)> {
    vec![("PlaybackStatus".to_string(), PropValue::Str(status.to_string()))]
}

fn metadata_props(title: &str, album: &str, artists: &[&str]) -> Vec<(String, PropValue)> {
    let artist_values: Vec<PropValue> =
        artists.iter().map(|a| PropValue::Str(a.to_string())).collect();
    let dict = vec![
        ("xesam:title".to_string(), PropValue::Str(title.to_string())),
        ("xesam:album".to_string(), PropValue::Str(album.to_string())),
        ("xesam:artist".to_string(), PropValue::Array(artist_values)),
    ];
    vec![("Metadata".to_string(), PropValue::Dict(dict))]
}

#[test]
fn scenario_status_change() {
    let mut snap = MediaSnapshot::new();
    snap.title = "Old Song".to_string();
    snap.album = "Old Album".to_string();
    snap.artist = vec!["Old Artist".to_string()];
    let emit = snap.process_message(
        "PropertiesChanged",
        "org.mpris.MediaPlayer2.Player",
        &status_props("Playing"),
    );
    assert!(emit);
    assert_eq!(snap.status, "Playing");
    assert_eq!(snap.title, "Old Song");
    assert_eq!(snap.album, "Old Album");
    assert_eq!(snap.artist, vec!["Old Artist".to_string()]);
}

#[test]
fn scenario_metadata_change() {
    let mut snap = MediaSnapshot::new();
    snap.status = "Paused".to_string();
    let emit = snap.process_message(
        "PropertiesChanged",
        "org.mpris.MediaPlayer2.Player",
        &metadata_props("Song", "Album", &["Artist A", "Artist B"]),
    );
    assert!(emit);
    assert_eq!(snap.title, "Song");
    assert_eq!(snap.album, "Album");
    assert_eq!(snap.artist, vec!["Artist A".to_string(), "Artist B".to_string()]);
    assert_eq!(snap.status, "Paused");
}

#[test]
fn status_events_track_the_latest() {
    let mut snap = MediaSnapshot::new();
    snap.title = "Kept".to_string();
    for s in ["Playing", "Paused", "Stopped"] {
        let emit = snap.process_message(
            "PropertiesChanged",
            "org.mpris.MediaPlayer2.Player",
            &status_props(s),
        );
        assert!(emit);
    }
    assert_eq!(snap.status, "Stopped");
    assert_eq!(snap.title, "Kept");
    assert_eq!(snap.album, "");
    assert!(snap.artist.is_empty());
}

#[test]
fn metadata_events_track_the_latest() {
    let mut snap = MediaSnapshot::new();
    snap.status = "Playing".to_string();
    snap.process_message(
        "PropertiesChanged",
        "org.mpris.MediaPlayer2.Player",
        &metadata_props("First", "A", &["X"]),
    );
    snap.process_message(
        "PropertiesChanged",
        "org.mpris.MediaPlayer2.Player",
        &metadata_props("Second", "B", &["Y", "Z"]),
    );
    assert_eq!(snap.title, "Second");
    assert_eq!(snap.album, "B");
    assert_eq!(snap.artist, vec!["Y".to_string(), "Z".to_string()]);
    assert_eq!(snap.status, "Playing");
}

#[test]
fn other_members_are_skipped() {
    let mut snap = MediaSnapshot::new();
    let emit = snap.process_message(
        "NameOwnerChanged",
        "org.mpris.MediaPlayer2.Player",
        &status_props("Playing"),
    );
    assert!(!emit);
    assert_eq!(snap.status, "");
}

#[test]
fn other_interfaces_are_skipped() {
    let mut snap = MediaSnapshot::new();
    let emit = snap.process_message(
        "PropertiesChanged",
        "org.freedesktop.UPower.Device",
        &status_props("Playing"),
    );
    assert!(!emit);
    assert_eq!(snap.status, "");
}

#[test]
fn player_interface_prefix_is_enough() {
    let mut snap = MediaSnapshot::new();
    let emit = snap.process_message(
        "PropertiesChanged",
        "org.mpris.MediaPlayer2.Player.Extra",
        &status_props("Playing"),
    );
    assert!(emit);
    assert_eq!(snap.status, "Playing");
}

#[test]
fn quoting_artifacts_are_stripped() {
    let mut snap = MediaSnapshot::new();
    let props = vec![(
        "PlaybackStatus".to_string(),
        PropValue::Other("\"Paused\"".to_string()),
    )];
    let emit =
        snap.process_message("PropertiesChanged", "org.mpris.MediaPlayer2.Player", &props);
    assert!(emit);
    assert_eq!(snap.status, "Paused");
}

#[test]
fn status_and_metadata_are_mutually_exclusive() {
    let mut snap = MediaSnapshot::new();
    let mut props = status_props("Playing");
    props.extend(metadata_props("Song", "Album", &["Artist"]));
    let emit =
        snap.process_message("PropertiesChanged", "org.mpris.MediaPlayer2.Player", &props);
    assert!(emit);
    assert_eq!(snap.status, "Playing");
    assert_eq!(snap.title, "");
    assert_eq!(snap.album, "");
    assert!(snap.artist.is_empty());
}

#[test]
fn malformed_metadata_is_discarded() {
    let mut snap = MediaSnapshot::new();
    let props = vec![("Metadata".to_string(), PropValue::Str("not a dict".to_string()))];
    let emit =
        snap.process_message("PropertiesChanged", "org.mpris.MediaPlayer2.Player", &props);
    assert!(!emit);
    assert_eq!(snap.title, "");
}

#[test]
fn wrong_shaped_fields_default_to_empty() {
    let mut snap = MediaSnapshot::new();
    snap.title = "Before".to_string();
    let dict = vec![
        ("xesam:title".to_string(), PropValue::Array(Vec::new())),
        (
            "xesam:artist".to_string(),
            PropValue::Array(vec![
                PropValue::Str("Kept".to_string()),
                PropValue::Dict(Vec::new()),
                PropValue::Str("Also kept".to_string()),
            ]),
        ),
    ];
    let props = vec![("Metadata".to_string(), PropValue::Dict(dict))];
    let emit =
        snap.process_message("PropertiesChanged", "org.mpris.MediaPlayer2.Player", &props);
    assert!(emit);
    assert_eq!(snap.title, "");
    assert_eq!(snap.album, "");
    assert_eq!(snap.artist, vec!["Kept".to_string(), "Also kept".to_string()]);
}

#[test]
fn empty_property_map_changes_nothing() {
    let mut snap = MediaSnapshot::new();
    let emit = snap.process_message(
        "PropertiesChanged",
        "org.mpris.MediaPlayer2.Player",
        &Vec::new(),
    );
    assert!(!emit);
    assert_eq!(snap.status, "");
    assert_eq!(snap.title, "");
}

#[test]
fn match_rule_names_the_properties_changed_signal() {
    assert_eq!(
        properties_changed_match_rule(),
        "type='signal',interface='org.freedesktop.DBus.Properties',member='PropertiesChanged'"
    );
}
