//! Media-metadata extraction: interprets a property-change broadcast message
//! and keeps a running snapshot of track identity and playback state.
//!
//! A message reaches this module already decoded into plain values: the
//! signal's member name, the interface whose properties changed, and the
//! changed-property map, whose values are mirrored into [`PropValue`].
//! The transport-facing shell decodes raw messages and hands them over;
//! everything that decides what the snapshot becomes is verified here.

use vstd::prelude::*;
use crate::text::{spec_starts_with, strip_quotes_spec, str_eq, str_starts_with, strip_quotes};

verus! {

/// A property value as this module reads it: a string, an array, a keyed
/// dictionary, or any other variant kind carried as its display text.
#[derive(Debug)]
pub enum PropValue {
    Str(String),
    Array(Vec<PropValue>),
    Dict(Vec<(String, PropValue)>),
    Other(String),
}

/// Last-known state of the active media session.
///
/// Created all-empty; a status-only event rewrites `status` alone, a
/// metadata-only event rewrites `title`, `album` and `artist` together.
/// There is no absent-value sentinel distinct from the empty string.
#[derive(Clone, Debug)]
pub struct MediaSnapshot {
    pub title: String,
    pub artist: Vec<String>,
    pub album: String,
    pub status: String,
}

/// Mathematical view of a [`MediaSnapshot`].
#[verifier::ext_equal]
pub ghost struct SnapshotModel {
    pub title: Seq<char>,
    pub artist: Seq<Seq<char>>,
    pub album: Seq<char>,
    pub status: Seq<char>,
}

impl View for MediaSnapshot {
    type V = SnapshotModel;

    open spec fn view(&self) -> SnapshotModel {
        SnapshotModel {
            title: self.title@,
            artist: self.artist@.map_values(|s: String| s@),
            album: self.album@,
            status: self.status@,
        }
    }
}

/// The all-empty snapshot a watcher starts from.
pub open spec fn empty_snapshot() -> SnapshotModel {
    SnapshotModel {
        title: Seq::empty(),
        artist: Seq::empty(),
        album: Seq::empty(),
        status: Seq::empty(),
    }
}

/// First value bound to `key` in a property map, if any.
pub open spec fn lookup(entries: Seq<(String, PropValue)>, key: Seq<char>) -> Option<PropValue>
    decreases entries.len(),
{
    if entries.len() == 0 {
        None
    } else if entries[0].0@ == key {
        Some(entries[0].1)
    } else {
        lookup(entries.drop_first(), key)
    }
}

/// Text a value turns into when read as a string: strings and scalar display
/// text pass through, container kinds read as empty.
pub open spec fn display_text(v: PropValue) -> Seq<char> {
    match v {
        PropValue::Str(s) => s@,
        PropValue::Other(t) => t@,
        PropValue::Array(_) => Seq::empty(),
        PropValue::Dict(_) => Seq::empty(),
    }
}

/// A string value's contents; any other shape reads as empty.
pub open spec fn str_of(v: PropValue) -> Seq<char> {
    match v {
        PropValue::Str(s) => s@,
        _ => Seq::empty(),
    }
}

/// The string elements of an array, in order; elements of any other shape
/// are skipped rather than failing the list.
pub open spec fn artist_list(elems: Seq<PropValue>) -> Seq<Seq<char>>
    decreases elems.len(),
{
    if elems.len() == 0 {
        Seq::empty()
    } else {
        let rest = artist_list(elems.drop_last());
        match elems.last() {
            PropValue::Str(s) => rest.push(s@),
            _ => rest,
        }
    }
}

/// Artist names read from a metadata value: the string elements of an array,
/// empty for any other shape.
pub open spec fn artists_of(v: PropValue) -> Seq<Seq<char>> {
    match v {
        PropValue::Array(elems) => artist_list(elems@),
        _ => Seq::empty(),
    }
}

/// String read from an optional map entry, defaulting to empty.
pub open spec fn opt_str(o: Option<PropValue>) -> Seq<char> {
    match o {
        Some(v) => str_of(v),
        None => Seq::empty(),
    }
}

/// Artist list read from an optional map entry, defaulting to empty.
pub open spec fn opt_artists(o: Option<PropValue>) -> Seq<Seq<char>> {
    match o {
        Some(v) => artists_of(v),
        None => Seq::empty(),
    }
}

/// Whether a signal's member names the standard property-change notification.
pub open spec fn is_properties_changed(member: Seq<char>) -> bool {
    member == "PropertiesChanged"@
}

/// Whether an interface name belongs to the media-player-control interface.
pub open spec fn is_player_interface(iface: Seq<char>) -> bool {
    spec_starts_with(iface, "org.mpris.MediaPlayer2.Player"@)
}

/// What the snapshot becomes after one message.
///
/// A message is ignored unless its member is the property-change notification
/// and its interface carries the media-player prefix.  A playback-status
/// entry rewrites `status` alone (with quoting artifacts stripped); failing
/// that, a dictionary-shaped metadata entry rewrites `title`, `album` and
/// `artist` together; anything else leaves the snapshot unchanged.  The two
/// branches are mutually exclusive per message.
pub open spec fn step_model(
    m: SnapshotModel,
    member: Seq<char>,
    iface: Seq<char>,
    props: Seq<(String, PropValue)>,
) -> SnapshotModel {
    if !is_properties_changed(member) || !is_player_interface(iface) {
        m
    } else {
        match lookup(props, "PlaybackStatus"@) {
            Some(v) => SnapshotModel { status: strip_quotes_spec(display_text(v)), ..m },
            None => match lookup(props, "Metadata"@) {
                Some(PropValue::Dict(entries)) => SnapshotModel {
                    title: opt_str(lookup(entries@, "xesam:title"@)),
                    album: opt_str(lookup(entries@, "xesam:album"@)),
                    artist: opt_artists(lookup(entries@, "xesam:artist"@)),
                    status: m.status,
                },
                _ => m,
            },
        }
    }
}

/// Whether one message updates the snapshot, and so pushes a copy downstream.
pub open spec fn step_emits(
    member: Seq<char>,
    iface: Seq<char>,
    props: Seq<(String, PropValue)>,
) -> bool {
    &&& is_properties_changed(member)
    &&& is_player_interface(iface)
    &&& {
        ||| lookup(props, "PlaybackStatus"@) is Some
        ||| lookup(props, "Metadata"@) matches Some(PropValue::Dict(_))
    }
}

/// First value bound to `key`, by reference.
fn lookup_value<'a>(entries: &'a Vec<(String, PropValue)>, key: &str) -> (r: Option<
    &'a PropValue,
>)
    ensures
        match r {
            Some(v) => lookup(entries@, key@) == Some(*v),
            None => lookup(entries@, key@) is None,
        },
{
    let n = entries.len();
    proof {
        assert(entries@.skip(0) =~= entries@);
    }
    let mut i: usize = 0;
    while i < n
        invariant
            i <= n,
            n == entries@.len(),
            lookup(entries@, key@) == lookup(entries@.skip(i as int), key@),
        decreases n - i,
    {
        proof {
            assert(entries@.skip(i as int)[0] == entries@[i as int]);
        }
        if str_eq(entries[i].0.as_str(), key) {
            return Some(&entries[i].1);
        }
        proof {
            assert(entries@.skip(i as int).drop_first() =~= entries@.skip(i + 1 as int));
        }
        i += 1;
    }
    proof {
        assert(entries@.skip(n as int).len() == 0);
    }
    None
}

/// The text a value reads as when taken for a string.
fn read_display_text(v: &PropValue) -> (r: String)
    ensures
        r@ == display_text(*v),
{
    match v {
        PropValue::Str(s) => s.clone(),
        PropValue::Other(t) => t.clone(),
        PropValue::Array(_) => String::new(),
        PropValue::Dict(_) => String::new(),
    }
}

/// String bound to `key` in a metadata dictionary, empty if absent or of the
/// wrong shape.
fn lookup_str_field(entries: &Vec<(String, PropValue)>, key: &str) -> (r: String)
    ensures
        r@ == opt_str(lookup(entries@, key@)),
{
    match lookup_value(entries, key) {
        Some(PropValue::Str(s)) => s.clone(),
        _ => String::new(),
    }
}

/// The string elements of an array value, in order; anything else yields
/// the empty list.
fn read_artists(v: &PropValue) -> (r: Vec<String>)
    ensures
        r@.map_values(|s: String| s@) == artists_of(*v),
{
    match v {
        PropValue::Array(elems) => {
            let n = elems.len();
            let mut out: Vec<String> = Vec::new();
            proof {
                assert(out@.map_values(|s: String| s@) =~= artist_list(
                    elems@.subrange(0, 0),
                ));
            }
            let mut i: usize = 0;
            while i < n
                invariant
                    i <= n,
                    n == elems@.len(),
                    out@.map_values(|s: String| s@) == artist_list(elems@.subrange(0, i as int)),
                decreases n - i,
            {
                match &elems[i] {
                    PropValue::Str(s) => {
                        out.push(s.clone());
                    },
                    _ => {},
                }
                proof {
                    let pre = elems@.subrange(0, i + 1 as int);
                    assert(pre.drop_last() =~= elems@.subrange(0, i as int));
                    assert(pre.last() == elems@[i as int]);
                    assert(out@.map_values(|s: String| s@) =~= artist_list(pre));
                }
                i += 1;
            }
            proof {
                assert(elems@.subrange(0, n as int) =~= elems@);
            }
            out
        },
        _ => {
            let out: Vec<String> = Vec::new();
            proof {
                assert(out@.map_values(|s: String| s@) =~= Seq::<Seq<char>>::empty());
            }
            out
        },
    }
}

impl MediaSnapshot {
    /// The all-empty snapshot a watcher starts from.
    pub fn new() -> (r: MediaSnapshot)
        ensures
            r@ == empty_snapshot(),
    {
        let r = MediaSnapshot {
            title: String::new(),
            artist: Vec::new(),
            album: String::new(),
            status: String::new(),
        };
        proof {
            assert(r@ =~~= empty_snapshot());
        }
        r
    }

    /// Interprets one decoded bus message, as [`step_model`] states, and
    /// says whether the updated snapshot is to be pushed downstream.
    pub fn process_message(
        &mut self,
        member: &str,
        interface: &str,
        props: &Vec<(String, PropValue)>,
    ) -> (emit: bool)
        ensures
            final(self)@ == step_model(old(self)@, member@, interface@, props@),
            emit == step_emits(member@, interface@, props@),
    {
        if !str_eq(member, "PropertiesChanged") {
            return false;
        }
        if !str_starts_with(interface, "org.mpris.MediaPlayer2.Player") {
            return false;
        }
        match lookup_value(props, "PlaybackStatus") {
            Some(v) => {
                let txt = read_display_text(v);
                self.status = strip_quotes(txt.as_str());
                proof {
                    assert(final(self)@ =~~= step_model(
                        old(self)@,
                        member@,
                        interface@,
                        props@,
                    ));
                }
                true
            },
            None => {
                match lookup_value(props, "Metadata") {
                    Some(PropValue::Dict(entries)) => {
                        self.title = lookup_str_field(entries, "xesam:title");
                        self.album = lookup_str_field(entries, "xesam:album");
                        self.artist = match lookup_value(entries, "xesam:artist") {
                            Some(av) => read_artists(av),
                            None => {
                                let out: Vec<String> = Vec::new();
                                proof {
                                    assert(out@.map_values(|s: String| s@)
                                        =~= Seq::<Seq<char>>::empty());
                                }
                                out
                            },
                        };
                        proof {
                            assert(final(self)@ =~~= step_model(
                                old(self)@,
                                member@,
                                interface@,
                                props@,
                            ));
                        }
                        true
                    },
                    _ => false,
                }
            },
        }
    }
}

/// One decoded bus message, as the snapshot's step function reads it.
pub ghost struct MessageModel {
    pub member: Seq<char>,
    pub interface: Seq<char>,
    pub props: Seq<(String, PropValue)>,
}

/// Snapshot reached by interpreting a sequence of messages in order.
pub open spec fn run_steps(m: SnapshotModel, evs: Seq<MessageModel>) -> SnapshotModel
    decreases evs.len(),
{
    if evs.len() == 0 {
        m
    } else {
        run_steps(
            step_model(m, evs[0].member, evs[0].interface, evs[0].props),
            evs.drop_first(),
        )
    }
}

/// A valid status-change event: a property-change notification for the
/// media-player interface that carries a playback-status entry.
pub open spec fn is_status_event(e: MessageModel) -> bool {
    &&& is_properties_changed(e.member)
    &&& is_player_interface(e.interface)
    &&& lookup(e.props, "PlaybackStatus"@) is Some
}

/// The playback status a status-change event carries, after quote stripping.
pub open spec fn event_status(e: MessageModel) -> Seq<char> {
    match lookup(e.props, "PlaybackStatus"@) {
        Some(v) => strip_quotes_spec(display_text(v)),
        None => Seq::empty(),
    }
}

/// A valid metadata-change event: a property-change notification for the
/// media-player interface whose map carries a dictionary-shaped metadata
/// entry and no playback-status entry.
pub open spec fn is_metadata_event(e: MessageModel) -> bool {
    &&& is_properties_changed(e.member)
    &&& is_player_interface(e.interface)
    &&& lookup(e.props, "PlaybackStatus"@) is None
    &&& lookup(e.props, "Metadata"@) matches Some(PropValue::Dict(_))
}

/// The title a metadata-change event carries.
pub open spec fn event_title(e: MessageModel) -> Seq<char> {
    match lookup(e.props, "Metadata"@) {
        Some(PropValue::Dict(entries)) => opt_str(lookup(entries@, "xesam:title"@)),
        _ => Seq::empty(),
    }
}

/// The album a metadata-change event carries.
pub open spec fn event_album(e: MessageModel) -> Seq<char> {
    match lookup(e.props, "Metadata"@) {
        Some(PropValue::Dict(entries)) => opt_str(lookup(entries@, "xesam:album"@)),
        _ => Seq::empty(),
    }
}

/// The artist list a metadata-change event carries.
pub open spec fn event_artists(e: MessageModel) -> Seq<Seq<char>> {
    match lookup(e.props, "Metadata"@) {
        Some(PropValue::Dict(entries)) => opt_artists(lookup(entries@, "xesam:artist"@)),
        _ => Seq::empty(),
    }
}

/// Over any sequence of valid status-change events, the snapshot's status
/// always reflects the most recently processed event, and the track-identity
/// fields are untouched.
pub proof fn lemma_status_events_sequence(m: SnapshotModel, evs: Seq<MessageModel>)
    requires
        forall|i: int| 0 <= i < evs.len() ==> is_status_event(#[trigger] evs[i]),
    ensures
        run_steps(m, evs).title == m.title,
        run_steps(m, evs).album == m.album,
        run_steps(m, evs).artist == m.artist,
        evs.len() > 0 ==> run_steps(m, evs).status == event_status(evs.last()),
    decreases evs.len(),
{
    if evs.len() > 0 {
        let m1 = step_model(m, evs[0].member, evs[0].interface, evs[0].props);
        assert(is_status_event(evs[0]));
        let rest = evs.drop_first();
        assert forall|i: int| 0 <= i < rest.len() implies is_status_event(
            #[trigger] rest[i],
        ) by {
            assert(rest[i] == evs[i + 1]);
        }
        lemma_status_events_sequence(m1, rest);
        if evs.len() > 1 {
            assert(rest.last() == evs.last());
        }
    }
}

/// Over any sequence of valid metadata-change events, the track-identity
/// fields reflect the most recently processed event, and the playback status
/// is untouched.
pub proof fn lemma_metadata_events_sequence(m: SnapshotModel, evs: Seq<MessageModel>)
    requires
        forall|i: int| 0 <= i < evs.len() ==> is_metadata_event(#[trigger] evs[i]),
    ensures
        run_steps(m, evs).status == m.status,
        evs.len() > 0 ==> run_steps(m, evs).title == event_title(evs.last()),
        evs.len() > 0 ==> run_steps(m, evs).album == event_album(evs.last()),
        evs.len() > 0 ==> run_steps(m, evs).artist == event_artists(evs.last()),
    decreases evs.len(),
{
    if evs.len() > 0 {
        let m1 = step_model(m, evs[0].member, evs[0].interface, evs[0].props);
        assert(is_metadata_event(evs[0]));
        let rest = evs.drop_first();
        assert forall|i: int| 0 <= i < rest.len() implies is_metadata_event(
            #[trigger] rest[i],
        ) by {
            assert(rest[i] == evs[i + 1]);
        }
        lemma_metadata_events_sequence(m1, rest);
        if evs.len() > 1 {
            assert(rest.last() == evs.last());
        }
    }
}

/// The signal-matching rule the media watcher installs: property-change
/// notifications from any sender on the bus.
pub fn properties_changed_match_rule() -> (r: String)
    ensures
        r@ == "type='signal',interface='org.freedesktop.DBus.Properties',member='PropertiesChanged'"@,
{
    "type='signal',interface='org.freedesktop.DBus.Properties',member='PropertiesChanged'".to_owned()
}

} // verus!
