//! Peer discovery over mDNS: what a peer advertises about itself, and the
//! table of peers found, as services appear and disappear.
use vstd::prelude::*;

use crate::ids::{is_v4, parse_uuid, random_v4, short_id, short_text, uuid_parsed, uuid_string, uuid_text};
use crate::protocol::{CursorColor, OsType, PeerId, PeerInfo};
use crate::text::{
    lemma_u8_text_round_trip, parse_u8, parsed_u8, str_contains, text_contains, u8_text, u8_to_text,
};

verus! {

/// The mDNS service type under which FLOW peers advertise.
pub const SERVICE_TYPE: &'static str = "_flow._tcp.local.";

/// The port advertised with the service; the mesh listens on it.
pub const SERVICE_PORT: u16 = 19847;

/// The advertised instance name: `flow-` and the short id.
pub open spec fn instance_text(id: PeerId) -> Seq<char> {
    "flow-"@ + short_text(id.0)
}

/// The instance name a peer registers under.
pub fn instance_name(peer_id: &PeerId) -> (s: String)
    ensures
        s@ == instance_text(*peer_id),
{
    let short = short_id(peer_id.0);
    String::from_str("flow-").concat(short.as_str())
}

/// The host name a peer advertises: its machine name in the `.local.` domain.
pub fn service_host(hostname: &str) -> (s: String)
    ensures
        s@ == hostname@ + ".local."@,
{
    String::from_str(hostname).concat(".local.")
}

/// The text properties a peer advertises, in order: its id, its name, its
/// operating system (as the caller serialised it) and the three components of
/// its cursor colour in decimal.
pub open spec fn property_texts(
    id: PeerId,
    name: Seq<char>,
    os_text: Seq<char>,
    color: CursorColor,
) -> Seq<(Seq<char>, Seq<char>)> {
    seq![
        ("peer_id"@, uuid_text(id.0)),
        ("name"@, name),
        ("os"@, os_text),
        ("color_r"@, u8_text(color.r)),
        ("color_g"@, u8_text(color.g)),
        ("color_b"@, u8_text(color.b)),
    ]
}

/// The views of a list of text pairs.
pub open spec fn pair_texts(v: Seq<(String, String)>) -> Seq<(Seq<char>, Seq<char>)> {
    v.map_values(|p: (String, String)| (p.0@, p.1@))
}

/// The properties advertised with the service, see `property_texts`.
pub fn service_properties(peer_id: &PeerId, peer_name: &str, os_text: &str, color: CursorColor) -> (r:
    Vec<(String, String)>)
    ensures
        pair_texts(r@) == property_texts(*peer_id, peer_name@, os_text@, color),
{
    let mut r: Vec<(String, String)> = Vec::new();
    r.push((String::from_str("peer_id"), uuid_string(peer_id.0)));
    r.push((String::from_str("name"), String::from_str(peer_name)));
    r.push((String::from_str("os"), String::from_str(os_text)));
    r.push((String::from_str("color_r"), u8_to_text(color.r)));
    r.push((String::from_str("color_g"), u8_to_text(color.g)));
    r.push((String::from_str("color_b"), u8_to_text(color.b)));
    assert(pair_texts(r@) =~= property_texts(*peer_id, peer_name@, os_text@, color));
    r
}

/// The properties read back from a resolved service; `None` where the service
/// does not carry the property.
pub struct ServiceProperties {
    pub peer_id: Option<String>,
    pub name: Option<String>,
    pub color_r: Option<String>,
    pub color_g: Option<String>,
    pub color_b: Option<String>,
}

/// The text of an optional property, empty where it is absent.
pub open spec fn text_or_empty(p: Option<String>) -> Seq<char> {
    match p {
        Some(s) => s@,
        None => Seq::empty(),
    }
}

/// A colour component as advertised: its decimal value, or 255 where it is
/// absent or not a byte in decimal.
pub open spec fn component_of(p: Option<String>) -> u8 {
    match p {
        Some(s) => match parsed_u8(s@) {
            Some(v) => v,
            None => 255,
        },
        None => 255,
    }
}

/// A colour component from an optional property text.
fn component(p: &Option<String>) -> (c: u8)
    ensures
        c == component_of(*p),
{
    match p {
        Some(s) => match parse_u8(s.as_str()) {
            Some(v) => v,
            None => 255,
        },
        None => 255,
    }
}

/// The name a resolved peer is known by: its advertised name, or "unknown".
pub open spec fn name_of(p: Option<String>) -> Seq<char> {
    match p {
        Some(s) => s@,
        None => "unknown"@,
    }
}

/// `info` describes the peer of a resolved service with id text `key`: the id
/// is the UUID the text denotes (a fresh random one where it denotes none), the
/// name and colour are as advertised, no monitors are known, and the operating
/// system recorded is the local one.
pub open spec fn describes(info: PeerInfo, key: Seq<char>, props: ServiceProperties, local_os: OsType) -> bool {
    &&& match uuid_parsed(key) {
        Some(v) => info.id == PeerId(v),
        None => is_v4(info.id.0),
    }
    &&& info.name@ == name_of(props.name)
    &&& info.color == CursorColor {
        r: component_of(props.color_r),
        g: component_of(props.color_g),
        b: component_of(props.color_b),
    }
    &&& info.monitors@.len() == 0
    &&& info.os == local_os
}

/// The peer a resolved service stands for, under the key of its id text, or
/// `None` where the service is this peer's own.
pub fn peer_from_service(my_id: &PeerId, local_os: OsType, props: &ServiceProperties) -> (r: Option<
    (String, PeerInfo)>)
    ensures
        r is None <==> text_or_empty(props.peer_id) == uuid_text(my_id.0),
        r matches Some((key, info)) ==> key@ == text_or_empty(props.peer_id) && describes(
            info,
            key@,
            *props,
            local_os,
        ),
        r matches Some((key, info)) ==> forall|v: u128| #[trigger] uuid_text(v) == key@ ==> info.id
            == PeerId(v),
{
    let key = match &props.peer_id {
        Some(s) => s.clone(),
        None => String::new(),
    };
    let mine = uuid_string(my_id.0);
    if key == mine {
        return None;
    }
    let name = match &props.name {
        Some(s) => s.clone(),
        None => String::from_str("unknown"),
    };
    let color = CursorColor {
        r: component(&props.color_r),
        g: component(&props.color_g),
        b: component(&props.color_b),
    };
    let id = match parse_uuid(key.as_str()) {
        Some(v) => PeerId(v),
        None => PeerId(random_v4()),
    };
    let info = PeerInfo { id, name, color, monitors: Vec::new(), os: local_os };
    Some((key, info))
}

/// Keys are the peers' id texts; no key occurs twice.
pub open spec fn keys_distinct(s: Seq<(String, PeerInfo)>) -> bool {
    forall|i: int, j: int|
        0 <= i < s.len() && 0 <= j < s.len() && i != j ==> #[trigger] s[i].0@ != #[trigger] s[j].0@
}

/// Position of the entry with key `key`, if any.
pub open spec fn key_position(s: Seq<(String, PeerInfo)>, key: Seq<char>) -> Option<int> {
    if exists|i: int| 0 <= i < s.len() && #[trigger] s[i].0@ == key {
        Some(choose|i: int| 0 <= i < s.len() && #[trigger] s[i].0@ == key)
    } else {
        None
    }
}

/// The peer stored under `key`, if any.
pub open spec fn lookup(s: Seq<(String, PeerInfo)>, key: Seq<char>) -> Option<PeerInfo> {
    match key_position(s, key) {
        Some(i) => Some(s[i].1),
        None => None,
    }
}

/// The table after `info` is stored under `key`: it replaces the peer stored
/// there before, or is appended.
pub open spec fn inserted(s: Seq<(String, PeerInfo)>, key: String, info: PeerInfo) -> Seq<(String, PeerInfo)> {
    match key_position(s, key@) {
        Some(i) => s.update(i, (key, info)),
        None => s.push((key, info)),
    }
}

/// A peer has left when the name of the removed service contains its short id.
pub open spec fn departed(fullname: Seq<char>) -> spec_fn((String, PeerInfo)) -> bool {
    |e: (String, PeerInfo)| text_contains(fullname, short_text(e.1.id.0))
}

/// The negation of `departed`.
pub open spec fn staying(fullname: Seq<char>) -> spec_fn((String, PeerInfo)) -> bool {
    |e: (String, PeerInfo)| !text_contains(fullname, short_text(e.1.id.0))
}

/// The peers found so far, each under the text of its advertised id.
pub struct PeerDirectory {
    pub entries: Vec<(String, PeerInfo)>,
}

impl PeerDirectory {
    pub open spec fn wf(&self) -> bool {
        keys_distinct(self.entries@)
    }

    /// An empty table.
    pub fn new() -> (d: PeerDirectory)
        ensures
            d.wf(),
            d.entries@.len() == 0,
    {
        PeerDirectory { entries: Vec::new() }
    }

    /// Stores `info` under `key`, replacing the peer stored there before.
    pub fn insert(&mut self, key: String, info: PeerInfo)
        requires
            old(self).wf(),
        ensures
            final(self).wf(),
            final(self).entries@ == inserted(old(self).entries@, key, info),
    {
        let n = self.entries.len();
        let mut i: usize = 0;
        while i < n
            invariant
                n == self.entries@.len(),
                i <= n,
                self.entries@ == old(self).entries@,
                keys_distinct(self.entries@),
                forall|j: int| 0 <= j < i ==> #[trigger] self.entries@[j].0@ != key@,
            decreases n - i,
        {
            if self.entries[i].0 == key {
                proof {
                    let k = choose|k: int| 0 <= k < n && #[trigger] self.entries@[k].0@ == key@;
                    assert(k == i);
                }
                self.entries.set(i, (key, info));
                return;
            }
            i = i + 1;
        }
        self.entries.push((key, info));
    }

    /// Removes the peers whose short id occurs in the name of a removed
    /// service and returns their keys, in table order.
    pub fn remove_departed(&mut self, fullname: &str) -> (lost: Vec<String>)
        requires
            old(self).wf(),
        ensures
            final(self).wf(),
            final(self).entries@ == old(self).entries@.filter(staying(fullname@)),
            lost@.map_values(|s: String| s@) == old(self).entries@.filter(departed(fullname@)).map_values(
                |e: (String, PeerInfo)| e.0@,
            ),
    {
        let ghost orig = self.entries@;
        let mut rest: Vec<(String, PeerInfo)> = Vec::new();
        std::mem::swap(&mut rest, &mut self.entries);
        let mut kept: Vec<(String, PeerInfo)> = Vec::new();
        let mut lost: Vec<String> = Vec::new();
        let n = rest.len();
        let mut i: usize = 0;
        while i < n
            invariant
                n == orig.len(),
                i <= n,
                keys_distinct(orig),
                rest@ == orig.skip(i as int),
                kept@ == orig.take(i as int).filter(staying(fullname@)),
                lost@.map_values(|s: String| s@) == orig.take(i as int).filter(departed(fullname@)).map_values(
                    |e: (String, PeerInfo)| e.0@,
                ),
                keys_distinct(kept@),
                forall|a: int| 0 <= a < kept@.len() ==> exists|j: int| 0 <= j < i && #[trigger] kept@[a] == orig[j],
            decreases n - i,
        {
            let e = rest.remove(0);
            assert(e == orig[i as int]);
            assert(orig.take(i + 1).drop_last() =~= orig.take(i as int));
            assert(orig.take(i + 1).last() == e);
            assert(orig.skip(i + 1) =~= orig.skip(i as int).drop_first());
            let short = short_id(e.1.id.0);
            let gone = str_contains(fullname, short.as_str());
            proof {
                reveal_with_fuel(Seq::filter, 1);
            }
            if gone {
                let ghost before = lost@;
                lost.push(e.0);
                assert(lost@.map_values(|s: String| s@) =~= before.map_values(|s: String| s@).push(
                    orig[i as int].0@,
                ));
            } else {
                proof {
                    assert forall|a: int| 0 <= a < kept@.len() implies #[trigger] kept@[a].0@ != e.0@ by {
                        let j = choose|j: int| 0 <= j < i && #[trigger] kept@[a] == orig[j];
                        assert(orig[j].0@ != orig[i as int].0@);
                    }
                }
                kept.push(e);
            }
            i = i + 1;
        }
        assert(orig.take(n as int) =~= orig);
        self.entries = kept;
        lost
    }
}

/// What discovery reports to its subscribers.
#[derive(Clone, Debug)]
pub enum DiscoveryEvent {
    PeerFound(PeerInfo),
    PeerLost(String),
}

/// The state of discovery: this peer's identity and operating system, and
/// the peers found.
pub struct DiscoveryState {
    pub peer_id: PeerId,
    pub local_os: OsType,
    pub peers: PeerDirectory,
}

impl DiscoveryState {
    pub open spec fn wf(&self) -> bool {
        self.peers.wf()
    }

    /// Discovery for the peer `peer_id`, with no peers found yet.
    pub fn new(peer_id: PeerId, local_os: OsType) -> (d: DiscoveryState)
        ensures
            d.wf(),
            d.peer_id == peer_id,
            d.local_os == local_os,
            d.peers.entries@.len() == 0,
    {
        DiscoveryState { peer_id, local_os, peers: PeerDirectory::new() }
    }

    /// A service was resolved: unless it is this peer's own, the peer it
    /// stands for is stored under its id text and reported as found.
    pub fn on_resolved(&mut self, props: &ServiceProperties) -> (ev: Option<DiscoveryEvent>)
        requires
            old(self).wf(),
        ensures
            final(self).wf(),
            final(self).peer_id == old(self).peer_id,
            final(self).local_os == old(self).local_os,
            text_or_empty(props.peer_id) == uuid_text(old(self).peer_id.0) ==> ev is None
                && final(self).peers.entries@ == old(self).peers.entries@,
            text_or_empty(props.peer_id) != uuid_text(old(self).peer_id.0) ==> exists|key: String, info: PeerInfo|
                {
                    &&& key@ == text_or_empty(props.peer_id)
                    &&& describes(info, key@, *props, old(self).local_os)
                    &&& ev matches Some(DiscoveryEvent::PeerFound(found)) && found@ == info@
                    &&& final(self).peers.entries@ == inserted(old(self).peers.entries@, key, info)
                },
    {
        match peer_from_service(&self.peer_id, self.local_os, props) {
            None => None,
            Some((key, info)) => {
                let found = info.clone();
                let ghost k = key;
                let ghost v = info;
                self.peers.insert(key, info);
                assert(describes(v, k@, *props, self.local_os));
                Some(DiscoveryEvent::PeerFound(found))
            },
        }
    }

    /// A service was removed: the peers whose short id occurs in its name
    /// are dropped and each is reported as lost, under its key.
    pub fn on_removed(&mut self, fullname: &str) -> (evs: Vec<DiscoveryEvent>)
        requires
            old(self).wf(),
        ensures
            final(self).wf(),
            final(self).peer_id == old(self).peer_id,
            final(self).local_os == old(self).local_os,
            final(self).peers.entries@ == old(self).peers.entries@.filter(staying(fullname@)),
            evs@.len() == old(self).peers.entries@.filter(departed(fullname@)).len(),
            forall|i: int|
                0 <= i < evs@.len() ==> (#[trigger] evs@[i] matches DiscoveryEvent::PeerLost(k) && k@
                    == old(self).peers.entries@.filter(departed(fullname@))[i].0@),
    {
        let lost = self.peers.remove_departed(fullname);
        let ghost lost_texts = lost@.map_values(|s: String| s@);
        let ghost gone = old(self).peers.entries@.filter(departed(fullname@));
        assert(lost_texts.len() == lost@.len());
        assert(lost_texts == gone.map_values(|e: (String, PeerInfo)| e.0@));
        assert(gone.map_values(|e: (String, PeerInfo)| e.0@).len() == gone.len());
        let mut evs: Vec<DiscoveryEvent> = Vec::new();
        let n = lost.len();
        let mut i: usize = 0;
        while i < n
            invariant
                n == lost@.len(),
                i <= n,
                evs@.len() == i,
                forall|j: int|
                    0 <= j < i ==> (#[trigger] evs@[j] matches DiscoveryEvent::PeerLost(k) && k@
                        == lost@[j]@),
            decreases n - i,
        {
            evs.push(DiscoveryEvent::PeerLost(lost[i].clone()));
            i = i + 1;
        }
        assert forall|i: int| 0 <= i < evs@.len() implies (#[trigger] evs@[i] matches DiscoveryEvent::PeerLost(k)
            && k@ == old(self).peers.entries@.filter(departed(fullname@))[i].0@) by {
            assert(lost_texts[i] == lost@[i]@);
            assert(gone.map_values(|e: (String, PeerInfo)| e.0@)[i] == gone[i].0@);
        }
        evs
    }
}

/// The position of a key that occurs is its only position.
proof fn lemma_key_at(s: Seq<(String, PeerInfo)>, key: Seq<char>, i: int)
    requires
        keys_distinct(s),
        0 <= i < s.len(),
        s[i].0@ == key,
    ensures
        key_position(s, key) == Some(i),
{
    let k = choose|k: int| 0 <= k < s.len() && #[trigger] s[k].0@ == key;
    assert(k == i);
}

/// After a peer is stored under a key, the key finds that peer and every
/// other key finds what it found before.
pub proof fn lemma_insert_lookup(s: Seq<(String, PeerInfo)>, key: String, info: PeerInfo, other: Seq<char>)
    requires
        keys_distinct(s),
        other != key@,
    ensures
        keys_distinct(inserted(s, key, info)),
        lookup(inserted(s, key, info), key@) == Some(info),
        lookup(inserted(s, key, info), other) == lookup(s, other),
{
    let t = inserted(s, key, info);
    let n = s.len() as int;
    let at: int = match key_position(s, key@) {
        Some(i) => i,
        None => n,
    };
    assert(0 <= at <= n);
    assert(t.len() == if at == n { n + 1 } else { n });
    assert(forall|j: int| 0 <= j < n && j != at ==> t[j] == s[j]);
    assert(t[at] == (key, info));
    assert(forall|j: int| 0 <= j < n && j != at ==> #[trigger] s[j].0@ != key@);
    assert(keys_distinct(t)) by {
        assert forall|a: int, b: int|
            0 <= a < t.len() && 0 <= b < t.len() && a != b implies #[trigger] t[a].0@ != #[trigger] t[b].0@ by {
            if a != at && b != at {
                assert(t[a] == s[a] && t[b] == s[b]);
            } else if a == at {
                assert(t[b] == s[b]);
            } else {
                assert(t[a] == s[a]);
            }
        }
    }
    lemma_key_at(t, key@, at);
    if exists|j: int| 0 <= j < n && #[trigger] s[j].0@ == other {
        let j = choose|j: int| 0 <= j < n && #[trigger] s[j].0@ == other;
        lemma_key_at(s, other, j);
        assert(j != at);
        lemma_key_at(t, other, j);
    } else {
        assert forall|j: int| 0 <= j < t.len() implies #[trigger] t[j].0@ != other by {
            if j != at {
                assert(t[j] == s[j]);
            }
        }
    }
}

/// What a peer advertises is read back by the others as the same name and
/// colour; the identity is read back too, see `peer_from_service`.
pub proof fn lemma_advertisement_read_back(
    name: Seq<char>,
    color: CursorColor,
    props: ServiceProperties,
    info: PeerInfo,
    key: Seq<char>,
    local_os: OsType,
)
    requires
        props.name matches Some(n) && n@ == name,
        props.color_r matches Some(t) && t@ == u8_text(color.r),
        props.color_g matches Some(t) && t@ == u8_text(color.g),
        props.color_b matches Some(t) && t@ == u8_text(color.b),
        describes(info, key, props, local_os),
    ensures
        info.name@ == name,
        info.color == color,
{
    lemma_u8_text_round_trip(color.r);
    lemma_u8_text_round_trip(color.g);
    lemma_u8_text_round_trip(color.b);
}

/// A peer is not dropped when the eight characters of its short id (the
/// first eight of its UUID text) occur nowhere in the removed service's
/// name: it stays in the table and is not reported lost.
pub proof fn lemma_unmatched_peer_stays(entries: Seq<(String, PeerInfo)>, fullname: Seq<char>, i: int)
    requires
        0 <= i < entries.len(),
        forall|j: int|
            0 <= j && j + 8 <= fullname.len() ==> #[trigger] fullname.subrange(j, j + 8) != uuid_text(
                entries[i].1.id.0,
            ).subrange(0, 8),
    ensures
        entries.filter(staying(fullname)).contains(entries[i]),
        !entries.filter(departed(fullname)).contains(entries[i]),
{
    let short = short_text(entries[i].1.id.0);
    assert(short.len() == 8);
    assert(!text_contains(fullname, short)) by {
        if text_contains(fullname, short) {
            let j = choose|j: int| crate::text::occurs_at(fullname, short, j);
            assert(fullname.subrange(j, j + 8) == short);
        }
    }
    entries.lemma_filter_contains(staying(fullname), i);
    if entries.filter(departed(fullname)).contains(entries[i]) {
        let k = choose|k: int|
            0 <= k < entries.filter(departed(fullname)).len() && entries.filter(departed(fullname))[k]
                == entries[i];
        entries.lemma_filter_pred(departed(fullname), k);
    }
}

/// A peer is dropped and reported lost when the eight characters of its
/// short id occur in the removed service's name.
pub proof fn lemma_matched_peer_departs(entries: Seq<(String, PeerInfo)>, fullname: Seq<char>, i: int, j: int)
    requires
        0 <= i < entries.len(),
        0 <= j,
        j + 8 <= fullname.len(),
        fullname.subrange(j, j + 8) == uuid_text(entries[i].1.id.0).subrange(0, 8),
    ensures
        entries.filter(departed(fullname)).contains(entries[i]),
        !entries.filter(staying(fullname)).contains(entries[i]),
{
    let short = short_text(entries[i].1.id.0);
    assert(short.len() == 8);
    assert(crate::text::occurs_at(fullname, short, j));
    entries.lemma_filter_contains(departed(fullname), i);
    if entries.filter(staying(fullname)).contains(entries[i]) {
        let k = choose|k: int|
            0 <= k < entries.filter(staying(fullname)).len() && entries.filter(staying(fullname))[k]
                == entries[i];
        entries.lemma_filter_pred(staying(fullname), k);
    }
}

/// When the service a peer advertised is removed (its name starts with the
/// advertised instance name), every entry for that peer is dropped and
/// reported lost.
pub proof fn lemma_removed_service_drops_its_peer(
    entries: Seq<(String, PeerInfo)>,
    id: PeerId,
    rest: Seq<char>,
    i: int,
)
    requires
        0 <= i < entries.len(),
        entries[i].1.id == id,
    ensures
        entries.filter(departed(instance_text(id) + rest)).contains(entries[i]),
        !entries.filter(staying(instance_text(id) + rest)).contains(entries[i]),
{
    let fullname = instance_text(id) + rest;
    reveal_strlit("flow-");
    assert(fullname.subrange(5, 13) =~= uuid_text(id.0).subrange(0, 8));
    lemma_matched_peer_departs(entries, fullname, i, 5);
}

} // verus!
