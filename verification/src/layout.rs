//! The spatial layout: where every monitor of every peer sits in one shared
//! virtual desktop, and which monitor the cursor reaches when it leaves one
//! across an edge.
use vstd::prelude::*;

use crate::protocol::{Edge, GridPosition, MonitorInfo, PeerId, PeerInfo};
use crate::search::{
    any_satisfies, first_index, is_first, lemma_first_index_is, lemma_first_index_none,
    lemma_first_index_corresponds, lemma_first_index_prefix, lemma_first_index_some,
};

verus! {

/// A monitor placed in the shared desktop: it covers the pixels
/// `x .. x + width` by `y .. y + height`.
#[derive(Clone, Copy, Debug, PartialEq, Eq, Structural)]
pub struct SpatialEntry {
    pub peer_id: PeerId,
    pub monitor_id: u32,
    pub x: i32,
    pub y: i32,
    pub width: u32,
    pub height: u32,
}

/// All placed monitors, in the order they were added.
#[derive(Clone, Debug)]
pub struct SpatialLayout {
    pub entries: Vec<SpatialEntry>,
}

/// The entry that stands for monitor `m` of peer `peer`.
pub open spec fn entry_for(peer: PeerId, m: MonitorInfo) -> SpatialEntry {
    SpatialEntry {
        peer_id: peer,
        monitor_id: m.monitor_id,
        x: m.position.x,
        y: m.position.y,
        width: m.width,
        height: m.height,
    }
}

/// The entries for all monitors of a peer, in order.
pub open spec fn entries_for(peer: PeerInfo) -> Seq<SpatialEntry> {
    peer.monitors@.map_values(|m: MonitorInfo| entry_for(peer.id, m))
}

/// The entry is monitor `monitor` of peer `peer`.
pub open spec fn is_monitor(e: SpatialEntry, peer: PeerId, monitor: u32) -> bool {
    e.peer_id == peer && e.monitor_id == monitor
}

/// Predicate form of `is_monitor`.
pub open spec fn monitor_key(peer: PeerId, monitor: u32) -> spec_fn(SpatialEntry) -> bool {
    |e: SpatialEntry| is_monitor(e, peer, monitor)
}

/// The width of an entry as the signed 32-bit value it converts to (a width
/// above `i32::MAX` wraps round to a negative value).
pub open spec fn signed_width(e: SpatialEntry) -> int {
    e.width as i32 as int
}

/// The height of an entry as the signed 32-bit value it converts to.
pub open spec fn signed_height(e: SpatialEntry) -> int {
    e.height as i32 as int
}

/// The entry covers the pixel `(x, y)`: it lies between the entry's corner
/// and its corner moved by its signed width and height.
pub open spec fn covers(e: SpatialEntry, x: int, y: int) -> bool {
    &&& e.x <= x < e.x + signed_width(e)
    &&& e.y <= y < e.y + signed_height(e)
}

/// The entry is a possible landing place: it is not the monitor the cursor
/// leaves and it covers the pixel the cursor enters.
pub open spec fn landing(peer: PeerId, monitor: u32, x: int, y: int) -> spec_fn(SpatialEntry) -> bool {
    |e: SpatialEntry| !is_monitor(e, peer, monitor) && covers(e, x, y)
}

/// The pixel probed when the cursor leaves monitor `s` across `edge`, at
/// offset `along` from the top (left and right edges) or from the left (top
/// and bottom edges). The right and bottom probes lie one pixel past the first
/// pixel outside the monitor; the left and top probes on that first pixel.
pub open spec fn probe(s: SpatialEntry, edge: Edge, along: int) -> (int, int) {
    match edge {
        Edge::Right => (s.x + signed_width(s) + 1, s.y + along),
        Edge::Left => (s.x - 1, s.y + along),
        Edge::Top => (s.x + along, s.y - 1),
        Edge::Bottom => (s.x + along, s.y + signed_height(s) + 1),
    }
}

/// A value fits in a 32-bit signed integer.
pub open spec fn fits_i32(v: int) -> bool {
    i32::MIN <= v <= i32::MAX
}

/// Computing the probe from `s` in 32-bit signed arithmetic does not
/// overflow: each sum, intermediate ones included, fits.
pub open spec fn probe_computable(s: SpatialEntry, edge: Edge, along: int) -> bool {
    match edge {
        Edge::Right => fits_i32(s.x + signed_width(s)) && fits_i32(s.x + signed_width(s) + 1) && fits_i32(
            s.y + along,
        ),
        Edge::Left => fits_i32(s.x - 1) && fits_i32(s.y + along),
        Edge::Top => fits_i32(s.x + along) && fits_i32(s.y - 1),
        Edge::Bottom => fits_i32(s.x + along) && fits_i32(s.y + signed_height(s)) && fits_i32(
            s.y + signed_height(s) + 1,
        ),
    }
}

/// Where the cursor lands when it leaves monitor `monitor` of `peer` across
/// `edge` at offset `along`: the position of the landing entry and the
/// landing pixel relative to that entry's top left corner. The monitor left
/// is the first entry for it; the landing entry is the first entry, other
/// than an entry for the monitor left, that covers the probe.
pub open spec fn neighbor_of(
    entries: Seq<SpatialEntry>,
    peer: PeerId,
    monitor: u32,
    edge: Edge,
    along: int,
) -> Option<(int, int, int)> {
    match first_index(entries, monitor_key(peer, monitor)) {
        None => None,
        Some(k) => {
            let p = probe(entries[k], edge, along);
            match first_index(entries, landing(peer, monitor, p.0, p.1)) {
                None => None,
                Some(i) => Some((i, p.0 - entries[i].x, p.1 - entries[i].y)),
            }
        },
    }
}

impl SpatialLayout {
    /// The probe from monitor `monitor` of `peer` across `edge` at `along`
    /// can be computed in 32-bit signed arithmetic (or there is no such
    /// monitor).
    pub open spec fn probe_fits(&self, peer: PeerId, monitor: u32, edge: Edge, along: int) -> bool {
        match first_index(self.entries@, monitor_key(peer, monitor)) {
            None => true,
            Some(k) => probe_computable(self.entries@[k], edge, along),
        }
    }

    /// An empty layout.
    pub fn new() -> (l: SpatialLayout)
        ensures
            l.entries@ == Seq::<SpatialEntry>::empty(),
    {
        SpatialLayout { entries: Vec::new() }
    }

    /// Places every monitor of `peer` at its reported position, after the
    /// entries already there.
    pub fn add_peer_monitors(&mut self, peer: &PeerInfo)
        ensures
            final(self).entries@ == old(self).entries@ + entries_for(*peer),
    {
        let n = peer.monitors.len();
        let mut i: usize = 0;
        while i < n
            invariant
                n == peer.monitors@.len(),
                i <= n,
                self.entries@ == old(self).entries@ + entries_for(*peer).take(i as int),
            decreases n - i,
        {
            let m = &peer.monitors[i];
            self.entries.push(
                SpatialEntry {
                    peer_id: peer.id,
                    monitor_id: m.monitor_id,
                    x: m.position.x,
                    y: m.position.y,
                    width: m.width,
                    height: m.height,
                },
            );
            assert(entries_for(*peer).take(i + 1) =~= entries_for(*peer).take(i as int).push(
                entry_for(peer.id, peer.monitors@[i as int]),
            ));
            i = i + 1;
        }
        assert(entries_for(*peer).take(n as int) =~= entries_for(*peer));
    }

    /// The first entry for monitor `monitor` of `peer`, with its position.
    pub fn source_entry(&self, peer: &PeerId, monitor: u32) -> (r: Option<(usize, SpatialEntry)>)
        ensures
            match first_index(self.entries@, monitor_key(*peer, monitor)) {
                None => r is None,
                Some(k) => r == Some((k as usize, self.entries@[k])),
            },
            r matches Some((k, e)) ==> is_first(self.entries@, monitor_key(*peer, monitor), k as int),
    {
        let n = self.entries.len();
        let mut i: usize = 0;
        while i < n
            invariant
                n == self.entries@.len(),
                i <= n,
                forall|j: int| 0 <= j < i ==> !is_monitor(#[trigger] self.entries@[j], *peer, monitor),
            decreases n - i,
        {
            let e = self.entries[i];
            if e.peer_id == *peer && e.monitor_id == monitor {
                proof {
                    assert(is_first(self.entries@, monitor_key(*peer, monitor), i as int));
                    lemma_first_index_is(self.entries@, monitor_key(*peer, monitor), i as int);
                }
                return Some((i, e));
            }
            i = i + 1;
        }
        proof {
            lemma_first_index_none(self.entries@, monitor_key(*peer, monitor));
        }
        None
    }

    /// Whether the probe from monitor `monitor` of `peer` across `edge` at
    /// `along` can be computed in 32-bit signed arithmetic.
    pub fn probe_in_range(&self, peer: &PeerId, monitor: u32, edge: Edge, along: i32) -> (r: bool)
        ensures
            r == self.probe_fits(*peer, monitor, edge, along as int),
    {
        match self.source_entry(peer, monitor) {
            None => true,
            Some((_, s)) => {
                let x = s.x as i64;
                let y = s.y as i64;
                let a = along as i64;
                let lo = i32::MIN as i64;
                let hi = i32::MAX as i64;
                match edge {
                    Edge::Right => {
                        let w = (s.width as i32) as i64;
                        lo <= x + w && x + w <= hi && lo <= x + w + 1 && x + w + 1 <= hi && lo <= y + a
                            && y + a <= hi
                    },
                    Edge::Left => lo <= x - 1 && lo <= y + a && y + a <= hi,
                    Edge::Top => lo <= x + a && x + a <= hi && lo <= y - 1,
                    Edge::Bottom => {
                        let h = (s.height as i32) as i64;
                        lo <= x + a && x + a <= hi && lo <= y + h && y + h <= hi && lo <= y + h + 1
                            && y + h + 1 <= hi
                    },
                }
            },
        }
    }

    /// The monitor the cursor reaches when it leaves monitor `from_monitor`
    /// of `from_peer` across `edge`, `along` pixels from the top (left and
    /// right edges) or from the left (top and bottom edges), with the pixel
    /// it lands on relative to that monitor's top left corner.
    pub fn find_neighbor(&self, from_peer: &PeerId, from_monitor: u32, edge: Edge, along: i32) -> (r:
        Option<(&SpatialEntry, GridPosition)>)
        requires
            self.probe_fits(*from_peer, from_monitor, edge, along as int),
        ensures
            match neighbor_of(self.entries@, *from_peer, from_monitor, edge, along as int) {
                None => r is None,
                Some((i, dx, dy)) => r matches Some((t, p)) && *t == self.entries@[i] && p.x == dx
                    && p.y == dy,
            },
            r matches Some((t, p)) ==> 0 <= p.x < t.width && 0 <= p.y < t.height,
            r matches Some((t, p)) ==> !is_monitor(*t, *from_peer, from_monitor),
    {
        let source = self.source_entry(from_peer, from_monitor);
        let ghost k: int;
        let s = match source {
            None => return None,
            Some((ks, s)) => {
                proof {
                    k = ks as int;
                }
                s
            },
        };
        assert(first_index(self.entries@, monitor_key(*from_peer, from_monitor)) == Some(k));
        assert(s == self.entries@[k]);
        let ghost p = probe(s, edge, along as int);
        let (cx, cy): (i32, i32) = match edge {
            Edge::Right => (s.x + (s.width as i32) + 1, s.y + along),
            Edge::Left => (s.x - 1, s.y + along),
            Edge::Top => (s.x + along, s.y - 1),
            Edge::Bottom => (s.x + along, s.y + (s.height as i32) + 1),
        };
        assert(cx == p.0 && cy == p.1);
        let ghost land = landing(*from_peer, from_monitor, p.0, p.1);
        let n = self.entries.len();
        let mut i: usize = 0;
        while i < n
            invariant
                n == self.entries@.len(),
                i <= n,
                land == landing(*from_peer, from_monitor, cx as int, cy as int),
                first_index(self.entries@, monitor_key(*from_peer, from_monitor)) == Some(k),
                probe(self.entries@[k], edge, along as int) == (cx as int, cy as int),
                forall|j: int| 0 <= j < i ==> !land(#[trigger] self.entries@[j]),
            decreases n - i,
        {
            let e = &self.entries[i];
            let ex = e.x as i64;
            let ey = e.y as i64;
            let ew = (e.width as i32) as i64;
            let eh = (e.height as i32) as i64;
            if !(e.peer_id == *from_peer && e.monitor_id == from_monitor) && cx as i64 >= ex && (cx as i64)
                < ex + ew && cy as i64 >= ey && (cy as i64) < ey + eh {
                proof {
                    assert(land(self.entries@[i as int]));
                    assert(is_first(self.entries@, land, i as int));
                    lemma_first_index_is(self.entries@, land, i as int);
                    assert(neighbor_of(self.entries@, *from_peer, from_monitor, edge, along as int)
                        == Some((i as int, cx - e.x, cy - e.y)));
                }
                return Some((e, GridPosition { x: cx - e.x, y: cy - e.y }));
            }
            i = i + 1;
        }
        proof {
            lemma_first_index_none(self.entries@, land);
        }
        None
    }
}

/// Monitors placed later do not change where a crossing that already lands
/// somewhere lands: the monitor left and the landing monitor are the first
/// matching entries, and later entries come after them.
pub proof fn lemma_crossing_stable(
    entries: Seq<SpatialEntry>,
    more: Seq<SpatialEntry>,
    peer: PeerId,
    monitor: u32,
    edge: Edge,
    along: int,
)
    requires
        neighbor_of(entries, peer, monitor, edge, along) is Some,
    ensures
        neighbor_of(entries + more, peer, monitor, edge, along) == neighbor_of(
            entries,
            peer,
            monitor,
            edge,
            along,
        ),
{
    let key = monitor_key(peer, monitor);
    assert(any_satisfies(entries, key)) by {
        if !any_satisfies(entries, key) {
            assert(first_index(entries, key) is None);
        }
    }
    lemma_first_index_prefix(entries, more, key);
    lemma_first_index_some(entries, key);
    let k = first_index(entries, key).unwrap();
    assert((entries + more)[k] == entries[k]);
    let p = probe(entries[k], edge, along);
    let land = landing(peer, monitor, p.0, p.1);
    assert(any_satisfies(entries, land)) by {
        if !any_satisfies(entries, land) {
            assert(first_index(entries, land) is None);
        }
    }
    lemma_first_index_prefix(entries, more, land);
    lemma_first_index_some(entries, land);
    let i = first_index(entries, land).unwrap();
    assert((entries + more)[i] == entries[i]);
}

/// An entry moved by `(dx, dy)`.
pub open spec fn shifted(e: SpatialEntry, dx: int, dy: int) -> SpatialEntry {
    SpatialEntry { x: (e.x + dx) as i32, y: (e.y + dy) as i32, ..e }
}

/// Every entry moved by `(dx, dy)` keeps 32-bit signed coordinates.
pub open spec fn shift_fits(entries: Seq<SpatialEntry>, dx: int, dy: int) -> bool {
    forall|i: int|
        0 <= i < entries.len() ==> fits_i32(#[trigger] entries[i].x + dx) && fits_i32(entries[i].y + dy)
}

/// Moving the whole layout changes no crossing: the cursor lands on the
/// entry at the same position, at the same pixel relative to it.
pub proof fn lemma_crossing_translation_invariant(
    entries: Seq<SpatialEntry>,
    dx: int,
    dy: int,
    peer: PeerId,
    monitor: u32,
    edge: Edge,
    along: int,
)
    requires
        shift_fits(entries, dx, dy),
    ensures
        neighbor_of(
            entries.map_values(|e: SpatialEntry| shifted(e, dx, dy)),
            peer,
            monitor,
            edge,
            along,
        ) == neighbor_of(entries, peer, monitor, edge, along),
{
    let moved = entries.map_values(|e: SpatialEntry| shifted(e, dx, dy));
    let key = monitor_key(peer, monitor);
    assert forall|i: int| 0 <= i < entries.len() implies key(#[trigger] entries[i]) == key(moved[i]) by {
        assert(moved[i] == shifted(entries[i], dx, dy));
    }
    lemma_first_index_corresponds(entries, moved, key, key);
    match first_index(entries, key) {
        None => {},
        Some(k) => {
            lemma_first_index_some(entries, key);
            let p = probe(entries[k], edge, along);
            assert(moved[k] == shifted(entries[k], dx, dy));
            let mp = probe(moved[k], edge, along);
            assert(mp == (p.0 + dx, p.1 + dy));
            let land = landing(peer, monitor, p.0, p.1);
            let mland = landing(peer, monitor, mp.0, mp.1);
            assert forall|i: int| 0 <= i < entries.len() implies land(#[trigger] entries[i]) == mland(
                moved[i],
            ) by {
                assert(moved[i] == shifted(entries[i], dx, dy));
            }
            lemma_first_index_corresponds(entries, moved, land, mland);
            match first_index(entries, land) {
                None => {},
                Some(i) => {
                    lemma_first_index_some(entries, land);
                    assert(moved[i] == shifted(entries[i], dx, dy));
                },
            }
        },
    }
}

} // verus!
