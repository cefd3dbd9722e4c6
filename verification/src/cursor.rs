//! Cursor sharing: when the local cursor leaves a monitor across an edge,
//! whether it crosses onto another peer's monitor, and where.
use vstd::prelude::*;

use crate::layout::{landing, monitor_key, neighbor_of, probe, SpatialEntry, SpatialLayout};
use crate::search::{first_index, lemma_first_index_is, lemma_first_index_none, lemma_first_index_some};
use crate::protocol::{CursorColor, CursorPosition, Edge, GridPosition, PeerId};

verus! {

/// What the cursor logic reports.
#[derive(Clone, Debug)]
pub enum CursorEvent {
    /// The cursor crossed onto monitor `to_monitor` of `to_peer_id`, at
    /// `position` relative to that monitor's top left corner.
    CrossedEdge { to_peer_id: PeerId, to_monitor: u32, position: GridPosition },
    /// Another peer's cursor moved.
    RemoteCursorMoved {
        peer_id: PeerId,
        name: String,
        color: CursorColor,
        position: CursorPosition,
        visible: bool,
    },
}

/// The crossing, if any, when this peer's cursor leaves monitor `monitor`
/// across `edge` at offset `along`: the neighbouring monitor, unless it
/// belongs to this peer itself.
pub open spec fn crossing(
    layout: SpatialLayout,
    me: PeerId,
    monitor: u32,
    edge: Edge,
    along: int,
) -> Option<(PeerId, u32, int, int)> {
    match neighbor_of(layout.entries@, me, monitor, edge, along) {
        None => None,
        Some((i, dx, dy)) => {
            let t = layout.entries@[i];
            if t.peer_id == me {
                None
            } else {
                Some((t.peer_id, t.monitor_id, dx, dy))
            }
        },
    }
}

/// The layout and this peer's place in it.
pub struct CursorManager {
    pub layout: SpatialLayout,
    pub my_peer_id: PeerId,
}

impl CursorManager {
    /// Cursor logic for peer `peer_id`, with an empty layout.
    pub fn new(peer_id: PeerId) -> (m: CursorManager)
        ensures
            m.my_peer_id == peer_id,
            m.layout.entries@.len() == 0,
    {
        CursorManager { layout: SpatialLayout::new(), my_peer_id: peer_id }
    }

    /// The cursor reached `edge` of monitor `monitor_id`, `along` pixels from
    /// the top (left and right edges) or from the left (top and bottom
    /// edges): reports the crossing onto another peer's monitor, if there is
    /// one.
    pub fn check_edge(&self, edge: Edge, along: i32, monitor_id: u32) -> (ev: Option<CursorEvent>)
        requires
            self.layout.probe_fits(self.my_peer_id, monitor_id, edge, along as int),
        ensures
            match crossing(self.layout, self.my_peer_id, monitor_id, edge, along as int) {
                None => ev is None,
                Some((peer, monitor, dx, dy)) => ev == Some(
                    CursorEvent::CrossedEdge {
                        to_peer_id: peer,
                        to_monitor: monitor,
                        position: GridPosition { x: dx as i32, y: dy as i32 },
                    },
                ),
            },
    {
        match self.layout.find_neighbor(&self.my_peer_id, monitor_id, edge, along) {
            Some((target, pos)) => {
                if target.peer_id != self.my_peer_id {
                    Some(
                        CursorEvent::CrossedEdge {
                            to_peer_id: target.peer_id,
                            to_monitor: target.monitor_id,
                            position: pos,
                        },
                    )
                } else {
                    None
                }
            },
            None => None,
        }
    }
}

/// The pixel `(px, py)` is the one the cursor enters when it leaves monitor
/// `s` across `edge` at offset `along`: one pixel past the right or bottom
/// edge (the monitor's far side lies at its corner plus its width or height,
/// as 32-bit signed values), or the first pixel before the left or top edge.
pub open spec fn entered_pixel(s: SpatialEntry, edge: Edge, along: int, px: int, py: int) -> bool {
    &&& edge is Right ==> px == s.x + s.width as i32 + 1 && py == s.y + along
    &&& edge is Left ==> px == s.x - 1 && py == s.y + along
    &&& edge is Top ==> px == s.x + along && py == s.y - 1
    &&& edge is Bottom ==> px == s.x + along && py == s.y + s.height as i32 + 1
}

/// The monitor `t` spans the pixel `(px, py)`.
pub open spec fn spans(t: SpatialEntry, px: int, py: int) -> bool {
    &&& t.x <= px < t.x + t.width as i32
    &&& t.y <= py < t.y + t.height as i32
}

/// Entry `k` is the first entry for monitor `monitor` of peer `me`.
pub open spec fn first_entry_of(entries: Seq<SpatialEntry>, me: PeerId, monitor: u32, k: int) -> bool {
    &&& 0 <= k < entries.len()
    &&& entries[k].peer_id == me && entries[k].monitor_id == monitor
    &&& forall|i: int|
        0 <= i < k ==> !(#[trigger] entries[i].peer_id == me && entries[i].monitor_id == monitor)
}

/// Across every edge, left and right included, the cursor crosses onto
/// another peer's monitor: where the first entry other than the monitor
/// left that spans the entered pixel belongs to another peer, the crossing
/// names that peer and monitor and the entered pixel relative to that
/// monitor's top left corner.
pub proof fn lemma_crossing_onto_other_peer(
    layout: SpatialLayout,
    me: PeerId,
    monitor: u32,
    edge: Edge,
    along: int,
    k: int,
    j: int,
    px: int,
    py: int,
)
    requires
        first_entry_of(layout.entries@, me, monitor, k),
        entered_pixel(layout.entries@[k], edge, along, px, py),
        0 <= j < layout.entries@.len(),
        layout.entries@[j].peer_id != me,
        spans(layout.entries@[j], px, py),
        forall|i: int|
            0 <= i < j ==> (#[trigger] layout.entries@[i].peer_id == me && layout.entries@[i].monitor_id
                == monitor) || !spans(layout.entries@[i], px, py),
    ensures
        crossing(layout, me, monitor, edge, along) == Some(
            (
                layout.entries@[j].peer_id,
                layout.entries@[j].monitor_id,
                px - layout.entries@[j].x,
                py - layout.entries@[j].y,
            ),
        ),
{
    let e = layout.entries@;
    assert forall|i: int| 0 <= i < k implies !monitor_key(me, monitor)(#[trigger] e[i]) by {
        assert(!(e[i].peer_id == me && e[i].monitor_id == monitor));
    }
    lemma_first_index_is(e, monitor_key(me, monitor), k);
    assert(probe(e[k], edge, along) == (px, py));
    let land = landing(me, monitor, px, py);
    assert forall|i: int| 0 <= i < j implies !land(#[trigger] e[i]) by {
        assert((e[i].peer_id == me && e[i].monitor_id == monitor) || !spans(e[i], px, py));
    }
    assert(land(e[j]));
    lemma_first_index_is(e, land, j);
}

/// Where no monitor of another peer spans the entered pixel, the cursor
/// does not cross.
pub proof fn lemma_no_crossing_without_other_peer(
    layout: SpatialLayout,
    me: PeerId,
    monitor: u32,
    edge: Edge,
    along: int,
    k: int,
    px: int,
    py: int,
)
    requires
        first_entry_of(layout.entries@, me, monitor, k),
        entered_pixel(layout.entries@[k], edge, along, px, py),
        forall|i: int|
            0 <= i < layout.entries@.len() ==> #[trigger] layout.entries@[i].peer_id == me || !spans(
                layout.entries@[i],
                px,
                py,
            ),
    ensures
        crossing(layout, me, monitor, edge, along) is None,
{
    let e = layout.entries@;
    assert forall|i: int| 0 <= i < k implies !monitor_key(me, monitor)(#[trigger] e[i]) by {
        assert(!(e[i].peer_id == me && e[i].monitor_id == monitor));
    }
    lemma_first_index_is(e, monitor_key(me, monitor), k);
    assert(probe(e[k], edge, along) == (px, py));
    let land = landing(me, monitor, px, py);
    match first_index(e, land) {
        None => {},
        Some(i) => {
            lemma_first_index_some(e, land);
            assert(e[i].peer_id == me || !spans(e[i], px, py));
        },
    }
}

/// Leaving a monitor that is not in the layout crosses nowhere.
pub proof fn lemma_no_crossing_from_unknown_monitor(
    layout: SpatialLayout,
    me: PeerId,
    monitor: u32,
    edge: Edge,
    along: int,
)
    requires
        forall|i: int|
            0 <= i < layout.entries@.len() ==> !(#[trigger] layout.entries@[i].peer_id == me
                && layout.entries@[i].monitor_id == monitor),
    ensures
        crossing(layout, me, monitor, edge, along) is None,
{
    let e = layout.entries@;
    assert forall|i: int| 0 <= i < e.len() implies !monitor_key(me, monitor)(#[trigger] e[i]) by {
        assert(!(e[i].peer_id == me && e[i].monitor_id == monitor));
    }
    lemma_first_index_none(e, monitor_key(me, monitor));
}

/// The cursor does not cross onto this peer's own monitors: where the first
/// entry other than the monitor left that spans the entered pixel is one of
/// this peer's, there is no crossing, whatever entries come after it.
pub proof fn lemma_no_crossing_onto_own_monitor(
    layout: SpatialLayout,
    me: PeerId,
    monitor: u32,
    edge: Edge,
    along: int,
    k: int,
    j: int,
    px: int,
    py: int,
)
    requires
        first_entry_of(layout.entries@, me, monitor, k),
        entered_pixel(layout.entries@[k], edge, along, px, py),
        0 <= j < layout.entries@.len(),
        layout.entries@[j].peer_id == me,
        layout.entries@[j].monitor_id != monitor,
        spans(layout.entries@[j], px, py),
        forall|i: int|
            0 <= i < j ==> (#[trigger] layout.entries@[i].peer_id == me && layout.entries@[i].monitor_id
                == monitor) || !spans(layout.entries@[i], px, py),
    ensures
        crossing(layout, me, monitor, edge, along) is None,
{
    let e = layout.entries@;
    assert forall|i: int| 0 <= i < k implies !monitor_key(me, monitor)(#[trigger] e[i]) by {
        assert(!(e[i].peer_id == me && e[i].monitor_id == monitor));
    }
    lemma_first_index_is(e, monitor_key(me, monitor), k);
    assert(probe(e[k], edge, along) == (px, py));
    let land = landing(me, monitor, px, py);
    assert forall|i: int| 0 <= i < j implies !land(#[trigger] e[i]) by {
        assert((e[i].peer_id == me && e[i].monitor_id == monitor) || !spans(e[i], px, py));
    }
    assert(land(e[j]));
    lemma_first_index_is(e, land, j);
}

} // verus!
