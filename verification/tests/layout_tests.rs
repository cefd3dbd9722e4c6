use flow::cursor::{CursorEvent, CursorManager};
use flow::layout::{SpatialEntry, SpatialLayout};
use flow::protocol::{CursorColor, Edge, GridPosition, MonitorInfo, OsType, PeerId, PeerInfo};

fn monitor(id: u32, x: i32, y: i32, w: u32, h: u32) -> MonitorInfo {
    MonitorInfo {
        monitor_id: id,
        name: format!("m{id}"),
        width: w,
        height: h,
        scale_factor_bits: 1.0f64.to_bits(),
        position: GridPosition { x, y },
    }
}

fn peer(id: u128, monitors: Vec<MonitorInfo>) -> PeerInfo {
    PeerInfo {
        id: PeerId(id),
        name: format!("peer{id}"),
        color: CursorColor::pick(0),
        monitors,
        os: OsType::Linux,
    }
}

fn side_by_side() -> SpatialLayout {
    let mut l = SpatialLayout::new();
    l.add_peer_monitors(&peer(1, vec![monitor(0, 0, 0, 1920, 1080)]));
    l.add_peer_monitors(&peer(2, vec![monitor(0, 1920, 0, 1920, 1080), monitor(1, 1920, -1080, 1920, 1080)]));
    l
}

#[test]
fn monitors_are_placed_in_order() {
    let l = side_by_side();
    assert_eq!(l.entries.len(), 3);
    assert_eq!(
        l.entries[1],
        SpatialEntry { peer_id: PeerId(2), monitor_id: 0, x: 1920, y: 0, width: 1920, height: 1080 }
    );
    assert_eq!(l.entries[2].y, -1080);
}

#[test]
fn crossing_right_lands_one_pixel_in() {
    let l = side_by_side();
    let (t, p) = l.find_neighbor(&PeerId(1), 0, Edge::Right, 500).expect("neighbour");
    assert_eq!(t.peer_id, PeerId(2));
    assert_eq!(t.monitor_id, 0);
    assert_eq!(p, GridPosition { x: 1, y: 500 });
}

#[test]
fn crossing_left_lands_on_last_column() {
    let l = side_by_side();
    let (t, p) = l.find_neighbor(&PeerId(2), 0, Edge::Left, 10).expect("neighbour");
    assert_eq!(t.peer_id, PeerId(1));
    assert_eq!(p, GridPosition { x: 1919, y: 10 });
}

#[test]
fn crossing_top_and_bottom() {
    let l = side_by_side();
    let (t, p) = l.find_neighbor(&PeerId(2), 0, Edge::Top, 100).expect("above");
    assert_eq!((t.peer_id, t.monitor_id), (PeerId(2), 1));
    assert_eq!(p, GridPosition { x: 100, y: 1079 });
    let (t, p) = l.find_neighbor(&PeerId(2), 1, Edge::Bottom, 100).expect("below");
    assert_eq!((t.peer_id, t.monitor_id), (PeerId(2), 0));
    assert_eq!(p, GridPosition { x: 100, y: 1 });
}

#[test]
fn no_neighbour_or_unknown_source() {
    let l = side_by_side();
    assert!(l.find_neighbor(&PeerId(1), 0, Edge::Left, 10).is_none());
    assert!(l.find_neighbor(&PeerId(1), 0, Edge::Top, 10).is_none());
    assert!(l.find_neighbor(&PeerId(9), 0, Edge::Right, 10).is_none());
    assert!(l.find_neighbor(&PeerId(1), 5, Edge::Right, 10).is_none());
}

#[test]
fn source_entry_and_probe_range() {
    let l = side_by_side();
    let (k, e) = l.source_entry(&PeerId(2), 1).expect("found");
    assert_eq!(k, 2);
    assert_eq!(e.y, -1080);
    assert!(l.probe_in_range(&PeerId(1), 0, Edge::Right, 10));
    assert!(l.probe_in_range(&PeerId(1), 0, Edge::Right, i32::MAX));
    assert!(!l.probe_in_range(&PeerId(2), 1, Edge::Right, i32::MIN));
    assert!(!l.probe_in_range(&PeerId(2), 0, Edge::Top, i32::MAX));
    assert!(l.probe_in_range(&PeerId(9), 0, Edge::Right, i32::MAX));
}

#[test]
fn far_out_and_huge_monitors_are_handled() {
    let mut l = side_by_side();
    l.add_peer_monitors(&peer(3, vec![monitor(0, 2147483000, 0, 10_000, 100)]));
    l.add_peer_monitors(&peer(4, vec![monitor(0, -50, 1000, u32::MAX, 100)]));
    let (t, p) = l.find_neighbor(&PeerId(1), 0, Edge::Right, 500).expect("neighbour");
    assert_eq!(t.peer_id, PeerId(2));
    assert_eq!(p, GridPosition { x: 1, y: 500 });
    // A width above i32::MAX wraps to a negative width: the monitor covers nothing.
    assert!(l.find_neighbor(&PeerId(1), 0, Edge::Bottom, 10).is_none());
    // The far monitor is reached from its left neighbour's edge.
    let mut far = SpatialLayout::new();
    far.add_peer_monitors(&peer(1, vec![monitor(0, 2147483000 - 101, 0, 100, 100)]));
    far.add_peer_monitors(&peer(3, vec![monitor(0, 2147483000, 0, 10_000, 100)]));
    assert!(far.probe_in_range(&PeerId(1), 0, Edge::Right, 5));
    let (t, p) = far.find_neighbor(&PeerId(1), 0, Edge::Right, 5).expect("far neighbour");
    assert_eq!(t.peer_id, PeerId(3));
    assert_eq!(p, GridPosition { x: 0, y: 5 });
    // A probe whose sum overflows is reported before the search.
    assert!(!far.probe_in_range(&PeerId(3), 0, Edge::Right, 5));
}

#[test]
fn later_monitors_do_not_change_a_crossing() {
    let mut l = side_by_side();
    let before = l.find_neighbor(&PeerId(1), 0, Edge::Right, 500).map(|(t, p)| (*t, p));
    l.add_peer_monitors(&peer(3, vec![monitor(0, 1921, 0, 800, 600)]));
    let after = l.find_neighbor(&PeerId(1), 0, Edge::Right, 500).map(|(t, p)| (*t, p));
    assert_eq!(before, after);
}

#[test]
fn cursor_crosses_only_onto_other_peers() {
    let mut m = CursorManager::new(PeerId(1));
    m.layout.add_peer_monitors(&peer(1, vec![monitor(0, 0, 0, 100, 100), monitor(1, 100, 0, 100, 100)]));
    m.layout.add_peer_monitors(&peer(2, vec![monitor(0, 0, 100, 200, 100)]));
    assert!(m.check_edge(Edge::Right, 5, 0).is_none());
    match m.check_edge(Edge::Bottom, 50, 1) {
        Some(CursorEvent::CrossedEdge { to_peer_id, to_monitor, position }) => {
            assert_eq!(to_peer_id, PeerId(2));
            assert_eq!(to_monitor, 0);
            assert_eq!(position, GridPosition { x: 150, y: 1 });
        }
        other => panic!("unexpected {other:?}"),
    }
    assert!(m.check_edge(Edge::Top, 5, 0).is_none());
}

#[test]
fn moving_the_whole_layout_keeps_every_crossing() {
    let shift = |dx: i32, dy: i32| {
        let mut l = SpatialLayout::new();
        l.add_peer_monitors(&peer(1, vec![monitor(0, dx, dy, 1920, 1080)]));
        l.add_peer_monitors(&peer(
            2,
            vec![monitor(0, 1920 + dx, dy, 1920, 1080), monitor(1, 1920 + dx, -1080 + dy, 1920, 1080)],
        ));
        l.add_peer_monitors(&peer(3, vec![monitor(0, dx, 1080 + dy, 1920, 1080)]));
        l
    };
    let base = shift(0, 0);
    let moved = shift(-5000, 700);
    let index = |l: &SpatialLayout, t: &SpatialEntry| l.entries.iter().position(|e| e == t);
    for (peer_id, monitor_id) in [(1u128, 0u32), (2, 0), (2, 1), (3, 0)] {
        for edge in [Edge::Left, Edge::Right, Edge::Top, Edge::Bottom] {
            for along in [0, 10, 500, 1079] {
                let a = base.find_neighbor(&PeerId(peer_id), monitor_id, edge, along);
                let b = moved.find_neighbor(&PeerId(peer_id), monitor_id, edge, along);
                match (a, b) {
                    (None, None) => {}
                    (Some((ta, pa)), Some((tb, pb))) => {
                        assert_eq!(index(&base, ta), index(&moved, tb));
                        assert_eq!(pa, pb);
                    }
                    other => panic!("crossings differ: {other:?}"),
                }
            }
        }
    }
    let (t, p) = moved.find_neighbor(&PeerId(1), 0, Edge::Bottom, 30).expect("neighbour below");
    assert_eq!(t.peer_id, PeerId(3));
    assert_eq!(p, GridPosition { x: 30, y: 1 });
}
