use flow::clipboard::{bytes_text, text_bytes, ClipboardSync};
use flow::protocol::{ClipboardContentType, CursorColor, CursorPosition, FlowMessage, OsType, PeerId, PeerInfo};
use flow::session::{css_color, invert_direction, os_name, peer_ui, FlowSession, SessionAction};
use flow::transfer::{OutgoingTransfer, ReceiveTable, CHUNK_SIZE};

const ME: u128 = 0x11111111_2222_4333_8444_555555555555;
const OTHER: u128 = 0xabcdef01_2222_4333_8444_555555555555;

fn info(id: u128, name: &str) -> PeerInfo {
    PeerInfo { id: PeerId(id), name: name.into(), color: CursorColor::purple(), monitors: vec![], os: OsType::MacOS }
}

#[test]
fn directions_invert() {
    assert_eq!(invert_direction("right"), "left");
    assert_eq!(invert_direction("left"), "right");
    assert_eq!(invert_direction("above"), "below");
    assert_eq!(invert_direction("below"), "above");
    assert_eq!(invert_direction("sideways"), "right");
    for d in ["right", "left", "above", "below"] {
        assert_eq!(invert_direction(invert_direction(d)), d);
    }
}

#[test]
fn peer_listing_texts() {
    assert_eq!(os_name(OsType::MacOS), "MacOS");
    assert_eq!(os_name(OsType::Windows), "Windows");
    assert_eq!(os_name(OsType::Linux), "Linux");
    assert_eq!(css_color(CursorColor { r: 1, g: 20, b: 255 }), "rgb(1,20,255)");
    let u = peer_ui(&info(OTHER, "Bob"));
    assert_eq!(u.name, "Bob");
    assert_eq!(u.os, "MacOS");
    assert_eq!(u.color, "rgb(168,85,247)");
    assert_eq!(u.peer_id, "abcdef01");
}

#[test]
fn announce_lists_and_answers_once() {
    let mut s = FlowSession::new(info(ME, "me"));
    assert_eq!(s.peer_direction, "right");
    let acts = s.on_message(FlowMessage::Announce(info(OTHER, "Bob")));
    assert_eq!(acts.len(), 2);
    assert!(matches!(&acts[0], SessionAction::PeerJoined(u) if u.name == "Bob" && u.peer_id == "abcdef01"));
    assert!(matches!(acts[1], SessionAction::AnnounceSelf));
    let again = s.on_message(FlowMessage::Announce(info(OTHER, "Bob")));
    assert!(again.is_empty());
    assert_eq!(s.connected_peers.len(), 1);
    assert_eq!(s.announced_to.len(), 1);
    assert!(s.announced_to.contains(&OTHER));
    assert!(s.on_message(FlowMessage::Announce(info(ME, "me"))).is_empty());
}

#[test]
fn discovered_peers_are_listed_unconditionally() {
    let mut s = FlowSession::new(info(ME, "me"));
    let u = s.add_discovered(&info(OTHER, "Bob"));
    assert_eq!(u.peer_id, "abcdef01");
    s.add_discovered(&info(OTHER, "Bob"));
    assert_eq!(s.connected_peers.len(), 2);
}

#[test]
fn own_messages_are_ignored() {
    let mut s = FlowSession::new(info(ME, "me"));
    let msgs = vec![
        FlowMessage::ClipboardData { peer_id: PeerId(ME), content_type: ClipboardContentType::PlainText, data: b"x".to_vec() },
        FlowMessage::CursorReturn { peer_id: PeerId(ME) },
        FlowMessage::DirectionSet { peer_id: PeerId(ME), direction: "left".into() },
        FlowMessage::FileOffer { transfer_id: 1, from_peer: PeerId(ME), file_name: "f".into(), file_size: 3 },
        FlowMessage::Goodbye(PeerId(OTHER)),
    ];
    for m in msgs {
        assert!(s.on_message(m).is_empty());
    }
    assert_eq!(s.peer_direction, "right");
}

#[test]
fn clipboard_cursor_direction_and_file_messages() {
    let mut s = FlowSession::new(info(ME, "me"));
    let acts = s.on_message(FlowMessage::ClipboardData {
        peer_id: PeerId(OTHER),
        content_type: ClipboardContentType::PlainText,
        data: "héllo".as_bytes().to_vec(),
    });
    assert!(matches!(&acts[..], [SessionAction::ClipboardReceived(t)] if t == "héllo"));
    let bad = s.on_message(FlowMessage::ClipboardData {
        peer_id: PeerId(OTHER),
        content_type: ClipboardContentType::PlainText,
        data: vec![0xff, 0xfe],
    });
    assert!(bad.is_empty());
    let pos = CursorPosition { x_bits: 10.0f64.to_bits(), y_bits: 20.0f64.to_bits() };
    let acts = s.on_message(FlowMessage::CursorMove {
        peer_id: PeerId(OTHER),
        name: "Bob".into(),
        color: CursorColor::green(),
        monitor_id: 0,
        position: pos,
        visible: true,
    });
    assert!(matches!(&acts[..], [SessionAction::ShowOverlay { position, name, .. }] if *position == pos && name == "Bob"));
    let acts = s.on_message(FlowMessage::CursorMove {
        peer_id: PeerId(OTHER),
        name: "Bob".into(),
        color: CursorColor::green(),
        monitor_id: 0,
        position: pos,
        visible: false,
    });
    assert!(matches!(&acts[..], [SessionAction::HideOverlay]));
    let acts = s.on_message(FlowMessage::CursorReturn { peer_id: PeerId(OTHER) });
    assert!(matches!(&acts[..], [SessionAction::HideOverlay]));
    let acts = s.on_message(FlowMessage::DirectionSet { peer_id: PeerId(OTHER), direction: "above".into() });
    assert!(matches!(&acts[..], [SessionAction::DirectionChanged(d)] if d == "below"));
    assert_eq!(s.peer_direction, "below");
    let acts = s.on_message(FlowMessage::FileOffer { transfer_id: 9, from_peer: PeerId(OTHER), file_name: "a.txt".into(), file_size: 5 });
    assert!(matches!(&acts[..], [SessionAction::ReceiveFile { transfer_id: 9, file_name, file_size: 5 }] if file_name == "a.txt"));
    let acts = s.on_message(FlowMessage::FileChunk { transfer_id: 9, offset: 0, data: vec![1, 2], is_last: false });
    assert!(matches!(&acts[..], [SessionAction::WriteChunk { transfer_id: 9, offset: 0, data, is_last: false }] if data == &vec![1, 2]));
    let acts = s.on_message(FlowMessage::FileComplete { transfer_id: 9, file_name: "a.txt".into() });
    assert!(matches!(&acts[..], [SessionAction::FileComplete(n)] if n == "a.txt"));
}

#[test]
fn set_direction_produces_message() {
    let mut s = FlowSession::new(info(ME, "me"));
    match s.set_direction("left".into()) {
        FlowMessage::DirectionSet { peer_id, direction } => {
            assert_eq!(peer_id, PeerId(ME));
            assert_eq!(direction, "left");
        }
        other => panic!("unexpected {other:?}"),
    }
    assert_eq!(s.peer_direction, "left");
}

#[test]
fn clipboard_changes_are_sent_once_and_not_echoed() {
    let mut c = ClipboardSync::new();
    assert_eq!(c.observe_local(String::new()), None);
    assert_eq!(c.observe_local("one".into()), Some("one".to_string()));
    assert_eq!(c.observe_local("one".into()), None);
    c.apply_remote("two");
    assert_eq!(c.last_content, "two");
    assert_eq!(c.observe_local("two".into()), None);
    assert_eq!(c.observe_local("three".into()), Some("three".to_string()));
}

#[test]
fn clipboard_text_travels_as_utf8() {
    let b = text_bytes("añb€");
    assert_eq!(b, "añb€".as_bytes());
    assert_eq!(bytes_text(b), Some("añb€".to_string()));
    assert_eq!(bytes_text(vec![0xc3]), None);
}

#[test]
fn outgoing_chunks_are_contiguous() {
    let mut t = OutgoingTransfer::new(PeerId(ME), "f.bin".into(), 10);
    assert_eq!(uuid::Uuid::from_u128(t.transfer_id).get_version_num(), 4);
    match t.offer() {
        FlowMessage::FileOffer { transfer_id, from_peer, file_name, file_size } => {
            assert_eq!(transfer_id, t.transfer_id);
            assert_eq!(from_peer, PeerId(ME));
            assert_eq!(file_name, "f.bin");
            assert_eq!(file_size, 10);
        }
        other => panic!("unexpected {other:?}"),
    }
    let m1 = t.next_chunk(vec![0; 4]).unwrap();
    assert!(matches!(m1, FlowMessage::FileChunk { offset: 0, is_last: false, .. }));
    let m2 = t.next_chunk(vec![0; 6]).unwrap();
    assert!(matches!(m2, FlowMessage::FileChunk { offset: 4, is_last: true, .. }));
    assert!(t.next_chunk(Vec::new()).is_none());
    assert_eq!(t.offset, 10);
    assert!(matches!(t.complete(), FlowMessage::FileComplete { ref file_name, .. } if file_name == "f.bin"));
    assert_eq!(CHUNK_SIZE, 65536);
}

#[test]
fn received_chunks_are_counted_until_the_last() {
    let mut r = ReceiveTable::new();
    assert!(!r.is_active(5));
    assert_eq!(r.bytes_received(5), None);
    assert_eq!(r.finish(5), None);
    r.handle_offer(5, "a.txt".into(), 100);
    r.handle_offer(6, "b.txt".into(), 7);
    assert!(r.is_active(5));
    assert_eq!(r.on_chunk(5, 60, false), None);
    assert_eq!(r.bytes_received(5), Some(60));
    r.record_chunk(6, 7);
    assert_eq!(r.on_chunk(5, 40, true), Some(("a.txt".to_string(), 100)));
    assert!(!r.is_active(5));
    assert!(r.is_active(6));
    assert_eq!(r.bytes_received(6), Some(7));
    r.handle_offer(6, "c.txt".into(), 1);
    assert_eq!(r.active_receives.len(), 1);
    assert_eq!(r.bytes_received(6), Some(0));
    assert_eq!(r.finish(6), Some(("c.txt".to_string(), 0)));
    assert!(r.active_receives.is_empty());
}

#[test]
fn each_peer_is_answered_once_over_a_run() {
    const THIRD: u128 = 0x0000aaaa_2222_4333_8444_555555555555;
    let mut s = FlowSession::new(info(ME, "me"));
    let run = [OTHER, THIRD, OTHER, ME, THIRD, OTHER, THIRD];
    let mut answers = Vec::new();
    for pid in run {
        let acts = s.on_message(FlowMessage::Announce(info(pid, "p")));
        answers.push(acts.iter().filter(|a| matches!(a, SessionAction::AnnounceSelf)).count());
    }
    assert_eq!(answers, vec![1, 1, 0, 0, 0, 0, 0]);
    assert_eq!(s.announced_to.len(), 2);
    assert!(s.announced_to.contains(&OTHER) && s.announced_to.contains(&THIRD));
    assert!(!s.announced_to.contains(&ME));
    assert_eq!(s.connected_peers.len(), 2);
}

#[test]
fn a_full_transfer_reports_its_total_once() {
    let mut r = ReceiveTable::new();
    r.handle_offer(9, "big.bin".into(), 10);
    let lens = [4u64, 0, 3, 2];
    for &len in &lens {
        assert_eq!(r.on_chunk(9, len, false), None);
    }
    assert_eq!(r.on_chunk(9, 1, true), Some(("big.bin".to_string(), 10)));
    assert!(!r.is_active(9));
    assert_eq!(r.bytes_received(9), None);
}
