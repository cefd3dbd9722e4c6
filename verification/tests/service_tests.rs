use flow::discovery::{
    instance_name, peer_from_service, service_host, service_properties, DiscoveryEvent, DiscoveryState,
    PeerDirectory, ServiceProperties, SERVICE_PORT, SERVICE_TYPE,
};
use flow::ids::id_text;
use flow::protocol::{CursorColor, OsType, PeerId, PeerInfo};

const ID_A: u128 = 0x1a2b3c4d_0000_4000_8000_000000000001;
const ID_B: u128 = 0x99887766_0000_4000_8000_000000000002;

fn props_for(id: u128, name: &str, color: CursorColor) -> ServiceProperties {
    let list = service_properties(&PeerId(id), name, "\"Linux\"", color);
    let get = |k: &str| list.iter().find(|(key, _)| key == k).map(|(_, v)| v.clone());
    ServiceProperties {
        peer_id: get("peer_id"),
        name: get("name"),
        color_r: get("color_r"),
        color_g: get("color_g"),
        color_b: get("color_b"),
    }
}

fn info(id: u128) -> PeerInfo {
    PeerInfo { id: PeerId(id), name: "x".into(), color: CursorColor::red(), monitors: vec![], os: OsType::Linux }
}

#[test]
fn service_registration_values() {
    assert_eq!(SERVICE_TYPE, "_flow._tcp.local.");
    assert_eq!(SERVICE_PORT, 19847);
    assert_eq!(instance_name(&PeerId(ID_A)), "flow-1a2b3c4d");
    assert_eq!(service_host("laptop"), "laptop.local.");
}

#[test]
fn advertised_properties() {
    let list = service_properties(&PeerId(ID_A), "Ada", "\"MacOS\"", CursorColor::blue());
    let pairs: Vec<(&str, &str)> = list.iter().map(|(k, v)| (k.as_str(), v.as_str())).collect();
    assert_eq!(
        pairs,
        vec![
            ("peer_id", "1a2b3c4d-0000-4000-8000-000000000001"),
            ("name", "Ada"),
            ("os", "\"MacOS\""),
            ("color_r", "59"),
            ("color_g", "130"),
            ("color_b", "246"),
        ]
    );
}

#[test]
fn advertisement_is_read_back() {
    let props = props_for(ID_A, "Ada", CursorColor::orange());
    let (key, peer) = peer_from_service(&PeerId(ID_B), OsType::Windows, &props).expect("other peer");
    assert_eq!(key, id_text(ID_A));
    assert_eq!(peer.id, PeerId(ID_A));
    assert_eq!(peer.name, "Ada");
    assert_eq!(peer.color, CursorColor::orange());
    assert!(peer.monitors.is_empty());
    assert_eq!(peer.os, OsType::Windows);
}

#[test]
fn own_service_is_ignored() {
    let props = props_for(ID_A, "me", CursorColor::red());
    assert!(peer_from_service(&PeerId(ID_A), OsType::Linux, &props).is_none());
}

#[test]
fn missing_and_bad_properties_get_defaults() {
    let props = ServiceProperties {
        peer_id: Some("not-a-uuid".into()),
        name: None,
        color_r: Some("300".into()),
        color_g: None,
        color_b: Some("+12".into()),
    };
    let (key, peer) = peer_from_service(&PeerId(ID_A), OsType::Linux, &props).expect("peer");
    assert_eq!(key, "not-a-uuid");
    assert_eq!(peer.name, "unknown");
    assert_eq!(peer.color, CursorColor { r: 255, g: 255, b: 12 });
    assert_eq!(uuid::Uuid::from_u128(peer.id.0).get_version_num(), 4);
    let empty = ServiceProperties { peer_id: None, name: None, color_r: None, color_g: None, color_b: None };
    let (key, _) = peer_from_service(&PeerId(ID_A), OsType::Linux, &empty).expect("peer");
    assert_eq!(key, "");
}

#[test]
fn directory_insert_replaces_same_key() {
    let mut d = PeerDirectory::new();
    d.insert("a".into(), info(ID_A));
    d.insert("b".into(), info(ID_B));
    let mut replaced = info(ID_A);
    replaced.name = "renamed".into();
    d.insert("a".into(), replaced);
    assert_eq!(d.entries.len(), 2);
    assert_eq!(d.entries[0].0, "a");
    assert_eq!(d.entries[0].1.name, "renamed");
    assert_eq!(d.entries[1].0, "b");
}

#[test]
fn removed_service_drops_matching_peers() {
    let mut d = PeerDirectory::new();
    d.insert("a".into(), info(ID_A));
    d.insert("b".into(), info(ID_B));
    let lost = d.remove_departed("flow-99887766._flow._tcp.local.");
    assert_eq!(lost, vec!["b".to_string()]);
    assert_eq!(d.entries.len(), 1);
    assert_eq!(d.entries[0].0, "a");
    assert!(d.remove_departed("something-else").is_empty());
    assert_eq!(d.entries.len(), 1);
}

#[test]
fn discovery_state_reports_found_and_lost() {
    let mut s = DiscoveryState::new(PeerId(ID_B), OsType::MacOS);
    match s.on_resolved(&props_for(ID_A, "Ada", CursorColor::green())) {
        Some(DiscoveryEvent::PeerFound(p)) => {
            assert_eq!(p.id, PeerId(ID_A));
            assert_eq!(p.name, "Ada");
        }
        other => panic!("unexpected {other:?}"),
    }
    assert!(s.on_resolved(&props_for(ID_B, "me", CursorColor::green())).is_none());
    assert_eq!(s.peers.entries.len(), 1);
    let evs = s.on_removed("flow-1a2b3c4d._flow._tcp.local.");
    assert_eq!(evs.len(), 1);
    match &evs[0] {
        DiscoveryEvent::PeerLost(k) => assert_eq!(k, &id_text(ID_A)),
        other => panic!("unexpected {other:?}"),
    }
    assert!(s.peers.entries.is_empty());
}
