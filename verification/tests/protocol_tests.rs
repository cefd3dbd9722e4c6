use flow::ids::{id_text, short_id};
use flow::input::{mouse_button_event, MouseButtonEvent};
use flow::monitor::{primary_display, with_fallback, SCALE_ONE_BITS};
use flow::protocol::{CursorColor, GridPosition, MonitorInfo, OsType, PeerId};

#[test]
fn palette_has_six_colours_in_order() {
    let p = CursorColor::palette();
    assert_eq!(p.len(), 6);
    assert_eq!(p[0], CursorColor { r: 239, g: 68, b: 68 });
    assert_eq!(p[1], CursorColor { r: 59, g: 130, b: 246 });
    assert_eq!(p[2], CursorColor { r: 34, g: 197, b: 94 });
    assert_eq!(p[3], CursorColor { r: 168, g: 85, b: 247 });
    assert_eq!(p[4], CursorColor { r: 249, g: 115, b: 22 });
    assert_eq!(p[5], CursorColor { r: 236, g: 72, b: 153 });
}

#[test]
fn pick_wraps_around_the_palette() {
    assert_eq!(CursorColor::pick(0), CursorColor::red());
    assert_eq!(CursorColor::pick(1), CursorColor::blue());
    assert_eq!(CursorColor::pick(5), CursorColor::pink());
    assert_eq!(CursorColor::pick(6), CursorColor::red());
    assert_eq!(CursorColor::pick(13), CursorColor::blue());
    assert_eq!(CursorColor::pick(usize::MAX), CursorColor::palette()[usize::MAX % 6]);
}

#[test]
fn os_from_target_name() {
    assert_eq!(OsType::current("macos"), OsType::MacOS);
    assert_eq!(OsType::current("windows"), OsType::Windows);
    assert_eq!(OsType::current("linux"), OsType::Linux);
    assert_eq!(OsType::current("freebsd"), OsType::Linux);
    assert_eq!(OsType::current(""), OsType::Linux);
    assert_eq!(OsType::current("MacOS"), OsType::Linux);
}

#[test]
fn new_peer_ids_are_random_version_4() {
    let a = PeerId::new();
    let b = PeerId::new();
    assert_ne!(a, b);
    for id in [a, b] {
        assert_eq!((id.0 >> 76) & 0xF, 4);
        assert_eq!((id.0 >> 62) & 0x3, 2);
        let u = uuid::Uuid::from_u128(id.0);
        assert_eq!(u.get_version_num(), 4);
    }
}

#[test]
fn id_text_is_hyphenated_lower_hex() {
    let v: u128 = 0x67e5_5044_10b1_426f_9247_bb68_0e5f_e0c8;
    assert_eq!(id_text(v), "67e55044-10b1-426f-9247-bb680e5fe0c8");
    assert_eq!(short_id(v), "67e55044");
    assert_eq!(id_text(0), "00000000-0000-0000-0000-000000000000");
}

#[test]
fn mouse_buttons_map_to_events_and_flags() {
    assert_eq!(mouse_button_event(0, true), Some(MouseButtonEvent::LeftDown));
    assert_eq!(mouse_button_event(0, false), Some(MouseButtonEvent::LeftUp));
    assert_eq!(mouse_button_event(1, true), Some(MouseButtonEvent::RightDown));
    assert_eq!(mouse_button_event(1, false), Some(MouseButtonEvent::RightUp));
    assert_eq!(mouse_button_event(2, true), Some(MouseButtonEvent::MiddleDown));
    assert_eq!(mouse_button_event(2, false), Some(MouseButtonEvent::MiddleUp));
    assert_eq!(mouse_button_event(3, true), None);
    assert_eq!(MouseButtonEvent::LeftDown.windows_flags(), 0x0002);
    assert_eq!(MouseButtonEvent::LeftUp.windows_flags(), 0x0004);
    assert_eq!(MouseButtonEvent::RightDown.windows_flags(), 0x0008);
    assert_eq!(MouseButtonEvent::RightUp.windows_flags(), 0x0010);
    assert_eq!(MouseButtonEvent::MiddleDown.windows_flags(), 0x0020);
    assert_eq!(MouseButtonEvent::MiddleUp.windows_flags(), 0x0040);
}

#[test]
fn primary_display_is_full_hd_at_origin() {
    let m = primary_display();
    assert_eq!(m.monitor_id, 0);
    assert_eq!(m.name, "Primary Display");
    assert_eq!((m.width, m.height), (1920, 1080));
    assert_eq!(f64::from_bits(m.scale_factor_bits), 1.0);
    assert_eq!(SCALE_ONE_BITS, 1.0f64.to_bits());
    assert_eq!(m.position, GridPosition { x: 0, y: 0 });
}

#[test]
fn fallback_applies_only_without_monitors() {
    let none = with_fallback(Vec::new());
    assert_eq!(none.len(), 1);
    assert_eq!(none[0].name, "Primary Display");
    let one = MonitorInfo {
        monitor_id: 7,
        name: "Side".to_string(),
        width: 1280,
        height: 1024,
        scale_factor_bits: 2.0f64.to_bits(),
        position: GridPosition { x: -1280, y: 0 },
    };
    let some = with_fallback(vec![one]);
    assert_eq!(some.len(), 1);
    assert_eq!(some[0].monitor_id, 7);
    assert_eq!(some[0].name, "Side");
}
