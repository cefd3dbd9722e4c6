use flow::framing::{frame_header, frame_length, FrameLength, MAX_FRAME_LEN};
use flow::scan::{host_address, scan_plan};
use flow::text::{parse_u8, str_contains, str_eq, u8_to_text};

#[test]
fn decimal_bytes_are_written_without_leading_zeros() {
    assert_eq!(u8_to_text(0), "0");
    assert_eq!(u8_to_text(7), "7");
    assert_eq!(u8_to_text(42), "42");
    assert_eq!(u8_to_text(100), "100");
    assert_eq!(u8_to_text(255), "255");
    for v in 0..=255u8 {
        assert_eq!(u8_to_text(v), v.to_string());
    }
}

#[test]
fn bytes_parse_as_std_parses_them() {
    for s in ["0", "255", "256", "+7", "+", "-1", "", "007", "12a", " 1", "1000", "99999999999"] {
        assert_eq!(parse_u8(s), s.parse::<u8>().ok(), "input {s:?}");
    }
    for v in 0..=255u8 {
        assert_eq!(parse_u8(&u8_to_text(v)), Some(v));
    }
}

#[test]
fn text_equality_and_containment() {
    assert!(str_eq("right", "right"));
    assert!(!str_eq("right", "righ"));
    assert!(!str_eq("left", "lefT"));
    assert!(str_contains("flow-1a2b3c4d._flow._tcp.local.", "1a2b3c4d"));
    assert!(!str_contains("flow-1a2b3c4d._flow._tcp.local.", "1a2b3c4e"));
    assert!(str_contains("abc", ""));
    assert!(!str_contains("ab", "abc"));
    assert!(str_contains("ünïcode", "nïc"));
}

#[test]
fn frame_header_is_big_endian_length() {
    assert_eq!(frame_header(0), [0, 0, 0, 0]);
    assert_eq!(frame_header(258), [0, 0, 1, 2]);
    assert_eq!(frame_header(0x0102_0304), [1, 2, 3, 4]);
    assert_eq!(frame_header(1234), (1234u32).to_be_bytes());
}

#[test]
fn frame_length_reads_back_and_refuses_large_frames() {
    assert_eq!(frame_length(frame_header(0)), FrameLength::Body(0));
    assert_eq!(frame_length(frame_header(99)), FrameLength::Body(99));
    let max = MAX_FRAME_LEN as usize;
    assert_eq!(max, 10 * 1024 * 1024);
    assert_eq!(frame_length(frame_header(max)), FrameLength::Body(max));
    assert_eq!(frame_length(frame_header(max + 1)), FrameLength::TooLarge(MAX_FRAME_LEN + 1));
    assert_eq!(frame_length([0xff, 0xff, 0xff, 0xff]), FrameLength::TooLarge(u32::MAX));
}

#[test]
fn scan_plan_for_a_local_address() {
    let plan = scan_plan("192.168.1.37").expect("plan");
    assert_eq!(plan.subnet, "192.168.1");
    assert_eq!(plan.own_host, 37);
    assert_eq!(plan.hosts.len(), 253);
    assert!(!plan.hosts.contains(&37));
    assert_eq!(plan.hosts[0], 1);
    assert_eq!(*plan.hosts.last().unwrap(), 254);
    assert_eq!(host_address(&plan.subnet, 5), "192.168.1.5");
}

#[test]
fn scan_plan_edge_cases() {
    assert!(scan_plan("unknown").is_none());
    assert!(scan_plan("10.0.0").is_none());
    assert!(scan_plan("10.0.0.1.2").is_none());
    let odd = scan_plan("10.0.0.x").expect("four parts");
    assert_eq!(odd.own_host, 0);
    assert_eq!(odd.hosts.len(), 254);
    let dots = scan_plan("...").expect("four empty parts");
    assert_eq!(dots.subnet, "..");
}
