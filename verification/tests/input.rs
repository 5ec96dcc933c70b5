use fbdraw::find_touchscreen;
use fbdraw::input::device::{
    decode_events, i32_from_le, InputDevice, InputError, InputEvent, ReadInputStream,
};
use fbdraw::input::touchscreen::Touchscreen;

fn raw_event(kind: u8, code: u8, value: i32) -> Vec<u8> {
    let mut raw = vec![0xEEu8; 16];
    raw[8] = kind;
    raw[9] = 0;
    raw[10] = code;
    raw[11] = 0;
    raw[12..16].copy_from_slice(&value.to_le_bytes());
    raw
}

#[test]
fn little_endian_values() {
    assert_eq!(i32_from_le(1, 0, 0, 0), 1);
    assert_eq!(i32_from_le(0x78, 0x56, 0x34, 0x12), 0x12345678);
    assert_eq!(i32_from_le(0xFF, 0xFF, 0xFF, 0xFF), -1);
    assert_eq!(i32_from_le(0, 0, 0, 0x80), i32::MIN);
    assert_eq!(i32_from_le(0xFF, 0xFF, 0xFF, 0x7F), i32::MAX);
}

#[test]
fn decode_reads_type_code_and_value() {
    let mut raw = raw_event(3, 0, 417);
    raw.extend(raw_event(0, 0, 0));
    raw.extend(raw_event(3, 57, -5));
    let events = decode_events(&raw).unwrap();
    assert_eq!(
        events,
        vec![
            InputEvent { kind: 3, code: 0, value: 417 },
            InputEvent { kind: 0, code: 0, value: 0 },
            InputEvent { kind: 3, code: 57, value: -5 },
        ]
    );
}

#[test]
fn decode_refuses_part_of_an_event() {
    let raw = vec![0u8; 17];
    assert_eq!(decode_events(&raw), Err(InputError::Truncated));
    assert_eq!(decode_events(&raw[..15]), Err(InputError::Truncated));
    assert_eq!(decode_events(&raw[..0]), Ok(vec![]));
}

#[test]
fn touchscreen_collects_points_most_recent_first() {
    let mut screen = Touchscreen::default();
    let events = vec![
        InputEvent { kind: 3, code: 53, value: 1 },
        InputEvent { kind: 3, code: 0, value: 10 },
        InputEvent { kind: 0, code: 0, value: 0 },
        InputEvent { kind: 3, code: 1, value: 20 },
        InputEvent { kind: 0, code: 0, value: 0 },
        InputEvent { kind: 3, code: 0, value: 11 },
        InputEvent { kind: 3, code: 1, value: 21 },
        InputEvent { kind: 0, code: 7, value: 0 },
        InputEvent { kind: 1, code: 0, value: 99 },
    ];
    assert_eq!(screen.read_events(&events), Ok(true));
    assert!(!screen.touches_ended());
    assert_eq!(screen.trail(), vec![(11, 21), (10, 20)]);
    assert_eq!(screen.trail(), vec![]);
}

#[test]
fn touchscreen_notices_the_end_of_a_touch() {
    let mut screen = Touchscreen::default();
    assert!(!screen.touches_ended());
    assert_eq!(screen.read_events(&vec![InputEvent { kind: 3, code: 57, value: 0 }]), Ok(true));
    assert!(screen.touches_ended());
    assert_eq!(screen.get_tap(), None);
    assert_eq!(screen.read_events(&vec![InputEvent { kind: 3, code: 53, value: 0 }]), Ok(true));
    assert!(!screen.touches_ended());
    assert_eq!(screen.get_tap(), None);
}

#[test]
fn touchscreen_keeps_a_coordinate_until_its_pair_comes() {
    let mut screen = Touchscreen::default();
    assert_eq!(screen.read_events(&vec![InputEvent { kind: 3, code: 0, value: 5 }]), Ok(true));
    assert_eq!(screen.read_events(&vec![InputEvent { kind: 0, code: 0, value: 0 }]), Ok(true));
    assert_eq!(screen.trail(), vec![]);
    let rest = vec![
        InputEvent { kind: 3, code: 1, value: 6 },
        InputEvent { kind: 0, code: 0, value: 0 },
        InputEvent { kind: 0, code: 0, value: 0 },
    ];
    assert_eq!(screen.read_events(&rest), Ok(true));
    assert_eq!(screen.trail(), vec![(5, 6)]);
}

#[test]
fn poll_decodes_and_feeds_the_device() {
    let mut device = InputDevice::new(Touchscreen::default());
    assert_eq!(device.poll(&[]), Ok(false));
    assert_eq!(device.poll(&[0u8; 5]), Err(InputError::Truncated));
    let mut raw = raw_event(3, 0, 300);
    raw.extend(raw_event(3, 1, 200));
    raw.extend(raw_event(0, 0, 0));
    assert_eq!(device.poll(&raw), Ok(true));
    assert_eq!(device.device.trail(), vec![(300, 200)]);
}

#[test]
fn touchscreen_is_the_fourth_event_device() {
    assert_eq!(find_touchscreen(), Some(String::from("/dev/input/event3")));
}
