use devloop::decimal::parse_decimal_u64;
use devloop::raw_device::{hotplug_frame, Action, Hotplug, RawDev};
use devloop::rstr::RStr;
use devloop::words::find_action_key;

fn text(r: Option<RStr<'_>>) -> Option<Vec<u8>> {
    r.map(|s| s.as_bytes().to_vec())
}

#[test]
fn full_frame_round_trip() {
    let frame = b"ACTION=add\0DEVPATH=/devices/pci0000:00/usb1\0SUBSYSTEM=usb\0DEVNAME=bus/usb/001/002\0DEVTYPE=usb_device\0BUSNUM=001\0DEVNUM=189\0DRIVER=usb\0SEQNUM=4711\0";
    let raw = RawDev::from_bytes(frame).expect("frame parses");
    assert_eq!(raw.action, Some(Action::Add));
    assert_eq!(text(raw.devpath), Some(b"/devices/pci0000:00/usb1".to_vec()));
    assert_eq!(text(raw.subsystem), Some(b"usb".to_vec()));
    assert_eq!(text(raw.devname), Some(b"bus/usb/001/002".to_vec()));
    assert_eq!(text(raw.devtype), Some(b"usb_device".to_vec()));
    assert_eq!(text(raw.bus_num), Some(b"001".to_vec()));
    assert_eq!(raw.devnum, Some(189));
    assert_eq!(text(raw.driver), Some(b"usb".to_vec()));
    assert_eq!(raw.seqnum, Some(4711));
}

#[test]
fn leading_garbage_is_skipped() {
    let frame: &[u8] = b"ACTION=remove\0DEVPATH=/class/x\0SEQNUM=2\0";
    let mut with_header: Vec<u8> = vec![0xfe, 0xed, 0xca, 0xfe, 0xff, 0x00, 0x80, 0x41, 0x43];
    with_header.extend_from_slice(frame);
    let a = RawDev::from_bytes(frame).unwrap();
    let b = RawDev::from_bytes(&with_header).unwrap();
    assert_eq!(a.action, b.action);
    assert_eq!(text(a.devpath), text(b.devpath));
    assert_eq!(a.seqnum, b.seqnum);
    assert_eq!(b.action, Some(Action::Remove));
    assert_eq!(text(b.devpath), Some(b"/class/x".to_vec()));
    assert_eq!(b.seqnum, Some(2));
}

#[test]
fn frame_without_action_is_rejected() {
    assert!(RawDev::from_bytes(b"").is_none());
    assert!(RawDev::from_bytes(b"DEVPATH=/class/x\0SEQNUM=1\0").is_none());
}

#[test]
fn unknown_verb_is_rejected() {
    assert!(RawDev::from_bytes(b"ACTION=explode\0DEVPATH=/class/x\0").is_none());
}

#[test]
fn bad_numbers_are_rejected() {
    assert!(RawDev::from_bytes(b"ACTION=add\0DEVPATH=/class/x\0SEQNUM=12a\0").is_none());
    assert!(RawDev::from_bytes(b"ACTION=add\0DEVPATH=/class/x\0DEVNUM=-1\0").is_none());
    assert!(RawDev::from_bytes(b"ACTION=add\0DEVPATH=/class/x\0SEQNUM=18446744073709551616\0")
        .is_none());
}

#[test]
fn unknown_keys_and_bare_entries_are_ignored() {
    let raw = RawDev::from_bytes(b"ACTION=bind\0MAJOR=8\0junk\0DEVPATH=/class/y\0").unwrap();
    assert_eq!(raw.action, Some(Action::Bind));
    assert_eq!(text(raw.devpath), Some(b"/class/y".to_vec()));
    assert_eq!(raw.seqnum, None);
    assert!(raw.subsystem.is_none());
}

#[test]
fn value_keeps_later_equals_signs() {
    let raw = RawDev::from_bytes(b"ACTION=add\0DEVPATH=/a=b\0").unwrap();
    assert_eq!(text(raw.devpath), Some(b"/a=b".to_vec()));
}

#[test]
fn last_entry_without_nul_is_read() {
    let raw = RawDev::from_bytes(b"ACTION=add\0DEVPATH=/class/z").unwrap();
    assert_eq!(text(raw.devpath), Some(b"/class/z".to_vec()));
}

#[test]
fn action_verbs() {
    assert_eq!(Action::from_str(b"add"), Some(Action::Add));
    assert_eq!(Action::from_str(b"remove"), Some(Action::Remove));
    assert_eq!(Action::from_str(b"change"), Some(Action::Change));
    assert_eq!(Action::from_str(b"bind"), Some(Action::Bind));
    assert_eq!(Action::from_str(b"unbind"), Some(Action::Unbind));
    assert_eq!(Action::from_str(b"Add"), None);
    assert_eq!(Action::from_str(b""), None);
}

#[test]
fn decimal_numbers() {
    assert_eq!(parse_decimal_u64(b"0"), Some(0));
    assert_eq!(parse_decimal_u64(b"+42"), Some(42));
    assert_eq!(parse_decimal_u64(b"18446744073709551615"), Some(u64::MAX));
    assert_eq!(parse_decimal_u64(b"18446744073709551616"), None);
    assert_eq!(parse_decimal_u64(b""), None);
    assert_eq!(parse_decimal_u64(b"+"), None);
    assert_eq!(parse_decimal_u64(b"-1"), None);
    assert_eq!(parse_decimal_u64(b" 1"), None);
}

#[test]
fn action_key_position() {
    assert_eq!(find_action_key(b"xxACTION=add"), Some(2));
    assert_eq!(find_action_key(b"ACTIO"), None);
    assert_eq!(find_action_key(b"ACTACTION"), Some(3));
}

#[test]
fn rstr_views() {
    let bytes: &[u8] = b"/class/x";
    let r = RStr::new(bytes);
    assert_eq!(r.as_bytes(), bytes);
    assert_eq!(r.as_str(), Some("/class/x"));
    let bad: &[u8] = &[0x2f, 0xff, 0xfe];
    assert_eq!(RStr::new(bad).as_str(), None);
}

#[test]
fn change_bind_unbind_frames_are_ignored() {
    for verb in ["change", "bind", "unbind"] {
        let frame = format!("ACTION={verb}\0DEVPATH=/class/x\0");
        assert!(matches!(hotplug_frame(frame.as_bytes()), Hotplug::Ignored));
    }
}

#[test]
fn frame_without_path_is_ignored() {
    assert!(matches!(hotplug_frame(b"ACTION=add\0SEQNUM=1\0"), Hotplug::Ignored));
    assert!(matches!(hotplug_frame(b"ACTION=remove\0"), Hotplug::Ignored));
}

#[test]
fn malformed_frames_are_ignored() {
    assert!(matches!(hotplug_frame(b""), Hotplug::Ignored));
    assert!(matches!(hotplug_frame(b"\xff\xfe\x00garbage"), Hotplug::Ignored));
}
