use devloop::ctx::{fd_to_index, userdata_to_idx, Ctx, Route, HOTPLUG_TAG};
use devloop::ctx_builder::{retry_registration, ring_capacity};
use devloop::err::Error;
use devloop::ev::{Completion, DeviceEvent, IoEvent, IoEventOk};
use devloop::listener::Listener;
use devloop::raw_device::{hotplug_frame, Hotplug};

fn completion(user_data: u64, result: i32, flags: u32) -> Completion {
    Completion { user_data, result, flags }
}

#[test]
fn hotplug_add_then_remove() {
    let mut ctx: Ctx<String> = Ctx::new();
    let add: &[u8] = b"ACTION=add\0DEVPATH=/class/x\0SUBSYSTEM=usb\0SEQNUM=1\0";
    let route = ctx.route(completion(HOTPLUG_TAG, add.len() as i32, 1));
    assert!(matches!(route, Route::Frame { buffer_id: 0, len } if len == add.len()));
    let dev = match hotplug_frame(add) {
        Hotplug::Lookup(dev) => dev,
        _ => panic!("an add frame with a path leads to a lookup"),
    };
    assert_eq!(dev.syspath(), b"/sys/class/x".to_vec());
    match dev.resolve(Some(String::from("x"))) {
        DeviceEvent::Added(found) => assert_eq!(found, "x"),
        DeviceEvent::Removed(_) => panic!("a found device is added"),
    }

    let remove: &[u8] = b"ACTION=remove\0DEVPATH=/class/x\0SEQNUM=2\0";
    let route = ctx.route(completion(HOTPLUG_TAG, remove.len() as i32, 1));
    assert!(matches!(route, Route::Frame { buffer_id: 0, .. }));
    match hotplug_frame(remove) {
        Hotplug::Removed(dev) => {
            assert_eq!(dev.devpath.as_bytes(), b"/class/x");
            assert_eq!(dev.seqnum, Some(2));
        },
        _ => panic!("a remove frame with a path is reported as removed"),
    }
}

#[test]
fn lookup_failure_reports_removal() {
    let add: &[u8] = b"ACTION=add\0DEVPATH=/class/gone\0";
    let dev = match hotplug_frame(add) {
        Hotplug::Lookup(dev) => dev,
        _ => panic!("an add frame with a path leads to a lookup"),
    };
    match dev.resolve(None::<String>) {
        DeviceEvent::Removed(d) => assert_eq!(d.devpath.as_bytes(), b"/class/gone"),
        DeviceEvent::Added(_) => panic!("a device that is not found is not added"),
    }
}

#[test]
fn unknown_action_yields_nothing() {
    let frame: &[u8] = b"ACTION=change\0DEVPATH=/class/x\0";
    assert!(matches!(hotplug_frame(frame), Hotplug::Ignored));
}

#[test]
fn io_completion_event() {
    let mut ctx: Ctx<String> = Ctx::new();
    assert!(matches!(ctx.add_process(7, String::from("seven")), Ok(None)));
    match ctx.route(completion(7, 128, 0)) {
        Route::Io(ev) => {
            assert_eq!(ev.userdata, 7);
            assert_eq!(ev.result, Ok(IoEventOk { flags: 0, result: 128 }));
            assert_eq!(ev.dev.as_str(), "seven");
            ev.dev.push('!');
        },
        _ => panic!("a tag that names a registered resource gives an I/O event"),
    }
    assert_eq!(ctx.get_process(&7).map(|s| s.as_str()), Some("seven!"));
}

#[test]
fn io_completion_error_outcome() {
    let mut ctx: Ctx<u8> = Ctx::new();
    ctx.add_process(3, 1).unwrap();
    match ctx.route(completion(3, -62, 0)) {
        Route::Io(ev) => {
            assert_eq!(ev.result, Err(-62));
            assert!(ev.errored());
            assert!(ev.errored_gracefully());
        },
        _ => panic!("expected an I/O event"),
    }
}

#[test]
fn stale_completion_yields_nothing() {
    let mut ctx: Ctx<String> = Ctx::new();
    assert!(matches!(ctx.route(completion(99, 5, 0)), Route::Skip));
    ctx.add_process(7, String::from("seven")).unwrap();
    assert!(matches!(ctx.route(completion(99, 5, 0)), Route::Skip));
    // a tag above 32 bits never names a resource, even when its low bits do
    assert!(matches!(ctx.route(completion((1u64 << 32) + 7, 5, 0)), Route::Skip));
    assert_eq!(ctx.get_process(&7).map(|s| s.as_str()), Some("seven"));
    assert!(ctx.get_process(&99).is_none());
}

#[test]
fn receive_failure_rearms() {
    let mut ctx: Ctx<String> = Ctx::new();
    assert!(matches!(ctx.route(completion(HOTPLUG_TAG, -4, 0)), Route::Rearm));
    assert!(matches!(ctx.route(completion(HOTPLUG_TAG, 0, 0)), Route::Rearm));
    assert_eq!(HOTPLUG_TAG, u64::MAX);
}

#[test]
fn hotplug_buffer_id_from_flags() {
    let mut ctx: Ctx<String> = Ctx::new();
    let flags: u32 = (5 << 16) | 1;
    assert!(matches!(ctx.route(completion(HOTPLUG_TAG, 40, flags)),
        Route::Frame { buffer_id: 5, len: 40 }));
    // without the buffer flag no buffer was used
    assert!(matches!(ctx.route(completion(HOTPLUG_TAG, 40, 5 << 16)), Route::Skip));
}

#[test]
fn add_device_twice_keeps_first() {
    let mut ctx: Ctx<String> = Ctx::new();
    let first = ctx.add_device(b"/devices/a", 4, String::from("first"));
    assert!(matches!(first, Ok(None)));
    let second = ctx.add_device(b"/devices/a", 5, String::from("second"));
    assert!(matches!(second, Ok(Some(ref s)) if s == "second"));
    assert_eq!(ctx.get_process(&4).map(|s| s.as_str()), Some("first"));
    assert!(ctx.get_process(&5).is_none());
}

#[test]
fn device_and_process_maps_agree() {
    let mut ctx: Ctx<String> = Ctx::new();
    ctx.add_device(b"/devices/a", 4, String::from("a")).unwrap();
    ctx.add_device(b"/devices/b", 6, String::from("b")).unwrap();
    assert!(ctx.get_process(&4).is_some());
    assert!(ctx.get_process(&6).is_some());
    let removed = ctx.remove_device_with_id(b"/devices/a").unwrap();
    assert_eq!(removed.as_deref(), Some("a"));
    assert!(ctx.get_process(&4).is_none());
    assert!(ctx.get_process(&6).is_some());
    assert!(matches!(ctx.remove_device_with_id(b"/devices/a"), Ok(None)));
    ctx.add_device(b"/devices/a", 8, String::from("a2")).unwrap();
    assert_eq!(ctx.get_process(&8).map(|s| s.as_str()), Some("a2"));
    assert_eq!(ctx.remove_device_with_id(b"/devices/b").unwrap().as_deref(), Some("b"));
    assert!(ctx.get_process(&6).is_none());
}

#[test]
fn negative_descriptor_is_rejected() {
    let mut ctx: Ctx<String> = Ctx::new();
    assert!(matches!(ctx.add_process(-9, String::from("x")), Err(Error::Os(_))));
    assert!(matches!(ctx.add_device(b"/devices/a", -1, String::from("x")), Err(Error::Os(_))));
    // the failed addition leaves no device behind
    assert!(matches!(ctx.remove_device_with_id(b"/devices/a"), Ok(None)));
    assert!(matches!(ctx.remove_process(-2), Err(_)));
    match fd_to_index(-9) {
        Err(Error::Os(e)) => assert_eq!(e.raw_os_error(), Some(9)),
        _ => panic!("a negative descriptor is an OS error"),
    }
    assert_eq!(fd_to_index(12).unwrap(), 12);
}

#[test]
fn add_process_displaces() {
    let mut ctx: Ctx<u32> = Ctx::new();
    assert!(matches!(ctx.add_process(2, 20), Ok(None)));
    assert!(matches!(ctx.add_process(2, 21), Ok(Some(20))));
    assert!(matches!(ctx.remove_process(2), Ok(Some(21))));
    assert!(matches!(ctx.remove_process(2), Ok(None)));
}

#[test]
fn process_borrowed_mutably() {
    let mut ctx: Ctx<u32> = Ctx::new();
    ctx.add_process(2, 20).unwrap();
    if let Some(v) = ctx.get_process_mut(&2) {
        *v += 1;
    }
    assert_eq!(ctx.get_process(&2), Some(&21));
    assert!(ctx.get_process_mut(&3).is_none());
}

#[test]
fn graceful_errors() {
    let mut value = 0u8;
    for (code, graceful) in [(-4, true), (-62, true), (-105, true), (-5, false), (-11, false)] {
        let ev = IoEvent { dev: &mut value, userdata: 1, result: Err(code) };
        assert!(ev.errored());
        assert_eq!(ev.errored_gracefully(), graceful);
    }
    let ev = IoEvent { dev: &mut value, userdata: 1, result: Ok(IoEventOk { flags: 0, result: 0 }) };
    assert!(!ev.errored());
    assert!(!ev.errored_gracefully());
}

#[test]
fn from_cqueue_outcome() {
    let mut value = 0u8;
    let ev = IoEvent::from_cqueue(&mut value, completion(3, 0, 7));
    assert_eq!(ev.result, Ok(IoEventOk { flags: 7, result: 0 }));
    assert_eq!(ev.userdata, 3);
    let ev = IoEvent::from_cqueue(&mut value, completion(3, -1, 7));
    assert_eq!(ev.result, Err(-1));
}

#[test]
fn tag_low_bits() {
    assert_eq!(userdata_to_idx(7), 7);
    assert_eq!(userdata_to_idx((1u64 << 32) + 7), 7);
    assert_eq!(userdata_to_idx(u64::MAX), u32::MAX);
}

#[test]
fn ring_capacity_rounds_up() {
    assert_eq!(ring_capacity(0), Some(1));
    assert_eq!(ring_capacity(1), Some(1));
    assert_eq!(ring_capacity(3), Some(4));
    assert_eq!(ring_capacity(256), Some(256));
    assert_eq!(ring_capacity(257), Some(512));
    assert_eq!(ring_capacity(0x8000_0000), Some(0x8000_0000));
    assert_eq!(ring_capacity(0x8000_0001), None);
}

#[test]
fn registration_retry_takes_next_group() {
    let mut id: u16 = 3;
    assert!(retry_registration(true, &mut id));
    assert_eq!(id, 4);
    assert!(!retry_registration(false, &mut id));
    assert_eq!(id, 4);
    let mut last: u16 = u16::MAX;
    assert!(retry_registration(true, &mut last));
    assert_eq!(last, 0);
}

#[test]
fn error_messages() {
    let e = Error::from_errno(-2);
    assert!(matches!(e, Error::Os(ref io) if io.raw_os_error() == Some(2)));
    assert!(!e.message().is_empty());
    let io: Error = Error::from(std::io::Error::from_raw_os_error(11));
    assert!(matches!(io, Error::Os(ref e) if e.raw_os_error() == Some(11)));
}

#[test]
fn listener_rearm_cycle() {
    let mut l = Listener::Armed;
    assert!(l.receive_failed());
    assert_eq!(l, Listener::Draining);
    l.rearmed(true);
    assert_eq!(l, Listener::Armed);
    assert!(l.receive_failed());
    l.rearmed(false);
    assert_eq!(l, Listener::Broken);
    assert!(l.is_broken());
    assert!(!l.receive_failed());
    l.rearmed(true);
    assert_eq!(l, Listener::Broken);
}
