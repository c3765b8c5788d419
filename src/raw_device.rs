//! The parser for kernel hot-plug frames.
//!
//! A frame starts with a binary header, then holds `KEY=VALUE` entries, each
//! ended by a NUL byte. Parsing starts at the first `ACTION` in the frame.
use vstd::prelude::*;
use crate::decimal::{decimal_u64, parse_decimal_u64};
use crate::ev::{DeviceEvent, DeviceEventView};
use crate::rstr::RStr;
use crate::words::{
    action_key_at, bytes_eq, field_from_key, field_of, find_action_key, first_action_key,
    sys_prefix, verb_add, verb_bind, verb_change, verb_remove, verb_unbind, Field, EQUALS, NUL,
};

verus! {

/// What a hot-plug frame reports about a device.
#[derive(Debug, PartialEq, Eq, Clone, Copy, Structural)]
pub enum Action {
    Add,
    Remove,
    Change,
    Bind,
    Unbind,
}

pub open spec fn action_of(v: Seq<u8>) -> Option<Action> {
    if v == verb_remove() {
        Some(Action::Remove)
    } else if v == verb_add() {
        Some(Action::Add)
    } else if v == verb_change() {
        Some(Action::Change)
    } else if v == verb_bind() {
        Some(Action::Bind)
    } else if v == verb_unbind() {
        Some(Action::Unbind)
    } else {
        None
    }
}

impl Action {
    /// The action that a verb of a frame names; `None` for an unknown verb.
    pub fn from_str(s: &[u8]) -> (r: Option<Action>)
        ensures
            r == action_of(s@),
    {
        let remove: [u8; 6] = [114, 101, 109, 111, 118, 101];
        let add: [u8; 3] = [97, 100, 100];
        let change: [u8; 6] = [99, 104, 97, 110, 103, 101];
        let bind: [u8; 4] = [98, 105, 110, 100];
        let unbind: [u8; 6] = [117, 110, 98, 105, 110, 100];
        assert(remove@ == verb_remove());
        assert(add@ == verb_add());
        assert(change@ == verb_change());
        assert(bind@ == verb_bind());
        assert(unbind@ == verb_unbind());
        if bytes_eq(s, remove.as_slice()) {
            Some(Action::Remove)
        } else if bytes_eq(s, add.as_slice()) {
            Some(Action::Add)
        } else if bytes_eq(s, change.as_slice()) {
            Some(Action::Change)
        } else if bytes_eq(s, bind.as_slice()) {
            Some(Action::Bind)
        } else if bytes_eq(s, unbind.as_slice()) {
            Some(Action::Unbind)
        } else {
            None
        }
    }
}

/// The fields of a parsed frame, as values.
pub struct RawDevView {
    pub action: Option<Action>,
    pub devpath: Option<Seq<u8>>,
    pub subsystem: Option<Seq<u8>>,
    pub devname: Option<Seq<u8>>,
    pub devtype: Option<Seq<u8>>,
    pub bus_num: Option<Seq<u8>>,
    pub devnum: Option<u64>,
    pub driver: Option<Seq<u8>>,
    pub seqnum: Option<u64>,
}

/// A record with no field set.
pub open spec fn empty_record() -> RawDevView {
    RawDevView {
        action: None,
        devpath: None,
        subsystem: None,
        devname: None,
        devtype: None,
        bus_num: None,
        devnum: None,
        driver: None,
        seqnum: None,
    }
}

/// `e` is the first `=` of `tok`.
pub open spec fn first_equals(tok: Seq<u8>, e: int) -> bool {
    0 <= e < tok.len() && tok[e] == EQUALS && forall|k: int| 0 <= k < e ==> #[trigger] tok[k]
        != EQUALS
}

/// Reads one entry into the record. An entry without `=` changes nothing;
/// the key is what precedes the first `=`, the value what follows it. An
/// unknown verb, or a device or sequence number that is not a decimal
/// number, rejects the frame.
pub open spec fn apply_entry(acc: RawDevView, tok: Seq<u8>) -> Option<RawDevView> {
    if exists|e: int| first_equals(tok, e) {
        let e = choose|e: int| first_equals(tok, e);
        let k = tok.subrange(0, e);
        let v = tok.subrange(e + 1, tok.len() as int);
        match field_of(k) {
            Field::Action => match action_of(v) {
                Some(a) => Some(RawDevView { action: Some(a), ..acc }),
                None => None,
            },
            Field::DevPath => Some(RawDevView { devpath: Some(v), ..acc }),
            Field::Subsystem => Some(RawDevView { subsystem: Some(v), ..acc }),
            Field::DevName => Some(RawDevView { devname: Some(v), ..acc }),
            Field::DevType => Some(RawDevView { devtype: Some(v), ..acc }),
            Field::BusNum => Some(RawDevView { bus_num: Some(v), ..acc }),
            Field::DevNum => match decimal_u64(v) {
                Some(n) => Some(RawDevView { devnum: Some(n), ..acc }),
                None => None,
            },
            Field::Driver => Some(RawDevView { driver: Some(v), ..acc }),
            Field::SeqNum => match decimal_u64(v) {
                Some(n) => Some(RawDevView { seqnum: Some(n), ..acc }),
                None => None,
            },
            Field::Unknown => Some(acc),
        }
    } else {
        Some(acc)
    }
}

/// Reads the entries of `s` from position `i` on, where the current entry
/// started at `start`; every NUL byte ends an entry, and so does the end of
/// `s`.
pub open spec fn entries_from(s: Seq<u8>, start: int, i: int, acc: RawDevView) -> Option<
    RawDevView,
>
    decreases s.len() - i,
{
    if i >= s.len() {
        apply_entry(acc, s.subrange(start, s.len() as int))
    } else if s[i] == NUL {
        match apply_entry(acc, s.subrange(start, i)) {
            Some(a) => entries_from(s, i + 1, i + 1, a),
            None => None,
        }
    } else {
        entries_from(s, start, i + 1, acc)
    }
}

/// The record that the entries of `s` make.
pub open spec fn entries(s: Seq<u8>) -> Option<RawDevView> {
    entries_from(s, 0, 0, empty_record())
}

/// The record that a frame holds: the entries from the first `ACTION` on.
/// A frame without `ACTION` holds none.
pub open spec fn parse_frame(s: Seq<u8>) -> Option<RawDevView> {
    if exists|i: int| first_action_key(s, i) {
        let i = choose|i: int| first_action_key(s, i);
        entries(s.subrange(i, s.len() as int))
    } else {
        None
    }
}

pub open spec fn opt_view<'a>(o: Option<RStr<'a>>) -> Option<Seq<u8>> {
    match o {
        Some(r) => Some(r@),
        None => None,
    }
}

/// A record parsed from a frame; its strings borrow from the frame.
#[derive(Debug, Clone, Copy)]
pub struct RawDev<'a> {
    pub action: Option<Action>,
    pub devpath: Option<RStr<'a>>,
    pub subsystem: Option<RStr<'a>>,
    pub devname: Option<RStr<'a>>,
    pub devtype: Option<RStr<'a>>,
    pub bus_num: Option<RStr<'a>>,
    pub devnum: Option<u64>,
    pub driver: Option<RStr<'a>>,
    pub seqnum: Option<u64>,
}

impl<'a> View for RawDev<'a> {
    type V = RawDevView;

    open spec fn view(&self) -> RawDevView {
        RawDevView {
            action: self.action,
            devpath: opt_view(self.devpath),
            subsystem: opt_view(self.subsystem),
            devname: opt_view(self.devname),
            devtype: opt_view(self.devtype),
            bus_num: opt_view(self.bus_num),
            devnum: self.devnum,
            driver: opt_view(self.driver),
            seqnum: self.seqnum,
        }
    }
}

pub open spec fn opt_record<'a>(o: Option<RawDev<'a>>) -> Option<RawDevView> {
    match o {
        Some(r) => Some(r@),
        None => None,
    }
}

/// Position of the first `=` in `tok`, if any.
fn find_equals(tok: &[u8]) -> (r: Option<usize>)
    ensures
        match r {
            Some(e) => first_equals(tok@, e as int),
            None => forall|k: int| 0 <= k < tok@.len() ==> tok@[k] != EQUALS,
        },
{
    let mut i: usize = 0;
    while i < tok.len()
        invariant
            i <= tok@.len(),
            forall|k: int| 0 <= k < i ==> #[trigger] tok@[k] != EQUALS,
        decreases tok@.len() - i,
    {
        if tok[i] == EQUALS {
            return Some(i);
        }
        i = i + 1;
    }
    None
}

impl<'a> RawDev<'a> {
    /// A record with no field set.
    pub fn empty() -> (r: RawDev<'a>)
        ensures
            r@ == empty_record(),
    {
        RawDev {
            action: None,
            devpath: None,
            subsystem: None,
            devname: None,
            devtype: None,
            bus_num: None,
            devnum: None,
            driver: None,
            seqnum: None,
        }
    }

    /// Reads one `KEY=VALUE` entry into the record.
    fn apply_entry(self, tok: &'a [u8]) -> (r: Option<RawDev<'a>>)
        ensures
            opt_record(r) == apply_entry(self@, tok@),
    {
        let e = match find_equals(tok) {
            Some(e) => e,
            None => {
                assert(!exists|e: int| first_equals(tok@, e));
                return Some(self);
            },
        };
        proof {
            assert forall|e2: int| first_equals(tok@, e2) implies e2 == e as int by {
                if e2 < e {
                    assert(tok@[e2] != EQUALS);
                } else if e2 > e {
                    assert(tok@[e as int] != EQUALS);
                }
            }
        }
        let n: usize = tok.len();
        let k = &tok[0..e];
        let v = &tok[e + 1..n];
        let value = RStr::new(v);
        let mut acc = self;
        match field_from_key(k) {
            Field::Action => match Action::from_str(v) {
                Some(a) => {
                    acc.action = Some(a);
                },
                None => {
                    return None;
                },
            },
            Field::DevPath => {
                acc.devpath = Some(value);
            },
            Field::Subsystem => {
                acc.subsystem = Some(value);
            },
            Field::DevName => {
                acc.devname = Some(value);
            },
            Field::DevType => {
                acc.devtype = Some(value);
            },
            Field::BusNum => {
                acc.bus_num = Some(value);
            },
            Field::DevNum => match parse_decimal_u64(v) {
                Some(n) => {
                    acc.devnum = Some(n);
                },
                None => {
                    return None;
                },
            },
            Field::Driver => {
                acc.driver = Some(value);
            },
            Field::SeqNum => match parse_decimal_u64(v) {
                Some(n) => {
                    acc.seqnum = Some(n);
                },
                None => {
                    return None;
                },
            },
            Field::Unknown => {},
        }
        Some(acc)
    }

    /// Reads the record of a hot-plug frame: the entries from the first
    /// `ACTION` on. `None` when the frame holds no `ACTION`, names an unknown
    /// verb, or gives a device or sequence number that is not a decimal
    /// number.
    pub fn from_bytes(bytes: &'a [u8]) -> (r: Option<RawDev<'a>>)
        ensures
            opt_record(r) == parse_frame(bytes@),
    {
        let begin = match find_action_key(bytes) {
            Some(b) => b,
            None => {
                assert(!exists|i: int| first_action_key(bytes@, i));
                return None;
            },
        };
        proof {
            assert forall|i2: int| first_action_key(bytes@, i2) implies i2 == begin as int by {
                if i2 < begin {
                    assert(!action_key_at(bytes@, i2));
                } else if i2 > begin {
                    assert(!action_key_at(bytes@, begin as int));
                }
            }
        }
        let t = &bytes[begin..bytes.len()];
        let n: usize = t.len();
        let mut acc = RawDev::empty();
        let mut start: usize = 0;
        let mut i: usize = 0;
        while i < n
            invariant
                n == t@.len(),
                start <= i <= n,
                entries(t@) == entries_from(t@, start as int, i as int, acc@),
                parse_frame(bytes@) == entries(t@),
            decreases n - i,
        {
            if t[i] == NUL {
                let tok = &t[start..i];
                match acc.apply_entry(tok) {
                    Some(a) => {
                        acc = a;
                    },
                    None => {
                        return None;
                    },
                }
                i = i + 1;
                start = i;
            } else {
                i = i + 1;
            }
        }
        let last = &t[start..n];
        acc.apply_entry(last)
    }
}

/// What a hot-plug frame tells about a device that has a path.
pub struct DeviceView {
    pub devpath: Seq<u8>,
    pub subsystem: Option<Seq<u8>>,
    pub devname: Option<Seq<u8>>,
    pub devtype: Option<Seq<u8>>,
    pub bus_num: Option<Seq<u8>>,
    pub devnum: Option<u64>,
    pub driver: Option<Seq<u8>>,
    pub seqnum: Option<u64>,
}

/// The device that a record describes; none without a path.
pub open spec fn device_of(r: RawDevView) -> Option<DeviceView> {
    match r.devpath {
        Some(p) => Some(
            DeviceView {
                devpath: p,
                subsystem: r.subsystem,
                devname: r.devname,
                devtype: r.devtype,
                bus_num: r.bus_num,
                devnum: r.devnum,
                driver: r.driver,
                seqnum: r.seqnum,
            },
        ),
        None => None,
    }
}

/// A device as a hot-plug frame reports it; its strings borrow from the
/// frame.
#[derive(Debug, Clone, Copy)]
pub struct Device<'a> {
    pub devpath: RStr<'a>,
    pub subsystem: Option<RStr<'a>>,
    pub devname: Option<RStr<'a>>,
    pub devtype: Option<RStr<'a>>,
    pub bus_num: Option<RStr<'a>>,
    pub devnum: Option<u64>,
    pub driver: Option<RStr<'a>>,
    pub seqnum: Option<u64>,
}

impl<'a> View for Device<'a> {
    type V = DeviceView;

    open spec fn view(&self) -> DeviceView {
        DeviceView {
            devpath: self.devpath@,
            subsystem: opt_view(self.subsystem),
            devname: opt_view(self.devname),
            devtype: opt_view(self.devtype),
            bus_num: opt_view(self.bus_num),
            devnum: self.devnum,
            driver: opt_view(self.driver),
            seqnum: self.seqnum,
        }
    }
}

pub open spec fn opt_device<'a>(o: Option<Device<'a>>) -> Option<DeviceView> {
    match o {
        Some(d) => Some(d@),
        None => None,
    }
}

/// Where a hot-plug frame leads.
pub enum HotplugView {
    /// An added device, to be looked up in the device database.
    Lookup(DeviceView),
    /// A removed device.
    Removed(DeviceView),
    /// Nothing to report.
    Ignored,
}

/// Only `add` and `remove` frames with a device path are reported.
pub open spec fn hotplug_of(r: RawDevView) -> HotplugView {
    match device_of(r) {
        Some(d) => match r.action {
            Some(Action::Add) => HotplugView::Lookup(d),
            Some(Action::Remove) => HotplugView::Removed(d),
            _ => HotplugView::Ignored,
        },
        None => HotplugView::Ignored,
    }
}

/// Where a received frame leads; a frame that does not parse leads nowhere.
pub open spec fn hotplug_of_frame(s: Seq<u8>) -> HotplugView {
    match parse_frame(s) {
        Some(r) => hotplug_of(r),
        None => HotplugView::Ignored,
    }
}

/// Where a hot-plug frame leads: a device to look up, a removed device, or
/// nothing.
#[derive(Debug)]
pub enum Hotplug<'a> {
    Lookup(Device<'a>),
    Removed(Device<'a>),
    Ignored,
}

impl<'a> View for Hotplug<'a> {
    type V = HotplugView;

    open spec fn view(&self) -> HotplugView {
        match self {
            Hotplug::Lookup(d) => HotplugView::Lookup(d@),
            Hotplug::Removed(d) => HotplugView::Removed(d@),
            Hotplug::Ignored => HotplugView::Ignored,
        }
    }
}

impl<'a> RawDev<'a> {
    /// The device that the record describes; `None` when it has no path.
    pub fn into_dev(self) -> (r: Option<Device<'a>>)
        ensures
            opt_device(r) == device_of(self@),
    {
        match self.devpath {
            Some(devpath) => Some(
                Device {
                    devpath,
                    subsystem: self.subsystem,
                    devname: self.devname,
                    devtype: self.devtype,
                    bus_num: self.bus_num,
                    devnum: self.devnum,
                    driver: self.driver,
                    seqnum: self.seqnum,
                },
            ),
            None => None,
        }
    }

    /// Decides what the record reports: an added device to look up, a
    /// removed device, or nothing (change, bind and unbind frames, and
    /// frames without a path).
    pub fn parse_into_actual_device(self) -> (r: Hotplug<'a>)
        ensures
            r@ == hotplug_of(self@),
    {
        let action = self.action;
        match self.into_dev() {
            Some(d) => match action {
                Some(Action::Add) => Hotplug::Lookup(d),
                Some(Action::Remove) => Hotplug::Removed(d),
                _ => Hotplug::Ignored,
            },
            None => Hotplug::Ignored,
        }
    }
}

/// Decides where a received hot-plug frame leads.
pub fn hotplug_frame<'a>(frame: &'a [u8]) -> (r: Hotplug<'a>)
    ensures
        r@ == hotplug_of_frame(frame@),
{
    match RawDev::from_bytes(frame) {
        Some(raw) => raw.parse_into_actual_device(),
        None => Hotplug::Ignored,
    }
}

impl<'a> Device<'a> {
    /// The key under which the device database knows the device: its path
    /// under `/sys`.
    pub fn syspath(&self) -> (r: Vec<u8>)
        ensures
            r@ == sys_prefix() + self.devpath@,
    {
        let mut r: Vec<u8> = Vec::new();
        r.push(47);
        r.push(115);
        r.push(121);
        r.push(115);
        let p = self.devpath.as_bytes();
        let n: usize = p.len();
        let mut i: usize = 0;
        while i < n
            invariant
                n == p@.len(),
                p@ == self.devpath@,
                i <= n,
                r@ == sys_prefix() + p@.subrange(0, i as int),
            decreases n - i,
        {
            r.push(p[i]);
            proof {
                assert(p@.subrange(0, i + 1) =~= p@.subrange(0, i as int).push(p@[i as int]));
            }
            i = i + 1;
        }
        assert(p@.subrange(0, n as int) =~= p@);
        r
    }

    /// The event for an added device once the device database has been
    /// asked: the device it found, or the frame's record when the device
    /// has already gone.
    pub fn resolve<D>(self, found: Option<D>) -> (r: DeviceEvent<'a, D>)
        ensures
            r@ == resolve_of(self@, found),
    {
        match found {
            Some(d) => DeviceEvent::Added(d),
            None => DeviceEvent::Removed(self),
        }
    }
}

/// A found device is added; a device the database no longer has is reported
/// as removed.
pub open spec fn resolve_of<D>(d: DeviceView, found: Option<D>) -> DeviceEventView<D> {
    match found {
        Some(x) => DeviceEventView::Added(x),
        None => DeviceEventView::Removed(d),
    }
}

} // verus!
