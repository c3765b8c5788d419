//! The fixed words of a hot-plug frame, as bytes.
use vstd::prelude::*;

verus! {

/// Byte-wise equality of two byte strings.
pub fn bytes_eq(a: &[u8], b: &[u8]) -> (r: bool)
    ensures
        r == (a@ == b@),
{
    if a.len() != b.len() {
        return false;
    }
    let mut i: usize = 0;
    while i < a.len()
        invariant
            a@.len() == b@.len(),
            i <= a@.len(),
            forall|k: int| 0 <= k < i ==> a@[k] == b@[k],
        decreases a@.len() - i,
    {
        if a[i] != b[i] {
            return false;
        }
        i = i + 1;
    }
    assert(a@ =~= b@);
    true
}

pub open spec fn key_action() -> Seq<u8> {
    seq![65u8, 67u8, 84u8, 73u8, 79u8, 78u8]
}

pub open spec fn key_devpath() -> Seq<u8> {
    seq![68u8, 69u8, 86u8, 80u8, 65u8, 84u8, 72u8]
}

pub open spec fn key_subsystem() -> Seq<u8> {
    seq![83u8, 85u8, 66u8, 83u8, 89u8, 83u8, 84u8, 69u8, 77u8]
}

pub open spec fn key_devname() -> Seq<u8> {
    seq![68u8, 69u8, 86u8, 78u8, 65u8, 77u8, 69u8]
}

pub open spec fn key_devtype() -> Seq<u8> {
    seq![68u8, 69u8, 86u8, 84u8, 89u8, 80u8, 69u8]
}

pub open spec fn key_busnum() -> Seq<u8> {
    seq![66u8, 85u8, 83u8, 78u8, 85u8, 77u8]
}

pub open spec fn key_devnum() -> Seq<u8> {
    seq![68u8, 69u8, 86u8, 78u8, 85u8, 77u8]
}

pub open spec fn key_driver() -> Seq<u8> {
    seq![68u8, 82u8, 73u8, 86u8, 69u8, 82u8]
}

pub open spec fn key_seqnum() -> Seq<u8> {
    seq![83u8, 69u8, 81u8, 78u8, 85u8, 77u8]
}

pub open spec fn verb_add() -> Seq<u8> {
    seq![97u8, 100u8, 100u8]
}

pub open spec fn verb_remove() -> Seq<u8> {
    seq![114u8, 101u8, 109u8, 111u8, 118u8, 101u8]
}

pub open spec fn verb_change() -> Seq<u8> {
    seq![99u8, 104u8, 97u8, 110u8, 103u8, 101u8]
}

pub open spec fn verb_bind() -> Seq<u8> {
    seq![98u8, 105u8, 110u8, 100u8]
}

pub open spec fn verb_unbind() -> Seq<u8> {
    seq![117u8, 110u8, 98u8, 105u8, 110u8, 100u8]
}

/// The prefix that turns a device path into its place under sysfs: `/sys`.
pub open spec fn sys_prefix() -> Seq<u8> {
    seq![47u8, 115u8, 121u8, 115u8]
}

/// The byte that separates a key from its value: `=`.
pub const EQUALS: u8 = 61;

/// The byte that ends each entry of a frame.
pub const NUL: u8 = 0;

/// The keys of a frame that the parser reads.
#[derive(Debug, PartialEq, Eq, Clone, Copy, Structural)]
pub enum Field {
    Action,
    DevPath,
    Subsystem,
    DevName,
    DevType,
    BusNum,
    DevNum,
    Driver,
    SeqNum,
    Unknown,
}

pub open spec fn field_of(k: Seq<u8>) -> Field {
    if k == key_action() {
        Field::Action
    } else if k == key_devpath() {
        Field::DevPath
    } else if k == key_subsystem() {
        Field::Subsystem
    } else if k == key_devname() {
        Field::DevName
    } else if k == key_devtype() {
        Field::DevType
    } else if k == key_busnum() {
        Field::BusNum
    } else if k == key_devnum() {
        Field::DevNum
    } else if k == key_driver() {
        Field::Driver
    } else if k == key_seqnum() {
        Field::SeqNum
    } else {
        Field::Unknown
    }
}

/// Which field a key names.
pub fn field_from_key(k: &[u8]) -> (r: Field)
    ensures
        r == field_of(k@),
{
    let action: [u8; 6] = [65, 67, 84, 73, 79, 78];
    let devpath: [u8; 7] = [68, 69, 86, 80, 65, 84, 72];
    let subsystem: [u8; 9] = [83, 85, 66, 83, 89, 83, 84, 69, 77];
    let devname: [u8; 7] = [68, 69, 86, 78, 65, 77, 69];
    let devtype: [u8; 7] = [68, 69, 86, 84, 89, 80, 69];
    let busnum: [u8; 6] = [66, 85, 83, 78, 85, 77];
    let devnum: [u8; 6] = [68, 69, 86, 78, 85, 77];
    let driver: [u8; 6] = [68, 82, 73, 86, 69, 82];
    let seqnum: [u8; 6] = [83, 69, 81, 78, 85, 77];
    assert(action@ == key_action());
    assert(devpath@ == key_devpath());
    assert(subsystem@ == key_subsystem());
    assert(devname@ == key_devname());
    assert(devtype@ == key_devtype());
    assert(busnum@ == key_busnum());
    assert(devnum@ == key_devnum());
    assert(driver@ == key_driver());
    assert(seqnum@ == key_seqnum());
    if bytes_eq(k, action.as_slice()) {
        Field::Action
    } else if bytes_eq(k, devpath.as_slice()) {
        Field::DevPath
    } else if bytes_eq(k, subsystem.as_slice()) {
        Field::Subsystem
    } else if bytes_eq(k, devname.as_slice()) {
        Field::DevName
    } else if bytes_eq(k, devtype.as_slice()) {
        Field::DevType
    } else if bytes_eq(k, busnum.as_slice()) {
        Field::BusNum
    } else if bytes_eq(k, devnum.as_slice()) {
        Field::DevNum
    } else if bytes_eq(k, driver.as_slice()) {
        Field::Driver
    } else if bytes_eq(k, seqnum.as_slice()) {
        Field::SeqNum
    } else {
        Field::Unknown
    }
}

/// Whether the action key starts at position `i` of `s`.
pub open spec fn action_key_at(s: Seq<u8>, i: int) -> bool {
    0 <= i && i + key_action().len() <= s.len() && s.subrange(i, i + key_action().len())
        == key_action()
}

/// `i` is the first position of `s` where the action key starts.
pub open spec fn first_action_key(s: Seq<u8>, i: int) -> bool {
    action_key_at(s, i) && forall|k: int| 0 <= k < i ==> !#[trigger] action_key_at(s, k)
}

/// The first position where the action key starts, if any.
pub fn find_action_key(s: &[u8]) -> (r: Option<usize>)
    ensures
        match r {
            Some(i) => first_action_key(s@, i as int),
            None => forall|k: int| !#[trigger] action_key_at(s@, k),
        },
{
    let key: [u8; 6] = [65, 67, 84, 73, 79, 78];
    assert(key@ == key_action());
    if s.len() < 6 {
        return None;
    }
    let mut i: usize = 0;
    let n: usize = s.len();
    let last: usize = n - 6;
    while i <= last
        invariant
            s@.len() >= 6,
            n == s@.len(),
            last == n - 6,
            i <= last + 1,
            key@ == key_action(),
            forall|k: int| 0 <= k < i ==> !#[trigger] action_key_at(s@, k),
        decreases s@.len() - i,
    {
        let window = &s[i..i + 6];
        if bytes_eq(window, key.as_slice()) {
            return Some(i);
        }
        i = i + 1;
    }
    None
}

} // verus!
