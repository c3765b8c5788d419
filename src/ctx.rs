//! The context: the resources registered for I/O, the devices they belong
//! to, and the routing of completions by their tag.
use vstd::prelude::*;
use std::collections::hash_map::Entry;
use std::collections::HashMap;
use crate::device_map::DeviceMap;
use crate::err::{errno_code, os_error_of, Error};
use crate::ev::{outcome_of, Completion, IoEvent};

verus! {

broadcast use vstd::std_specs::hash::group_hash_axioms;

/// The tag of the multishot receive on the hot-plug socket: all bits set.
/// Handles of resources are 32-bit, so no resource has it.
pub const HOTPLUG_TAG: u64 = 0xFFFF_FFFF_FFFF_FFFF;

/// The context's state, as values: the registered resources by handle, and
/// the descriptor registered for each device identity.
pub struct CtxView<T> {
    pub procs: Map<u32, T>,
    pub devs: Map<Seq<u8>, i32>,
}

/// The value under `k`, if any.
pub open spec fn lookup<K, V>(m: Map<K, V>, k: K) -> Option<V> {
    if m.contains_key(k) {
        Some(m[k])
    } else {
        None
    }
}

/// The handle of a descriptor: the descriptor itself, when it is not negative.
pub open spec fn handle_of(fd: i32) -> u32 {
    fd as u32
}

/// Adding a resource for a device fails only for a new device with a
/// negative descriptor.
pub open spec fn add_device_fails<T>(v: CtxView<T>, id: Seq<u8>, fd: i32) -> bool {
    !v.devs.contains_key(id) && fd < 0
}

/// What adding a resource for a device returns: the resource itself when
/// the device is already known, else the resource it displaces.
pub open spec fn returned_by_add_device<T>(v: CtxView<T>, id: Seq<u8>, fd: i32, dev: T) -> Option<T> {
    if v.devs.contains_key(id) {
        Some(dev)
    } else {
        lookup(v.procs, handle_of(fd))
    }
}

/// The state after adding a resource for a device: a known device keeps its
/// resource; a new one is recorded with the descriptor, and the resource is
/// registered under its handle.
pub open spec fn add_device_view<T>(v: CtxView<T>, id: Seq<u8>, fd: i32, dev: T) -> CtxView<T> {
    if v.devs.contains_key(id) || fd < 0 {
        v
    } else {
        CtxView { procs: v.procs.insert(handle_of(fd), dev), devs: v.devs.insert(id, fd) }
    }
}

/// The state after registering a resource under the handle of `fd`.
pub open spec fn add_process_view<T>(v: CtxView<T>, fd: i32, proc: T) -> CtxView<T> {
    CtxView { procs: v.procs.insert(handle_of(fd), proc), devs: v.devs }
}

/// The state after the resource under handle `h` became `t`.
pub open spec fn set_process_view<T>(v: CtxView<T>, h: u32, t: T) -> CtxView<T> {
    CtxView { procs: v.procs.insert(h, t), devs: v.devs }
}

/// The state after taking out the resource under the handle of `fd`.
pub open spec fn remove_process_view<T>(v: CtxView<T>, fd: i32) -> CtxView<T> {
    CtxView { procs: v.procs.remove(handle_of(fd)), devs: v.devs }
}

/// The state after removing a device: the device and its resource are gone.
pub open spec fn remove_device_view<T>(v: CtxView<T>, id: Seq<u8>) -> CtxView<T> {
    if v.devs.contains_key(id) {
        CtxView { procs: v.procs.remove(handle_of(v.devs[id])), devs: v.devs.remove(id) }
    } else {
        v
    }
}

/// What removing a device returns: the resource registered for it.
pub open spec fn removed_by_remove_device<T>(v: CtxView<T>, id: Seq<u8>) -> Option<T> {
    if v.devs.contains_key(id) {
        lookup(v.procs, handle_of(v.devs[id]))
    } else {
        None
    }
}

/// A tag that names a registered resource.
pub open spec fn live_tag<T>(v: CtxView<T>, tag: u64) -> bool {
    tag <= u32::MAX && v.procs.contains_key(tag as u32)
}

/// The buffer that a completion's flags name, if they name one: the buffer
/// flag is the lowest bit, the buffer id the upper sixteen bits.
pub open spec fn buffer_of(flags: u32) -> Option<u16> {
    if flags & 1 != 0 {
        Some((flags >> 16) as u16)
    } else {
        None
    }
}

/// Relies on io_uring::cqueue::buffer_select: the buffer id in a
/// completion's flags, present when the buffer flag is set.
#[verifier::external_body]
fn buffer_select(flags: u32) -> (r: Option<u16>)
    ensures
        r == buffer_of(flags),
{
    io_uring::cqueue::buffer_select(flags)
}

/// The handle of a descriptor; a negative descriptor is an error.
pub fn fd_to_index(fd: i32) -> (r: Result<u32, Error>)
    ensures
        (r is Ok) <==> fd >= 0,
        (r matches Ok(h) ==> h == handle_of(fd)),
        (r matches Err(e) ==> e == Error::Os(os_error_of(errno_code(fd)))),
{
    if fd < 0 {
        Err(Error::from_errno(fd))
    } else {
        Ok(fd as u32)
    }
}

/// The lower 32 bits of a completion tag.
pub fn userdata_to_idx(userdata: u64) -> (r: u32)
    ensures
        r as int == userdata as int % 0x1_0000_0000,
{
    (userdata % 0x1_0000_0000) as u32
}

/// What a completion leads to.
pub enum Route<'a, T> {
    /// The hot-plug receive failed: submit it again.
    Rearm,
    /// A hot-plug frame of `len` bytes waits in buffer `buffer_id`.
    Frame { buffer_id: u16, len: usize },
    /// An I/O operation on a registered resource completed.
    Io(IoEvent<'a, T>),
    /// Nothing to report.
    Skip,
}

/// The context's state: registered resources by handle, and devices by
/// identity.
pub struct Ctx<T> {
    procs: HashMap<u32, T>,
    devs: DeviceMap,
}

impl<T> View for Ctx<T> {
    type V = CtxView<T>;

    closed spec fn view(&self) -> CtxView<T> {
        CtxView { procs: self.procs@, devs: self.devs@ }
    }
}

impl<T> Ctx<T> {
    /// Device identities are distinct and their descriptors not negative.
    pub closed spec fn wf(&self) -> bool {
        &&& self.devs.wf()
        &&& forall|id: Seq<u8>| #[trigger] self.devs@.contains_key(id) ==> self.devs@[id] >= 0
    }

    pub fn new() -> (r: Ctx<T>)
        ensures
            r.wf(),
            r@.procs == Map::<u32, T>::empty(),
            r@.devs == Map::<Seq<u8>, i32>::empty(),
    {
        Ctx { procs: HashMap::new(), devs: DeviceMap::new() }
    }

    /// Registers a resource under the handle of its descriptor and returns
    /// the resource it displaces. A negative descriptor is an error and
    /// changes nothing.
    pub fn add_process(&mut self, fd: i32, proc: T) -> (r: Result<Option<T>, Error>)
        requires
            old(self).wf(),
        ensures
            final(self).wf(),
            (r is Err) <==> fd < 0,
            (r matches Err(e) ==> e == Error::Os(os_error_of(errno_code(fd)))),
            fd < 0 ==> final(self)@ == old(self)@,
            fd >= 0 ==> (r matches Ok(x) && x == lookup(old(self)@.procs, handle_of(fd))),
            fd >= 0 ==> final(self)@ == add_process_view(old(self)@, fd, proc),
    {
        match fd_to_index(fd) {
            Ok(idx) => Ok(self.procs.insert(idx, proc)),
            Err(e) => Err(e),
        }
    }

    /// Takes out the resource registered under the handle of a descriptor.
    /// A negative descriptor is an error and changes nothing.
    pub fn remove_process(&mut self, fd: i32) -> (r: Result<Option<T>, Error>)
        requires
            old(self).wf(),
        ensures
            final(self).wf(),
            (r is Err) <==> fd < 0,
            (r matches Err(e) ==> e == Error::Os(os_error_of(errno_code(fd)))),
            fd < 0 ==> final(self)@ == old(self)@,
            fd >= 0 ==> (r matches Ok(x) && x == lookup(old(self)@.procs, handle_of(fd))),
            fd >= 0 ==> final(self)@ == remove_process_view(old(self)@, fd),
    {
        match fd_to_index(fd) {
            Ok(idx) => Ok(self.procs.remove(&idx)),
            Err(e) => Err(e),
        }
    }

    /// Registers a resource for a device. A device that is already known
    /// keeps its resource, and the new one is handed back untouched. A new
    /// device is recorded with the descriptor, and the resource registered
    /// under its handle; the resource it displaces is returned. A negative
    /// descriptor for a new device is an error and changes nothing.
    pub fn add_device(&mut self, unique: &[u8], fd: i32, dev: T) -> (r: Result<Option<T>, Error>)
        requires
            old(self).wf(),
        ensures
            final(self).wf(),
            final(self)@ == add_device_view(old(self)@, unique@, fd, dev),
            (r is Err) <==> add_device_fails(old(self)@, unique@, fd),
            (r matches Err(e) ==> e == Error::Os(os_error_of(errno_code(fd)))),
            (r matches Ok(x) ==> x == returned_by_add_device(old(self)@, unique@, fd, dev)),
    {
        if self.devs.contains(unique) {
            return Ok(Some(dev));
        }
        let idx = match fd_to_index(fd) {
            Ok(idx) => idx,
            Err(e) => {
                return Err(e);
            },
        };
        self.devs.insert_new(unique, fd);
        Ok(self.procs.insert(idx, dev))
    }

    /// Forgets a device and takes out the resource registered for it;
    /// `None` when the device is not known.
    pub fn remove_device_with_id(&mut self, id: &[u8]) -> (r: Result<Option<T>, Error>)
        requires
            old(self).wf(),
        ensures
            final(self).wf(),
            final(self)@ == remove_device_view(old(self)@, id@),
            (r matches Ok(x) && x == removed_by_remove_device(old(self)@, id@)),
    {
        let fd = match self.devs.remove(id) {
            Some(fd) => fd,
            None => {
                assert(self.devs@ =~= old(self).devs@);
                return Ok(None);
            },
        };
        self.remove_process(fd)
    }

    /// The resource registered under a handle.
    pub fn get_process(&self, idx: &u32) -> (r: Option<&T>)
        ensures
            (match r {
                Some(t) => lookup(self@.procs, *idx) == Some(*t),
                None => !self@.procs.contains_key(*idx),
            }),
    {
        self.procs.get(idx)
    }

    /// The resource registered under a handle, borrowed mutably; what the
    /// caller leaves in it stays registered.
    pub fn get_process_mut(&mut self, idx: &u32) -> (r: Option<&mut T>)
        requires
            old(self).wf(),
        ensures
            final(self).wf(),
            (r is Some) == old(self)@.procs.contains_key(*idx),
            r is None ==> final(self)@ == old(self)@,
            r is Some ==> *r.unwrap() == old(self)@.procs[*idx],
            r is Some ==> final(self)@ == set_process_view(old(self)@, *idx, *final(r.unwrap())),
    {
        if !self.procs.contains_key(idx) {
            return None;
        }
        match self.procs.entry(*idx) {
            Entry::Occupied(e) => Some(e.into_mut()),
            Entry::Vacant(_) => None,
        }
    }

    /// Decides what a completion leads to. The hot-plug tag leads to a
    /// re-arm when the receive failed (a result that is not positive), else
    /// to the buffer that holds the frame; a tag that names a registered
    /// resource leads to an I/O event that borrows it; any other tag leads
    /// nowhere and changes nothing.
    pub fn route<'a>(&'a mut self, c: Completion) -> (r: Route<'a, T>)
        requires
            old(self).wf(),
        ensures
            final(self).wf(),
            c.user_data == HOTPLUG_TAG && c.result <= 0 ==> (r is Rearm && *final(self) == *old(self)),
            c.user_data == HOTPLUG_TAG && c.result > 0 ==> *final(self) == *old(self),
            c.user_data == HOTPLUG_TAG && c.result > 0 ==> (match buffer_of(c.flags) {
                Some(b) => r matches Route::Frame { buffer_id, len } && buffer_id == b && len == c.result,
                None => r is Skip,
            }),
            c.user_data != HOTPLUG_TAG && !live_tag(old(self)@, c.user_data) ==> (r is Skip && *final(self) == *old(self)),
            c.user_data != HOTPLUG_TAG && live_tag(old(self)@, c.user_data) ==> (r matches Route::Io(ev)
                && *ev.dev == old(self)@.procs[c.user_data as u32]
                && ev.userdata == c.user_data
                && ev.result == outcome_of(c)
                && final(self)@ == set_process_view(old(self)@, c.user_data as u32, *final(ev.dev))),
    {
        if c.user_data == HOTPLUG_TAG {
            if c.result <= 0 {
                return Route::Rearm;
            }
            return match buffer_select(c.flags) {
                Some(buffer_id) => Route::Frame { buffer_id, len: c.result as usize },
                None => Route::Skip,
            };
        }
        if c.user_data > 0xFFFF_FFFF {
            return Route::Skip;
        }
        let idx = userdata_to_idx(c.user_data);
        if !self.procs.contains_key(&idx) {
            return Route::Skip;
        }
        match self.procs.entry(idx) {
            Entry::Occupied(e) => Route::Io(IoEvent::from_cqueue(e.into_mut(), c)),
            Entry::Vacant(_) => Route::Skip,
        }
    }
}

} // verus!
