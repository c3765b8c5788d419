//! The events that the demultiplexer hands out.
use vstd::prelude::*;
use crate::raw_device::{Device, DeviceView};

verus! {

/// A completion as the kernel posts it: the tag it was submitted with, its
/// signed result and its flag bits.
#[derive(Debug, PartialEq, Eq, Clone, Copy, Structural)]
pub struct Completion {
    pub user_data: u64,
    pub result: i32,
    pub flags: u32,
}

/// The successful outcome of an I/O operation.
#[derive(Debug, PartialEq, Eq, Clone, Copy, Structural)]
pub struct IoEventOk {
    pub flags: u32,
    pub result: u32,
}

/// The outcome of a completion: its flags and result when the result is not
/// negative, else the negative result, a kernel error code.
pub open spec fn outcome_of(c: Completion) -> Result<IoEventOk, i32> {
    if c.result < 0 {
        Err(c.result)
    } else {
        Ok(IoEventOk { flags: c.flags, result: c.result as u32 })
    }
}

/// A completed I/O operation on a registered resource, which the event
/// borrows.
pub struct IoEvent<'a, T> {
    pub dev: &'a mut T,
    pub userdata: u64,
    pub result: Result<IoEventOk, i32>,
}

/// Relies on libc::EINTR: the code of an interrupted call, 4 on Linux.
#[verifier::external_body]
fn errno_interrupted() -> (r: i32)
    ensures
        r == 4,
{
    libc::EINTR
}

/// Relies on libc::ETIME: the code of an expired timer, 62 on Linux outside
/// the MIPS and SPARC families.
#[verifier::external_body]
fn errno_timer_expired() -> (r: i32)
    ensures
        r == 62,
{
    libc::ETIME
}

/// Relies on libc::ENOBUFS: the code of exhausted buffer space, 105 on Linux
/// outside the MIPS and SPARC families.
#[verifier::external_body]
fn errno_no_buffers() -> (r: i32)
    ensures
        r == 105,
{
    libc::ENOBUFS
}

/// The error codes after which an operation may simply be tried again:
/// interrupted, timed out, out of buffers.
pub open spec fn graceful_error(e: int) -> bool {
    e == -4 || e == -62 || e == -105
}

impl<'a, T> IoEvent<'a, T> {
    /// The event for a completion on the resource `dev`.
    pub fn from_cqueue(dev: &'a mut T, cq: Completion) -> (r: IoEvent<'a, T>)
        ensures
            *r.dev == *old(dev),
            *final(r.dev) == *final(dev),
            r.userdata == cq.user_data,
            r.result == outcome_of(cq),
    {
        let result = if cq.result < 0 {
            Err(cq.result)
        } else {
            Ok(IoEventOk { flags: cq.flags, result: cq.result as u32 })
        };
        IoEvent { dev, userdata: cq.user_data, result }
    }

    /// Whether the operation failed in a way that allows trying again.
    pub fn errored_gracefully(&self) -> (r: bool)
        ensures
            r == (self.result matches Err(e) && graceful_error(e as int)),
    {
        match self.result {
            Err(e) => e == -errno_interrupted() || e == -errno_timer_expired() || e
                == -errno_no_buffers(),
            Ok(_) => false,
        }
    }

    /// Whether the operation failed.
    pub fn errored(&self) -> (r: bool)
        ensures
            r == self.result is Err,
    {
        self.result.is_err()
    }
}

/// A device event, as values.
pub enum DeviceEventView<D> {
    Added(D),
    Removed(DeviceView),
}

/// A device that arrived, with the device database's record of it, or a
/// device that left, with what the hot-plug frame said of it.
#[derive(Debug)]
pub enum DeviceEvent<'a, D> {
    Added(D),
    Removed(Device<'a>),
}

impl<'a, D> View for DeviceEvent<'a, D> {
    type V = DeviceEventView<D>;

    open spec fn view(&self) -> DeviceEventView<D> {
        match self {
            DeviceEvent::Added(d) => DeviceEventView::Added(*d),
            DeviceEvent::Removed(d) => DeviceEventView::Removed(d@),
        }
    }
}

/// The next event: a device event or a completed I/O operation.
pub enum Event<'a, T, D> {
    Device(DeviceEvent<'a, D>),
    Io(IoEvent<'a, T>),
}

} // verus!
