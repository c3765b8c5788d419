//! The decisions of building a context: the ring's capacity, and the
//! buffer group to try when registering the hot-plug buffer ring.
use vstd::prelude::*;

verus! {

/// The number of buffers in the hot-plug buffer ring.
pub const HOTPLUG_BUFFERS: u16 = 128;

/// The size of each hot-plug buffer, in bytes.
pub const HOTPLUG_BUFFER_SIZE: usize = 4096;

pub open spec fn is_power_of_two(x: int) -> bool
    decreases x,
{
    if x <= 0 {
        false
    } else if x == 1 {
        true
    } else {
        x % 2 == 0 && is_power_of_two(x / 2)
    }
}

/// `p` is the smallest power of two that is at least `n`.
pub open spec fn smallest_power_of_two_at_least(n: int, p: int) -> bool {
    is_power_of_two(p) && n <= p && (p == 1 || p / 2 < n)
}

/// Relies on u32::checked_next_power_of_two: the smallest power of two that
/// is at least `n`, or `None` when it does not fit in 32 bits.
#[verifier::external_body]
fn next_power_of_two(n: u32) -> (r: Option<u32>)
    ensures
        r is None <==> n > 0x8000_0000,
        r matches Some(p) ==> smallest_power_of_two_at_least(n as int, p as int),
{
    n.checked_next_power_of_two()
}

/// The capacity of the ring for a requested number of entries: the
/// smallest power of two at least as large; `None` when that does not fit
/// in 32 bits.
pub fn ring_capacity(io_entries: u32) -> (r: Option<u32>)
    ensures
        r is None <==> io_entries > 0x8000_0000,
        r matches Some(p) ==> smallest_power_of_two_at_least(io_entries as int, p as int),
{
    next_power_of_two(io_entries)
}

/// The buffer group id after `id`; the ids wrap around.
pub open spec fn next_group(id: u16) -> u16 {
    if id == u16::MAX {
        0
    } else {
        (id + 1) as u16
    }
}

/// Decides what follows a failed registration of the hot-plug buffer ring.
/// When the group id was taken, the next id is written to `buf_id` and the
/// registration is tried again; any other failure ends it.
pub fn retry_registration(already_exists: bool, buf_id: &mut u16) -> (retry: bool)
    ensures
        retry == already_exists,
        retry ==> *final(buf_id) == next_group(*old(buf_id)),
        !retry ==> *final(buf_id) == *old(buf_id),
{
    if already_exists {
        *buf_id = if *buf_id == u16::MAX {
            0
        } else {
            *buf_id + 1
        };
    }
    already_exists
}

} // verus!
