//! Properties that relate several operations of the library.
use vstd::prelude::*;
use crate::ctx::{
    add_device_fails, add_device_view, handle_of, remove_device_view, returned_by_add_device,
    CtxView,
};
use crate::ev::DeviceEventView;
use crate::raw_device::{hotplug_of_frame, parse_frame, resolve_of, Action, HotplugView};

verus! {

/// One operation on the devices of a context.
pub enum DeviceOp<T> {
    Add { id: Seq<u8>, fd: i32, dev: T },
    Remove { id: Seq<u8> },
}

pub open spec fn apply_device_op<T>(v: CtxView<T>, op: DeviceOp<T>) -> CtxView<T> {
    match op {
        DeviceOp::Add { id, fd, dev } => add_device_view(v, id, fd, dev),
        DeviceOp::Remove { id } => remove_device_view(v, id),
    }
}

/// The state after a sequence of device operations, in order.
pub open spec fn run_device_ops<T>(v: CtxView<T>, ops: Seq<DeviceOp<T>>) -> CtxView<T>
    decreases ops.len(),
{
    if ops.len() == 0 {
        v
    } else {
        run_device_ops(apply_device_op(v, ops[0]), ops.drop_first())
    }
}

/// The device map and the process map agree: every device's handle is
/// registered, and every registered handle belongs to a device.
pub open spec fn maps_agree<T>(v: CtxView<T>) -> bool {
    &&& forall|id: Seq<u8>| #[trigger]
        v.devs.contains_key(id) ==> v.devs[id] >= 0 && v.procs.contains_key(handle_of(v.devs[id]))
    &&& forall|h: u32| #[trigger]
        v.procs.contains_key(h) ==> exists|id: Seq<u8>| #[trigger]
            v.devs.contains_key(id) && handle_of(v.devs[id]) == h
}

/// Distinct devices hold distinct descriptors.
pub open spec fn descriptors_distinct<T>(v: CtxView<T>) -> bool {
    forall|a: Seq<u8>, b: Seq<u8>|
        #[trigger] v.devs.contains_key(a) && #[trigger] v.devs.contains_key(b) && a != b ==> v.devs[a]
            != v.devs[b]
}

/// No addition in `ops` gives a new device a descriptor that a known device
/// holds at that point.
pub open spec fn adds_keep_descriptors_apart<T>(v: CtxView<T>, ops: Seq<DeviceOp<T>>) -> bool
    decreases ops.len(),
{
    if ops.len() == 0 {
        true
    } else {
        &&& (match ops[0] {
            DeviceOp::Add { id, fd, dev } => !v.devs.contains_key(id) ==> forall|other: Seq<u8>|
                #[trigger] v.devs.contains_key(other) ==> v.devs[other] != fd,
            DeviceOp::Remove { id } => true,
        })
        &&& adds_keep_descriptors_apart(apply_device_op(v, ops[0]), ops.drop_first())
    }
}

proof fn lemma_device_op_keeps_maps_agreeing<T>(v: CtxView<T>, op: DeviceOp<T>)
    requires
        maps_agree(v),
        descriptors_distinct(v),
        match op {
            DeviceOp::Add { id, fd, dev } => !v.devs.contains_key(id) ==> forall|other: Seq<u8>|
                #[trigger] v.devs.contains_key(other) ==> v.devs[other] != fd,
            DeviceOp::Remove { id } => true,
        },
    ensures
        maps_agree(apply_device_op(v, op)),
        descriptors_distinct(apply_device_op(v, op)),
{
    let w = apply_device_op(v, op);
    match op {
        DeviceOp::Add { id, fd, dev } => {
            if !v.devs.contains_key(id) && fd >= 0 {
                assert forall|h: u32| #[trigger] w.procs.contains_key(h) implies exists|i: Seq<u8>|
                    #[trigger] w.devs.contains_key(i) && handle_of(w.devs[i]) == h by {
                    if h == handle_of(fd) {
                        assert(w.devs.contains_key(id));
                    } else {
                        assert(v.procs.contains_key(h));
                        let i = choose|i: Seq<u8>| #[trigger]
                            v.devs.contains_key(i) && handle_of(v.devs[i]) == h;
                        assert(w.devs.contains_key(i));
                    }
                }
            }
        },
        DeviceOp::Remove { id } => {
            if v.devs.contains_key(id) {
                let fd = v.devs[id];
                assert forall|i: Seq<u8>| #[trigger] w.devs.contains_key(i) implies w.devs[i] >= 0
                    && w.procs.contains_key(handle_of(w.devs[i])) by {
                    assert(v.devs.contains_key(i));
                    assert(v.devs[i] != fd);
                }
                assert forall|h: u32| #[trigger] w.procs.contains_key(h) implies exists|i: Seq<u8>|
                    #[trigger] w.devs.contains_key(i) && handle_of(w.devs[i]) == h by {
                    assert(v.procs.contains_key(h));
                    let i = choose|i: Seq<u8>| #[trigger]
                        v.devs.contains_key(i) && handle_of(v.devs[i]) == h;
                    assert(i != id);
                    assert(w.devs.contains_key(i));
                }
            }
        },
    }
}

/// Through any sequence of device additions and removals, the device map
/// and the process map agree: a device is known exactly when the handle of
/// its descriptor is registered. This holds as long as no addition gives a
/// new device the descriptor of a device that is still known.
pub proof fn lemma_device_ops_keep_maps_agreeing<T>(v: CtxView<T>, ops: Seq<DeviceOp<T>>)
    requires
        maps_agree(v),
        descriptors_distinct(v),
        adds_keep_descriptors_apart(v, ops),
    ensures
        maps_agree(run_device_ops(v, ops)),
        descriptors_distinct(run_device_ops(v, ops)),
    decreases ops.len(),
{
    if ops.len() > 0 {
        lemma_device_op_keeps_maps_agreeing(v, ops[0]);
        lemma_device_ops_keep_maps_agreeing(apply_device_op(v, ops[0]), ops.drop_first());
    }
}

/// A new context's maps agree.
pub proof fn lemma_empty_maps_agree<T>(v: CtxView<T>)
    requires
        v.procs == Map::<u32, T>::empty(),
        v.devs == Map::<Seq<u8>, i32>::empty(),
    ensures
        maps_agree(v),
        descriptors_distinct(v),
{
}

/// Adding a resource for the same device twice: the second call succeeds,
/// hands its resource back, and leaves the first resource registered.
pub proof fn lemma_add_device_twice<T>(
    v: CtxView<T>,
    id: Seq<u8>,
    fd1: i32,
    dev1: T,
    fd2: i32,
    dev2: T,
)
    requires
        !v.devs.contains_key(id),
        fd1 >= 0,
    ensures
        !add_device_fails(add_device_view(v, id, fd1, dev1), id, fd2),
        returned_by_add_device(add_device_view(v, id, fd1, dev1), id, fd2, dev2) == Some(dev2),
        add_device_view(add_device_view(v, id, fd1, dev1), id, fd2, dev2) == add_device_view(
            v,
            id,
            fd1,
            dev1,
        ),
        add_device_view(v, id, fd1, dev1).procs[handle_of(fd1)] == dev1,
{
}

/// An added device comes only from a frame whose action is `add`, once the
/// device database has found the device; `change`, `bind` and `unbind`
/// frames never lead to one.
pub proof fn lemma_added_only_from_add_frames<D>(frame: Seq<u8>, found: Option<D>)
    ensures
        (hotplug_of_frame(frame) is Lookup) ==> (parse_frame(frame) matches Some(r) && r.action
            == Some(Action::Add)),
        (parse_frame(frame) matches Some(r) && r.action != Some(Action::Add)) ==> !(hotplug_of_frame(
            frame,
        ) is Lookup),
        (hotplug_of_frame(frame) matches HotplugView::Lookup(d) ==> resolve_of(d, found) == (match found {
            Some(x) => DeviceEventView::Added(x),
            None => DeviceEventView::Removed(d),
        })),
{
    match hotplug_of_frame(frame) {
        HotplugView::Lookup(d) => {
            match found {
                Some(x) => {},
                None => {},
            }
        },
        _ => {},
    }
}

} // verus!
