//! Entry points that validate a request and enqueue it as an event.
use vstd::prelude::*;
use crate::cl::{
    CL_EXEC_STATUS_ERROR_FOR_EVENTS_IN_WAIT_LIST, CL_INVALID_CONTEXT, CL_INVALID_EVENT,
    CL_INVALID_MEM_OBJECT, CL_INVALID_OPERATION, CL_INVALID_VALUE, CL_MEM_HOST_NO_ACCESS,
    CL_MEM_HOST_READ_ONLY, CL_MEM_HOST_WRITE_ONLY, CL_MEM_OBJECT_BUFFER, CL_TRUE, CL_FALSE,
};
use crate::event::{Command, EventGraph, Queue};
use crate::flags::has;
use crate::memory::MemStore;
use crate::util::check_cl_bool;

verus! {

/// Every handle of the wait list names an event.
pub open spec fn wait_list_valid(events: Seq<crate::event::Event>, wl: Seq<usize>) -> bool {
    forall|k: int| 0 <= k < wl.len() ==> wl[k] < events.len()
}

/// Some event of the wait list resolved to an error.
pub open spec fn wait_list_failed(events: Seq<crate::event::Event>, wl: Seq<usize>) -> bool {
    exists|k: int|
        0 <= k < wl.len() && (#[trigger] events[wl[k] as int]).status.is_some() && events[wl[k] as int].status.unwrap() < 0
}

/// Every event of the wait list belongs to context `ctx`.
pub open spec fn wait_list_in_context(events: Seq<crate::event::Event>, wl: Seq<usize>, ctx: u64) -> bool {
    forall|k: int| 0 <= k < wl.len() ==> (#[trigger] events[wl[k] as int]).context == ctx
}

fn check_wait_list(events: &EventGraph, wl: &Vec<usize>, ctx: u64) -> (r: (bool, bool, bool))
    ensures
        r.0 == wait_list_valid(events@, wl@),
        r.0 ==> r.1 == wait_list_failed(events@, wl@),
        r.0 ==> r.2 == wait_list_in_context(events@, wl@, ctx),
{
    let mut valid = true;
    let mut failed = false;
    let mut same = true;
    let mut k: usize = 0;
    while k < wl.len()
        invariant
            k <= wl@.len(),
            valid == (forall|j: int| 0 <= j < k ==> wl@[j] < events@.len()),
            valid ==> failed == (exists|j: int|
                0 <= j < k && (#[trigger] events@[wl@[j] as int]).status.is_some() && events@[wl@[j] as int].status.unwrap() < 0),
            valid ==> same == (forall|j: int| 0 <= j < k ==> (#[trigger] events@[wl@[j] as int]).context == ctx),
        decreases wl@.len() - k,
    {
        let e = wl[k];
        if e >= events.len() {
            valid = false;
        } else if valid {
            let ev = events.get(e);
            if let Some(s) = ev.status {
                if s < 0 {
                    failed = true;
                }
            }
            if ev.context != ctx {
                same = false;
            }
        }
        k = k + 1;
    }
    (valid, failed, same)
}

/// `true` for `CL_TRUE`, `false` for `CL_FALSE`.
pub open spec fn cl_bool_value(v: u64) -> Option<bool> {
    if v == CL_TRUE as u64 {
        Some(true)
    } else if v == CL_FALSE as u64 {
        Some(false)
    } else {
        None
    }
}

/// The error `enqueue_write_buffer` reports, if any, in the order the checks run.
pub open spec fn write_buffer_error(
    q_context: u64,
    events: Seq<crate::event::Event>,
    mems: Seq<crate::memory::Mem>,
    buffer: usize,
    blocking: u64,
    offset: usize,
    len: usize,
    wl: Seq<usize>,
) -> Option<i32> {
    if cl_bool_value(blocking).is_none() {
        Some(CL_INVALID_VALUE)
    } else if buffer >= mems.len() || mems[buffer as int].mem_type != CL_MEM_OBJECT_BUFFER {
        Some(CL_INVALID_MEM_OBJECT)
    } else if offset + len > mems[buffer as int].size {
        Some(CL_INVALID_VALUE)
    } else if !wait_list_valid(events, wl) {
        Some(CL_INVALID_EVENT)
    } else if mems[buffer as int].context != q_context || !wait_list_in_context(events, wl, q_context) {
        Some(CL_INVALID_CONTEXT)
    } else if cl_bool_value(blocking) == Some(true) && wait_list_failed(events, wl) {
        Some(CL_EXEC_STATUS_ERROR_FOR_EVENTS_IN_WAIT_LIST)
    } else if has(mems[buffer as int].flags, CL_MEM_HOST_READ_ONLY | CL_MEM_HOST_NO_ACCESS) {
        Some(CL_INVALID_OPERATION)
    } else {
        None
    }
}

/// What a successful enqueue did: one new event in the queue's context waiting
/// for `wl`, appended to the queue.
pub open spec fn enqueued(
    old_q: Queue,
    new_q: Queue,
    old_events: EventGraph,
    new_events: EventGraph,
    wl: Seq<usize>,
    e: usize,
) -> bool {
    &&& e == old_events@.len()
    &&& new_events.wf()
    &&& new_events@.len() == old_events@.len() + 1
    &&& new_events@.take(old_events@.len() as int) == old_events@
    &&& new_events@.last().context == old_q.context_spec()
    &&& new_events@.last().deps@ == wl
    &&& new_events@.last().status.is_none()
    &&& new_q.wf()
    &&& new_q@ == old_q@.push(e)
    &&& new_q.context_spec() == old_q.context_spec()
    &&& new_q.device_spec() == old_q.device_spec()
}

/// Creates the event and queues it.
fn submit(q: &mut Queue, events: &mut EventGraph, wl: Vec<usize>, cmd: Command) -> (r: usize)
    requires
        old(q).wf(),
        old(events).wf(),
        wait_list_valid(old(events)@, wl@),
        forall|k: int| 0 <= k < old(q)@.len() ==> old(q)@[k] < old(events)@.len(),
    ensures
        enqueued(*old(q), *final(q), *old(events), *final(events), wl@, r),
        final(events)@.last().command == cmd,
        forall|k: int| 0 <= k < final(q)@.len() ==> final(q)@[k] < final(events)@.len(),
{
    let ghost wl0 = wl@;
    let ctx = q.context();
    let e = match events.create_event(ctx, wl, cmd) {
        Ok(e) => e,
        Err(_) => {
            return 0;
        },
    };
    proof {
        assert(!old(q)@.contains(e)) by {
            if old(q)@.contains(e) {
                let j = choose|j: int| 0 <= j < old(q)@.len() && old(q)@[j] == e;
            }
        }
    }
    q.queue(e);
    e
}

} // verus!

verus! {

/// Every event the queue holds exists in `events`.
pub open spec fn queue_in_graph(q: Queue, events: EventGraph) -> bool {
    &&& q.wf()
    &&& events.wf()
    &&& forall|k: int| 0 <= k < q@.len() ==> q@[k] < events@.len()
}

/// Enqueues writing `data` into `buffer` at `offset`, after the events of
/// `wait_list`.
pub fn enqueue_write_buffer(
    q: &mut Queue,
    events: &mut EventGraph,
    mems: &MemStore,
    buffer: usize,
    blocking_write: u64,
    offset: usize,
    data: Vec<u8>,
    wait_list: Vec<usize>,
) -> (r: Result<usize, i32>)
    requires
        queue_in_graph(*old(q), *old(events)),
    ensures
        queue_in_graph(*final(q), *final(events)),
        match write_buffer_error(old(q).context_spec(), old(events)@, mems@, buffer, blocking_write, offset, data@.len() as usize, wait_list@) {
            Some(e) => r == Err::<usize, i32>(e) && final(events)@ == old(events)@ && final(q)@ == old(q)@,
            None => r.is_ok() && enqueued(*old(q), *final(q), *old(events), *final(events), wait_list@, r.unwrap())
                && final(events)@.last().command == (Command::WriteBuffer { mem: buffer, offset, data }),
        },
{
    let block = match check_cl_bool(blocking_write) {
        Some(b) => b,
        None => return Err(CL_INVALID_VALUE),
    };
    if buffer >= mems.len() || !mems.is_buffer(buffer) {
        return Err(CL_INVALID_MEM_OBJECT);
    }
    let b = mems.get(buffer);
    if offset > b.size || data.len() > b.size - offset {
        return Err(CL_INVALID_VALUE);
    }
    let (valid, failed, same) = check_wait_list(events, &wait_list, q.context());
    if !valid {
        return Err(CL_INVALID_EVENT);
    }
    if b.context != q.context() || !same {
        return Err(CL_INVALID_CONTEXT);
    }
    if block && failed {
        return Err(CL_EXEC_STATUS_ERROR_FOR_EVENTS_IN_WAIT_LIST);
    }
    if b.flags & (CL_MEM_HOST_READ_ONLY | CL_MEM_HOST_NO_ACCESS) != 0 {
        return Err(CL_INVALID_OPERATION);
    }
    let e = submit(q, events, wait_list, Command::WriteBuffer { mem: buffer, offset, data });
    Ok(e)
}

} // verus!

verus! {

use crate::region::{
    check_copy_overlap, copy_overlaps, effective_row_pitch, effective_slice_pitch, pitches_valid,
    rect_fits, region_end, resolve_pitches, CLVec,
};

/// The error a rectangular read or write reports, if any, in the order the
/// checks run. `host_write` is true for reads, whose host writes the buffer's
/// bytes, and false for writes.
pub open spec fn rect_error(
    q_context: u64,
    events: Seq<crate::event::Event>,
    mems: Seq<crate::memory::Mem>,
    buffer: usize,
    blocking: u64,
    read: bool,
    buffer_origin: Seq<usize>,
    host_origin: Seq<usize>,
    region: Seq<usize>,
    buffer_row_pitch: usize,
    buffer_slice_pitch: usize,
    host_row_pitch: usize,
    host_slice_pitch: usize,
    host_len: usize,
    wl: Seq<usize>,
) -> Option<i32> {
    let brp = effective_row_pitch(region, buffer_row_pitch as int);
    let bsp = effective_slice_pitch(region, brp, buffer_slice_pitch as int);
    let hrp = effective_row_pitch(region, host_row_pitch as int);
    let hsp = effective_slice_pitch(region, hrp, host_slice_pitch as int);
    let denied = if read {
        CL_MEM_HOST_WRITE_ONLY | CL_MEM_HOST_NO_ACCESS
    } else {
        CL_MEM_HOST_READ_ONLY | CL_MEM_HOST_NO_ACCESS
    };
    if cl_bool_value(blocking).is_none() {
        Some(CL_INVALID_VALUE)
    } else if buffer >= mems.len() || mems[buffer as int].mem_type != CL_MEM_OBJECT_BUFFER {
        Some(CL_INVALID_MEM_OBJECT)
    } else if !wait_list_valid(events, wl) {
        Some(CL_INVALID_EVENT)
    } else if has(mems[buffer as int].flags, denied) {
        Some(CL_INVALID_OPERATION)
    } else if cl_bool_value(blocking) == Some(true) && wait_list_failed(events, wl) {
        Some(CL_EXEC_STATUS_ERROR_FOR_EVENTS_IN_WAIT_LIST)
    } else if !pitches_valid(region, buffer_row_pitch as int, buffer_slice_pitch as int, false)
        || !pitches_valid(region, host_row_pitch as int, host_slice_pitch as int, false) {
        Some(CL_INVALID_VALUE)
    } else if region_end(buffer_origin, 0, region, brp, bsp) > mems[buffer as int].size
        || region_end(host_origin, 0, region, hrp, hsp) > host_len {
        Some(CL_INVALID_VALUE)
    } else if mems[buffer as int].context != q_context || !wait_list_in_context(events, wl, q_context) {
        Some(CL_INVALID_CONTEXT)
    } else {
        None
    }
}

/// Validates a rectangular transfer's common part; on success returns the
/// resolved buffer and host pitches.
fn check_rect(
    q: &Queue,
    events: &EventGraph,
    mems: &MemStore,
    buffer: usize,
    blocking: u64,
    read: bool,
    buffer_origin: &CLVec,
    host_origin: &CLVec,
    region: &CLVec,
    buffer_row_pitch: usize,
    buffer_slice_pitch: usize,
    host_row_pitch: usize,
    host_slice_pitch: usize,
    host_len: usize,
    wl: &Vec<usize>,
) -> (r: Result<(usize, usize, usize, usize), i32>)
    ensures
        match rect_error(q.context_spec(), events@, mems@, buffer, blocking, read, buffer_origin@,
            host_origin@, region@, buffer_row_pitch, buffer_slice_pitch, host_row_pitch,
            host_slice_pitch, host_len, wl@) {
            Some(e) => r == Err::<(usize, usize, usize, usize), i32>(e),
            None => r.is_ok() && ({
                let (brp, bsp, hrp, hsp) = r.unwrap();
                &&& brp == effective_row_pitch(region@, buffer_row_pitch as int)
                &&& bsp == effective_slice_pitch(region@, brp as int, buffer_slice_pitch as int)
                &&& hrp == effective_row_pitch(region@, host_row_pitch as int)
                &&& hsp == effective_slice_pitch(region@, hrp as int, host_slice_pitch as int)
                &&& brp >= 1 && bsp >= 1 && hrp >= 1 && hsp >= 1
            }),
        },
{
    let block = match check_cl_bool(blocking) {
        Some(b) => b,
        None => return Err(CL_INVALID_VALUE),
    };
    if buffer >= mems.len() || !mems.is_buffer(buffer) {
        return Err(CL_INVALID_MEM_OBJECT);
    }
    let (valid, failed, same) = check_wait_list(events, wl, q.context());
    if !valid {
        return Err(CL_INVALID_EVENT);
    }
    let b = mems.get(buffer);
    let denied = if read {
        CL_MEM_HOST_WRITE_ONLY | CL_MEM_HOST_NO_ACCESS
    } else {
        CL_MEM_HOST_READ_ONLY | CL_MEM_HOST_NO_ACCESS
    };
    if b.flags & denied != 0 {
        return Err(CL_INVALID_OPERATION);
    }
    if block && failed {
        return Err(CL_EXEC_STATUS_ERROR_FOR_EVENTS_IN_WAIT_LIST);
    }
    let (brp, bsp) = match resolve_pitches(region, buffer_row_pitch, buffer_slice_pitch, false) {
        Ok(p) => p,
        Err(e) => return Err(e),
    };
    let (hrp, hsp) = match resolve_pitches(region, host_row_pitch, host_slice_pitch, false) {
        Ok(p) => p,
        Err(e) => return Err(e),
    };
    proof {
        let r = region@;
        assert(r[1] * brp >= 1 && r[1] * hrp >= 1) by (nonlinear_arith)
            requires r[1] >= 1, brp >= 1, hrp >= 1;
    }
    if !rect_fits(buffer_origin, region, brp, bsp, b.size) || !rect_fits(host_origin, region, hrp, hsp, host_len) {
        return Err(CL_INVALID_VALUE);
    }
    if b.context != q.context() || !same {
        return Err(CL_INVALID_CONTEXT);
    }
    Ok((brp, bsp, hrp, hsp))
}

/// Enqueues reading a rectangle of `buffer` into a host area of `host_len`
/// bytes, which the event's output holds once it has run.
pub fn enqueue_read_buffer_rect(
    q: &mut Queue,
    events: &mut EventGraph,
    mems: &MemStore,
    buffer: usize,
    blocking_read: u64,
    buffer_origin: &CLVec,
    host_origin: &CLVec,
    region: &CLVec,
    buffer_row_pitch: usize,
    buffer_slice_pitch: usize,
    host_row_pitch: usize,
    host_slice_pitch: usize,
    host_len: usize,
    wait_list: Vec<usize>,
) -> (r: Result<usize, i32>)
    requires
        queue_in_graph(*old(q), *old(events)),
    ensures
        queue_in_graph(*final(q), *final(events)),
        match rect_error(old(q).context_spec(), old(events)@, mems@, buffer, blocking_read, true,
            buffer_origin@, host_origin@, region@, buffer_row_pitch, buffer_slice_pitch,
            host_row_pitch, host_slice_pitch, host_len, wait_list@) {
            Some(e) => r == Err::<usize, i32>(e) && final(events)@ == old(events)@ && final(q)@ == old(q)@,
            None => {
                let brp = effective_row_pitch(region@, buffer_row_pitch as int);
                let hrp = effective_row_pitch(region@, host_row_pitch as int);
                &&& r.is_ok()
                &&& enqueued(*old(q), *final(q), *old(events), *final(events), wait_list@, r.unwrap())
                &&& final(events)@.last().command == (Command::ReadBufferRect {
                    mem: buffer,
                    host_len,
                    region: *region,
                    buffer_origin: *buffer_origin,
                    buffer_row_pitch: brp as usize,
                    buffer_slice_pitch: effective_slice_pitch(region@, brp, buffer_slice_pitch as int) as usize,
                    host_origin: *host_origin,
                    host_row_pitch: hrp as usize,
                    host_slice_pitch: effective_slice_pitch(region@, hrp, host_slice_pitch as int) as usize,
                })
            },
        },
{
    let (brp, bsp, hrp, hsp) = match check_rect(q, events, mems, buffer, blocking_read, true,
        buffer_origin, host_origin, region, buffer_row_pitch, buffer_slice_pitch, host_row_pitch,
        host_slice_pitch, host_len, &wait_list) {
        Ok(p) => p,
        Err(e) => return Err(e),
    };
    let cmd = Command::ReadBufferRect {
        mem: buffer,
        host_len,
        region: *region,
        buffer_origin: *buffer_origin,
        buffer_row_pitch: brp,
        buffer_slice_pitch: bsp,
        host_origin: *host_origin,
        host_row_pitch: hrp,
        host_slice_pitch: hsp,
    };
    Ok(submit(q, events, wait_list, cmd))
}

/// Enqueues writing a rectangle of the host bytes `data` into `buffer`.
pub fn enqueue_write_buffer_rect(
    q: &mut Queue,
    events: &mut EventGraph,
    mems: &MemStore,
    buffer: usize,
    blocking_write: u64,
    buffer_origin: &CLVec,
    host_origin: &CLVec,
    region: &CLVec,
    buffer_row_pitch: usize,
    buffer_slice_pitch: usize,
    host_row_pitch: usize,
    host_slice_pitch: usize,
    data: Vec<u8>,
    wait_list: Vec<usize>,
) -> (r: Result<usize, i32>)
    requires
        queue_in_graph(*old(q), *old(events)),
    ensures
        queue_in_graph(*final(q), *final(events)),
        match rect_error(old(q).context_spec(), old(events)@, mems@, buffer, blocking_write, false,
            buffer_origin@, host_origin@, region@, buffer_row_pitch, buffer_slice_pitch,
            host_row_pitch, host_slice_pitch, data@.len() as usize, wait_list@) {
            Some(e) => r == Err::<usize, i32>(e) && final(events)@ == old(events)@ && final(q)@ == old(q)@,
            None => {
                let brp = effective_row_pitch(region@, buffer_row_pitch as int);
                let hrp = effective_row_pitch(region@, host_row_pitch as int);
                &&& r.is_ok()
                &&& enqueued(*old(q), *final(q), *old(events), *final(events), wait_list@, r.unwrap())
                &&& final(events)@.last().command == (Command::WriteBufferRect {
                    mem: buffer,
                    data,
                    region: *region,
                    host_origin: *host_origin,
                    host_row_pitch: hrp as usize,
                    host_slice_pitch: effective_slice_pitch(region@, hrp, host_slice_pitch as int) as usize,
                    buffer_origin: *buffer_origin,
                    buffer_row_pitch: brp as usize,
                    buffer_slice_pitch: effective_slice_pitch(region@, brp, buffer_slice_pitch as int) as usize,
                })
            },
        },
{
    let (brp, bsp, hrp, hsp) = match check_rect(q, events, mems, buffer, blocking_write, false,
        buffer_origin, host_origin, region, buffer_row_pitch, buffer_slice_pitch, host_row_pitch,
        host_slice_pitch, data.len(), &wait_list) {
        Ok(p) => p,
        Err(e) => return Err(e),
    };
    let cmd = Command::WriteBufferRect {
        mem: buffer,
        data,
        region: *region,
        host_origin: *host_origin,
        host_row_pitch: hrp,
        host_slice_pitch: hsp,
        buffer_origin: *buffer_origin,
        buffer_row_pitch: brp,
        buffer_slice_pitch: bsp,
    };
    Ok(submit(q, events, wait_list, cmd))
}

} // verus!

verus! {

/// The error `enqueue_copy_buffer_rect` reports, if any, in the order the
/// checks run. The overlap test applies the source pitches to both regions; a
/// destination whose extent under them passes the end of the address space is
/// not tested.
pub open spec fn copy_rect_error(
    q_context: u64,
    events: Seq<crate::event::Event>,
    mems: Seq<crate::memory::Mem>,
    src: usize,
    dst: usize,
    src_origin: Seq<usize>,
    dst_origin: Seq<usize>,
    region: Seq<usize>,
    src_row_pitch: usize,
    src_slice_pitch: usize,
    dst_row_pitch: usize,
    dst_slice_pitch: usize,
    wl: Seq<usize>,
) -> Option<i32> {
    let srp = effective_row_pitch(region, src_row_pitch as int);
    let ssp = effective_slice_pitch(region, srp, src_slice_pitch as int);
    let drp = effective_row_pitch(region, dst_row_pitch as int);
    let dsp = effective_slice_pitch(region, drp, dst_slice_pitch as int);
    if src >= mems.len() || dst >= mems.len() || mems[src as int].mem_type != CL_MEM_OBJECT_BUFFER
        || mems[dst as int].mem_type != CL_MEM_OBJECT_BUFFER {
        Some(CL_INVALID_MEM_OBJECT)
    } else if !wait_list_valid(events, wl) {
        Some(CL_INVALID_EVENT)
    } else if !pitches_valid(region, src_row_pitch as int, src_slice_pitch as int, true)
        || !pitches_valid(region, dst_row_pitch as int, dst_slice_pitch as int, true) {
        Some(CL_INVALID_VALUE)
    } else if src == dst && ssp != dsp && srp != drp {
        Some(CL_INVALID_VALUE)
    } else if region_end(src_origin, 0, region, srp, ssp) > mems[src as int].size || region_end(
        dst_origin,
        0,
        region,
        drp,
        dsp,
    ) > mems[dst as int].size {
        Some(CL_INVALID_VALUE)
    } else if mems[src as int].root_of(src as int) == mems[dst as int].root_of(dst as int)
        && region_end(dst_origin, mems[dst as int].offset as int, region, srp, ssp) <= usize::MAX
        && copy_overlaps(
        src_origin,
        mems[src as int].offset as int,
        dst_origin,
        mems[dst as int].offset as int,
        region,
        srp,
        ssp,
    ) {
        Some(crate::cl::CL_MEM_COPY_OVERLAP)
    } else if mems[src as int].context != q_context || mems[dst as int].context != q_context
        || !wait_list_in_context(events, wl, q_context) {
        Some(CL_INVALID_CONTEXT)
    } else {
        None
    }
}

/// Enqueues copying a rectangle from buffer `src` to buffer `dst`; refuses
/// regions that overlap within one parent.
pub fn enqueue_copy_buffer_rect(
    q: &mut Queue,
    events: &mut EventGraph,
    mems: &MemStore,
    src: usize,
    dst: usize,
    src_origin: &CLVec,
    dst_origin: &CLVec,
    region: &CLVec,
    src_row_pitch: usize,
    src_slice_pitch: usize,
    dst_row_pitch: usize,
    dst_slice_pitch: usize,
    wait_list: Vec<usize>,
) -> (r: Result<usize, i32>)
    requires
        queue_in_graph(*old(q), *old(events)),
        mems.wf(),
    ensures
        queue_in_graph(*final(q), *final(events)),
        match copy_rect_error(old(q).context_spec(), old(events)@, mems@, src, dst, src_origin@,
            dst_origin@, region@, src_row_pitch, src_slice_pitch, dst_row_pitch, dst_slice_pitch,
            wait_list@) {
            Some(e) => r == Err::<usize, i32>(e) && final(events)@ == old(events)@ && final(q)@ == old(q)@,
            None => {
                let srp = effective_row_pitch(region@, src_row_pitch as int);
                let drp = effective_row_pitch(region@, dst_row_pitch as int);
                &&& r.is_ok()
                &&& enqueued(*old(q), *final(q), *old(events), *final(events), wait_list@, r.unwrap())
                &&& final(events)@.last().command == (Command::CopyBufferRect {
                    src,
                    dst,
                    region: *region,
                    src_origin: *src_origin,
                    src_row_pitch: srp as usize,
                    src_slice_pitch: effective_slice_pitch(region@, srp, src_slice_pitch as int) as usize,
                    dst_origin: *dst_origin,
                    dst_row_pitch: drp as usize,
                    dst_slice_pitch: effective_slice_pitch(region@, drp, dst_slice_pitch as int) as usize,
                })
            },
        },
{
    if src >= mems.len() || dst >= mems.len() || !mems.is_buffer(src) || !mems.is_buffer(dst) {
        return Err(CL_INVALID_MEM_OBJECT);
    }
    let (valid, _failed, same) = check_wait_list(events, &wait_list, q.context());
    if !valid {
        return Err(CL_INVALID_EVENT);
    }
    let (srp, ssp) = match resolve_pitches(region, src_row_pitch, src_slice_pitch, true) {
        Ok(p) => p,
        Err(e) => return Err(e),
    };
    let (drp, dsp) = match resolve_pitches(region, dst_row_pitch, dst_slice_pitch, true) {
        Ok(p) => p,
        Err(e) => return Err(e),
    };
    if src == dst && ssp != dsp && srp != drp {
        return Err(CL_INVALID_VALUE);
    }
    proof {
        let r = region@;
        assert(r[1] * srp >= 1 && r[1] * drp >= 1) by (nonlinear_arith)
            requires r[1] >= 1, srp >= 1, drp >= 1;
    }
    let s = mems.get(src);
    let d = mems.get(dst);
    if !rect_fits(src_origin, region, srp, ssp, s.size) || !rect_fits(dst_origin, region, drp, dsp, d.size) {
        return Err(CL_INVALID_VALUE);
    }
    proof {
        mems.lemma_extent(src as int);
        mems.lemma_extent(dst as int);
    }
    if mems.has_same_parent(src, dst) && rect_fits(dst_origin, region, srp, ssp, usize::MAX - d.offset)
        && check_copy_overlap(src_origin, s.offset, dst_origin, d.offset, region, srp, ssp) {
        return Err(crate::cl::CL_MEM_COPY_OVERLAP);
    }
    if s.context != q.context() || d.context != q.context() || !same {
        return Err(CL_INVALID_CONTEXT);
    }
    let cmd = Command::CopyBufferRect {
        src,
        dst,
        region: *region,
        src_origin: *src_origin,
        src_row_pitch: srp,
        src_slice_pitch: ssp,
        dst_origin: *dst_origin,
        dst_row_pitch: drp,
        dst_slice_pitch: dsp,
    };
    Ok(submit(q, events, wait_list, cmd))
}

} // verus!

verus! {

use crate::pipe::PipeContext;
use crate::event::batch_outcome;
use crate::memory::shape_kept;
use crate::flags::{map_flags_valid, validate_map_flags};
use crate::cl::{CL_MAP_FAILURE, CL_MAP_READ, CL_MAP_WRITE, CL_MAP_WRITE_INVALIDATE_REGION, CL_OUT_OF_HOST_MEMORY};

/// Hands the queue's pending events to the worker as one batch, in
/// submission order.
pub fn flush_queue(q: &mut Queue) -> (r: Vec<usize>)
    requires
        old(q).wf(),
    ensures
        final(q).wf(),
        r@ == old(q)@,
        crate::event::distinct(r@),
        final(q)@.len() == 0,
        final(q).context_spec() == old(q).context_spec(),
        final(q).device_spec() == old(q).device_spec(),
{
    q.flush()
}

/// Flushes the queue and drains the batch on the worker's side. Events from
/// the first one still waiting for a dependency on another queue stay
/// pending, in order. Returns how many events were handled and which commands
/// ran.
pub fn finish_queue(q: &mut Queue, events: &mut EventGraph, mems: &mut MemStore, pipe: &mut PipeContext) -> (r: (usize, Vec<usize>))
    requires
        queue_in_graph(*old(q), *old(events)),
        old(mems).wf(),
    ensures
        queue_in_graph(*final(q), *final(events)),
        r.0 <= old(q)@.len(),
        final(q)@ == old(q)@.skip(r.0 as int),
        final(q).context_spec() == old(q).context_spec(),
        final(q).device_spec() == old(q).device_spec(),
        final(mems).wf(),
        shape_kept(old(mems)@, final(mems)@),
        final(mems).next_addr_spec() == old(mems).next_addr_spec(),
        batch_outcome(old(events)@, final(events)@, old(mems)@, old(q)@, r.0 as int, r.1@),
        (forall|k: int| 0 <= k < old(q)@.len() ==> old(events)@[(#[trigger] old(q)@[k]) as int].command is Trivial)
            ==> final(pipe).calls@ == old(pipe).calls@,
{
    let mut batch = q.flush();
    let (n, log) = events.run_batch(&batch, mems, pipe);
    let ghost all = batch@;
    let tail = batch.split_off(n);
    proof {
        assert(tail@ =~= all.skip(n as int));
        assert forall|a: int, b: int| 0 <= a < b < tail@.len() implies tail@[a] != tail@[b] by {
            assert(tail@[a] == all[a + n] && tail@[b] == all[b + n]);
        }
    }
    q.restore(tail);
    (n, log)
}

/// The error `enqueue_map_buffer` reports, if any, in the order the checks
/// run. Only blocking maps without a wait list are provided.
pub open spec fn map_buffer_error(
    q_context: u64,
    events: Seq<crate::event::Event>,
    mems: Seq<crate::memory::Mem>,
    buffer: usize,
    blocking: u64,
    map_flags: u64,
    offset: usize,
    size: usize,
    wl: Seq<usize>,
) -> Option<i32> {
    if buffer >= mems.len() {
        Some(CL_INVALID_MEM_OBJECT)
    } else if cl_bool_value(blocking).is_none() {
        Some(CL_INVALID_VALUE)
    } else if offset + size > mems[buffer as int].size || size == 0 {
        Some(CL_INVALID_VALUE)
    } else if !map_flags_valid(map_flags) {
        Some(CL_INVALID_VALUE)
    } else if (has(mems[buffer as int].flags, CL_MEM_HOST_WRITE_ONLY | CL_MEM_HOST_NO_ACCESS) && has(
        map_flags,
        CL_MAP_READ,
    )) || (has(mems[buffer as int].flags, CL_MEM_HOST_READ_ONLY | CL_MEM_HOST_NO_ACCESS) && has(
        map_flags,
        CL_MAP_WRITE | CL_MAP_WRITE_INVALIDATE_REGION,
    )) {
        Some(CL_INVALID_OPERATION)
    } else if !wait_list_valid(events, wl) {
        Some(CL_INVALID_EVENT)
    } else if cl_bool_value(blocking) == Some(true) && wait_list_failed(events, wl) {
        Some(CL_EXEC_STATUS_ERROR_FOR_EVENTS_IN_WAIT_LIST)
    } else if mems[buffer as int].context != q_context || !wait_list_in_context(events, wl, q_context) {
        Some(CL_INVALID_CONTEXT)
    } else if cl_bool_value(blocking) == Some(false) || wl.len() > 0 {
        Some(CL_MAP_FAILURE)
    } else {
        None
    }
}

/// Maps `size` bytes of `buffer` from `offset` after finishing the queue;
/// returns the mapping's address. When the queue cannot finish because an
/// event waits for another queue, nothing is mapped, the rest of the queue
/// stays pending, and the map fails.
pub fn enqueue_map_buffer(
    q: &mut Queue,
    events: &mut EventGraph,
    mems: &mut MemStore,
    pipe: &mut PipeContext,
    buffer: usize,
    blocking_map: u64,
    map_flags: u64,
    offset: usize,
    size: usize,
    wait_list: Vec<usize>,
) -> (r: Result<usize, i32>)
    requires
        queue_in_graph(*old(q), *old(events)),
        old(mems).wf(),
    ensures
        queue_in_graph(*final(q), *final(events)),
        final(mems).wf(),
        final(mems)@.len() == old(mems)@.len(),
        match map_buffer_error(old(q).context_spec(), old(events)@, old(mems)@, buffer, blocking_map,
            map_flags, offset, size, wait_list@) {
            Some(e) => r == Err::<usize, i32>(e) && final(events)@ == old(events)@ && final(q)@ == old(q)@
                && final(mems)@ == old(mems)@,
            None => exists|n: int, log: Seq<usize>| {
                &&& #[trigger] batch_outcome(old(events)@, final(events)@, old(mems)@, old(q)@, n, log)
                &&& final(q)@ == old(q)@.skip(n)
                &&& n < old(q)@.len() ==> r == Err::<usize, i32>(CL_MAP_FAILURE)
                &&& n == old(q)@.len() ==> {
                    &&& r.is_ok() <==> old(mems).next_addr_spec() != usize::MAX
                    &&& r.is_ok() ==> final(mems)@[buffer as int].maps@.last() == (r.unwrap(), crate::memory::Mapping { offset, size })
                    &&& r.is_err() ==> r == Err::<usize, i32>(CL_OUT_OF_HOST_MEMORY)
                }
            },
        },
{
    if buffer >= mems.len() {
        return Err(CL_INVALID_MEM_OBJECT);
    }
    let block = match check_cl_bool(blocking_map) {
        Some(b) => b,
        None => return Err(CL_INVALID_VALUE),
    };
    let bsize = mems.get(buffer).size;
    let bflags = mems.get(buffer).flags;
    let bctx = mems.get(buffer).context;
    if offset > bsize || size > bsize - offset || size == 0 {
        return Err(CL_INVALID_VALUE);
    }
    if validate_map_flags(map_flags).is_err() {
        return Err(CL_INVALID_VALUE);
    }
    if (bflags & (CL_MEM_HOST_WRITE_ONLY | CL_MEM_HOST_NO_ACCESS) != 0 && map_flags & CL_MAP_READ != 0)
        || (bflags & (CL_MEM_HOST_READ_ONLY | CL_MEM_HOST_NO_ACCESS) != 0 && map_flags & (CL_MAP_WRITE
        | CL_MAP_WRITE_INVALIDATE_REGION) != 0) {
        return Err(CL_INVALID_OPERATION);
    }
    let (valid, failed, same) = check_wait_list(events, &wait_list, q.context());
    if !valid {
        return Err(CL_INVALID_EVENT);
    }
    if block && failed {
        return Err(CL_EXEC_STATUS_ERROR_FOR_EVENTS_IN_WAIT_LIST);
    }
    if bctx != q.context() || !same {
        return Err(CL_INVALID_CONTEXT);
    }
    if !block || wait_list.len() > 0 {
        return Err(CL_MAP_FAILURE);
    }
    let pending = q.len();
    let (n, log) = finish_queue(q, events, mems, pipe);
    if n < pending {
        assert(batch_outcome(old(events)@, events@, old(mems)@, old(q)@, n as int, log@));
        return Err(CL_MAP_FAILURE);
    }
    let r = mems.map(buffer, offset, size);
    assert(batch_outcome(old(events)@, events@, old(mems)@, old(q)@, n as int, log@));
    r
}

/// Removes the mapping of `memobj` at `mapped_ptr`. Only calls without a wait
/// list are provided; one with a wait list fails before anything changes.
pub fn enqueue_unmap_mem_object(
    q: &Queue,
    events: &EventGraph,
    mems: &mut MemStore,
    memobj: usize,
    mapped_ptr: usize,
    wait_list: &Vec<usize>,
) -> (r: Result<(), i32>)
    requires
        old(mems).wf(),
    ensures
        final(mems).wf(),
        final(mems)@.len() == old(mems)@.len(),
        memobj >= old(mems)@.len() ==> r == Err::<(), i32>(CL_INVALID_MEM_OBJECT),
        memobj < old(mems)@.len() ==> {
            let m = old(mems)@[memobj as int];
            let mapped = exists|k: int| 0 <= k < m.maps@.len() && #[trigger] m.maps@[k].0 == mapped_ptr;
            if !wait_list_valid(events@, wait_list@) {
                r == Err::<(), i32>(CL_INVALID_EVENT) && final(mems)@ == old(mems)@
            } else if m.context != q.context_spec() || !wait_list_in_context(events@, wait_list@, q.context_spec()) {
                r == Err::<(), i32>(CL_INVALID_CONTEXT) && final(mems)@ == old(mems)@
            } else if wait_list@.len() > 0 {
                r == Err::<(), i32>(CL_OUT_OF_HOST_MEMORY) && final(mems)@ == old(mems)@
            } else if !mapped {
                r == Err::<(), i32>(CL_INVALID_VALUE) && final(mems)@ == old(mems)@
            } else {
                &&& r == Ok::<(), i32>(())
                &&& exists|k: int|
                    0 <= k < m.maps@.len() && m.maps@[k].0 == mapped_ptr && final(mems)@[memobj as int].maps@
                        == m.maps@.remove(k)
            }
        },
{
    if memobj >= mems.len() {
        return Err(CL_INVALID_MEM_OBJECT);
    }
    let (valid, _failed, same) = check_wait_list(events, wait_list, q.context());
    if !valid {
        return Err(CL_INVALID_EVENT);
    }
    if mems.get(memobj).context != q.context() || !same {
        return Err(CL_INVALID_CONTEXT);
    }
    if wait_list.len() > 0 {
        return Err(CL_OUT_OF_HOST_MEMORY);
    }
    if !mems.unmap(memobj, mapped_ptr) {
        return Err(CL_INVALID_VALUE);
    }
    Ok(())
}

} // verus!

verus! {

use crate::context::{Context, Device};
use crate::kernel::{launch_error, plan_for, Kernel};
use crate::cl::{
    CL_INVALID_DEVICE, CL_INVALID_GLOBAL_OFFSET, CL_INVALID_GLOBAL_WORK_SIZE,
    CL_INVALID_KERNEL_ARGS, CL_INVALID_PROGRAM_EXECUTABLE, CL_INVALID_QUEUE_PROPERTIES,
    CL_INVALID_WORK_DIMENSION, CL_INVALID_WORK_ITEM_SIZE, CL_QUEUE_OUT_OF_ORDER_EXEC_MODE_ENABLE,
    CL_QUEUE_PROFILING_ENABLE,
};

/// Enqueues a marker: an event with no work and no dependencies.
pub fn enqueue_marker(q: &mut Queue, events: &mut EventGraph) -> (r: usize)
    requires
        queue_in_graph(*old(q), *old(events)),
    ensures
        queue_in_graph(*final(q), *final(events)),
        enqueued(*old(q), *final(q), *old(events), *final(events), Seq::empty(), r),
        final(events)@.last().command == Command::Trivial,
{
    let wl: Vec<usize> = Vec::new();
    assert(wl@ =~= Seq::<usize>::empty());
    submit(q, events, wl, Command::Trivial)
}

/// Enqueues a marker that waits for `wait_list`.
pub fn enqueue_marker_with_wait_list(q: &mut Queue, events: &mut EventGraph, wait_list: Vec<usize>) -> (r: Result<usize, i32>)
    requires
        queue_in_graph(*old(q), *old(events)),
    ensures
        queue_in_graph(*final(q), *final(events)),
        !wait_list_valid(old(events)@, wait_list@) ==> r == Err::<usize, i32>(CL_INVALID_EVENT)
            && final(events)@ == old(events)@ && final(q)@ == old(q)@,
        wait_list_valid(old(events)@, wait_list@) ==> r.is_ok() && enqueued(*old(q), *final(q), *old(events),
            *final(events), wait_list@, r.unwrap()) && final(events)@.last().command == Command::Trivial,
{
    let (valid, _f, _s) = check_wait_list(events, &wait_list, q.context());
    if !valid {
        return Err(CL_INVALID_EVENT);
    }
    Ok(submit(q, events, wait_list, Command::Trivial))
}

/// Enqueues a barrier: like a marker, an event with no work.
pub fn enqueue_barrier(q: &mut Queue, events: &mut EventGraph) -> (r: usize)
    requires
        queue_in_graph(*old(q), *old(events)),
    ensures
        queue_in_graph(*final(q), *final(events)),
        enqueued(*old(q), *final(q), *old(events), *final(events), Seq::empty(), r),
        final(events)@.last().command == Command::Trivial,
{
    enqueue_marker(q, events)
}

/// Enqueues a barrier that waits for `wait_list`.
pub fn enqueue_barrier_with_wait_list(q: &mut Queue, events: &mut EventGraph, wait_list: Vec<usize>) -> (r: Result<usize, i32>)
    requires
        queue_in_graph(*old(q), *old(events)),
    ensures
        queue_in_graph(*final(q), *final(events)),
        !wait_list_valid(old(events)@, wait_list@) ==> r == Err::<usize, i32>(CL_INVALID_EVENT)
            && final(events)@ == old(events)@ && final(q)@ == old(q)@,
        wait_list_valid(old(events)@, wait_list@) ==> r.is_ok() && enqueued(*old(q), *final(q), *old(events),
            *final(events), wait_list@, r.unwrap()) && final(events)@.last().command == Command::Trivial,
{
    enqueue_marker_with_wait_list(q, events, wait_list)
}

/// Whether queue properties name only out-of-order execution and profiling.
pub fn valid_command_queue_properties(properties: u64) -> (r: bool)
    ensures
        r == (properties & !(CL_QUEUE_OUT_OF_ORDER_EXEC_MODE_ENABLE | CL_QUEUE_PROFILING_ENABLE) == 0),
{
    properties & !(CL_QUEUE_OUT_OF_ORDER_EXEC_MODE_ENABLE | CL_QUEUE_PROFILING_ENABLE) == 0
}

/// Whether queue properties name only profiling, the one property provided.
pub fn supported_command_queue_properties(properties: u64) -> (r: bool)
    ensures
        r == (properties & !CL_QUEUE_PROFILING_ENABLE == 0),
{
    properties & !CL_QUEUE_PROFILING_ENABLE == 0
}

/// Creates a queue on device `device` of `ctx`.
pub fn create_command_queue(ctx: &Context, device: usize, properties: u64) -> (r: Result<Queue, i32>)
    ensures
        device >= ctx.devs@.len() ==> r == Err::<Queue, i32>(CL_INVALID_DEVICE),
        device < ctx.devs@.len() && properties & !(CL_QUEUE_OUT_OF_ORDER_EXEC_MODE_ENABLE
            | CL_QUEUE_PROFILING_ENABLE) != 0 ==> r == Err::<Queue, i32>(CL_INVALID_VALUE),
        device < ctx.devs@.len() && properties & !(CL_QUEUE_OUT_OF_ORDER_EXEC_MODE_ENABLE
            | CL_QUEUE_PROFILING_ENABLE) == 0 && properties & !CL_QUEUE_PROFILING_ENABLE != 0 ==> r
            == Err::<Queue, i32>(CL_INVALID_QUEUE_PROPERTIES),
        device < ctx.devs@.len() && properties & !CL_QUEUE_PROFILING_ENABLE == 0 ==> {
            &&& r.is_ok()
            &&& r.unwrap().wf()
            &&& r.unwrap()@.len() == 0
            &&& r.unwrap().context_spec() == ctx.id
            &&& r.unwrap().device_spec() == device
            &&& r.unwrap().props_spec() == properties
        },
{
    if device >= ctx.devs.len() {
        return Err(CL_INVALID_DEVICE);
    }
    proof {
        assert(properties & !2u64 == 0 ==> properties & !(1u64 | 2u64) == 0) by (bit_vector);
    }
    if !valid_command_queue_properties(properties) {
        return Err(CL_INVALID_VALUE);
    }
    if !supported_command_queue_properties(properties) {
        return Err(CL_INVALID_QUEUE_PROPERTIES);
    }
    Ok(Queue::new(ctx.id, device, properties))
}

} // verus!

verus! {

/// A work-size array as given, or three zeros when none is given.
pub open spec fn work_arr(a: Option<Seq<usize>>) -> Seq<usize> {
    match a {
        Some(v) => v,
        None => seq![0usize, 0usize, 0usize],
    }
}

/// On a device with 32-bit addresses, the first dimension whose global size,
/// or global size plus offset, passes `u32::MAX`, as its error.
pub open spec fn addr32_error(global: Seq<usize>, offset: Seq<usize>, i: nat) -> Option<i32>
    decreases global.len() - i,
{
    if i >= global.len() || i >= offset.len() {
        None
    } else if global[i as int] > u32::MAX {
        Some(CL_INVALID_GLOBAL_WORK_SIZE)
    } else if global[i as int] + offset[i as int] > u32::MAX {
        Some(CL_INVALID_GLOBAL_OFFSET)
    } else {
        addr32_error(global, offset, i + 1)
    }
}

/// The error `enqueue_ndrange_kernel` reports, if any, in the order the checks
/// run.
pub open spec fn ndrange_error(
    q_context: u64,
    events: Seq<crate::event::Event>,
    mems: Seq<crate::memory::Mem>,
    k: Kernel,
    dev: Device,
    built: bool,
    work_dim: u32,
    offset: Option<Seq<usize>>,
    global: Option<Seq<usize>>,
    local: Option<Seq<usize>>,
    wl: Seq<usize>,
    shared: u32,
) -> Option<i32> {
    let g = work_arr(global);
    let o = work_arr(offset);
    let l = work_arr(local);
    if !wait_list_valid(events, wl) {
        Some(CL_INVALID_EVENT)
    } else if q_context != k.context {
        Some(CL_INVALID_CONTEXT)
    } else if !built {
        Some(CL_INVALID_PROGRAM_EXECUTABLE)
    } else if exists|i: int| 0 <= i < k.values@.len() && (#[trigger] k.values@[i]).is_none() {
        Some(CL_INVALID_KERNEL_ARGS)
    } else if work_dim == 0 || work_dim > dev.max_grid_dimensions || work_dim > 3 {
        Some(CL_INVALID_WORK_DIMENSION)
    } else if (global.is_some() && g.len() != work_dim) || (offset.is_some() && o.len() != work_dim)
        || (local.is_some() && l.len() != work_dim) {
        Some(CL_INVALID_VALUE)
    } else if dev.address_bits == 32 && addr32_error(g, o, 0).is_some() {
        addr32_error(g, o, 0)
    } else if exists|i: int| 0 <= i < l.len() && (#[trigger] l[i]) > dev.max_block_sizes@[i] {
        Some(CL_INVALID_WORK_ITEM_SIZE)
    } else if g.contains(0) {
        None
    } else {
        launch_error(k, mems, l, g, o, shared)
    }
}

fn arr_or_zeros(a: Option<Vec<usize>>) -> (r: Vec<usize>)
    ensures
        r@ == work_arr(match a {
            Some(v) => Some(v@),
            None => None,
        }),
{
    match a {
        Some(v) => v,
        None => {
            let mut z: Vec<usize> = Vec::new();
            z.push(0);
            z.push(0);
            z.push(0);
            assert(z@ =~= seq![0usize, 0usize, 0usize]);
            z
        },
    }
}

fn all_values_set(k: &Kernel) -> (r: bool)
    ensures
        r == forall|j: int| 0 <= j < k.values@.len() ==> (#[trigger] k.values@[j]).is_some(),
{
    let mut i: usize = 0;
    while i < k.values.len()
        invariant
            i <= k.values@.len(),
            forall|j: int| 0 <= j < i ==> (#[trigger] k.values@[j]).is_some(),
        decreases k.values@.len() - i,
    {
        if k.values[i].is_none() {
            return false;
        }
        i = i + 1;
    }
    true
}

fn within_block_limits(l: &Vec<usize>, dev: &Device) -> (r: bool)
    requires
        l@.len() <= 3,
    ensures
        r == forall|x: int| 0 <= x < l@.len() ==> (#[trigger] l@[x]) <= dev.max_block_sizes@[x],
{
    let mut j: usize = 0;
    while j < l.len()
        invariant
            j <= l@.len(),
            l@.len() <= 3,
            forall|x: int| 0 <= x < j ==> (#[trigger] l@[x]) <= dev.max_block_sizes@[x],
        decreases l@.len() - j,
    {
        if l[j] > dev.max_block_sizes[j] {
            return false;
        }
        j = j + 1;
    }
    true
}

fn has_zero(g: &Vec<usize>) -> (r: bool)
    ensures
        r == g@.contains(0),
{
    let mut x: usize = 0;
    while x < g.len()
        invariant
            x <= g@.len(),
            forall|y: int| 0 <= y < x ==> g@[y] != 0,
        decreases g@.len() - x,
    {
        if g[x] == 0 {
            return true;
        }
        x = x + 1;
    }
    false
}

fn check_addr32(global: &Vec<usize>, offset: &Vec<usize>) -> (r: Option<i32>)
    ensures
        r == addr32_error(global@, offset@, 0),
{
    let mut i: usize = 0;
    while i < global.len() && i < offset.len()
        invariant
            i <= global@.len(),
            addr32_error(global@, offset@, 0) == addr32_error(global@, offset@, i as nat),
        decreases global@.len() - i,
    {
        if global[i] > u32::MAX as usize {
            return Some(CL_INVALID_GLOBAL_WORK_SIZE);
        }
        if offset[i] > u32::MAX as usize - global[i] {
            return Some(CL_INVALID_GLOBAL_OFFSET);
        }
        i = i + 1;
    }
    None
}

/// Enqueues a launch of `k` on the queue's device `dev`, whose program built
/// for it when `built`. A global size with a zero in it enqueues an event
/// that succeeds without touching the backend.
pub fn enqueue_ndrange_kernel(
    q: &mut Queue,
    events: &mut EventGraph,
    mems: &MemStore,
    k: &Kernel,
    dev: &Device,
    built: bool,
    work_dim: u32,
    global_work_offset: Option<Vec<usize>>,
    global_work_size: Option<Vec<usize>>,
    local_work_size: Option<Vec<usize>>,
    wait_list: Vec<usize>,
    shared: u32,
    constants: Vec<u8>,
) -> (r: Result<usize, i32>)
    requires
        queue_in_graph(*old(q), *old(events)),
        k.wf(),
        1 <= dev.max_block_sizes@[0] <= u32::MAX,
    ensures
        queue_in_graph(*final(q), *final(events)),
        ({
            let o = match global_work_offset { Some(v) => Some(v@), None => None };
            let g = match global_work_size { Some(v) => Some(v@), None => None };
            let l = match local_work_size { Some(v) => Some(v@), None => None };
            match ndrange_error(old(q).context_spec(), old(events)@, mems@, *k, *dev, built, work_dim,
                o, g, l, wait_list@, shared) {
                Some(e) => r == Err::<usize, i32>(e) && final(events)@ == old(events)@ && final(q)@
                    == old(q)@,
                None => {
                    &&& r.is_ok()
                    &&& enqueued(*old(q), *final(q), *old(events), *final(events), wait_list@, r.unwrap())
                    &&& work_arr(g).contains(0) ==> final(events)@.last().command == Command::Trivial
                    &&& !work_arr(g).contains(0) ==> {
                        let c = final(events)@.last().command;
                        &&& c is Launch
                        &&& plan_for(c->Launch_0, *k, mems@, dev.max_block_sizes@[0] as u32,
                            dev.printf_buffer_size, work_dim, work_arr(l), work_arr(g), work_arr(o),
                            shared, constants@)
                    }
                },
            }
        }),
{
    let (valid, _f, _s) = check_wait_list(events, &wait_list, q.context());
    if !valid {
        return Err(CL_INVALID_EVENT);
    }
    if q.context() != k.context {
        return Err(CL_INVALID_CONTEXT);
    }
    if !built {
        return Err(CL_INVALID_PROGRAM_EXECUTABLE);
    }
    if !all_values_set(k) {
        return Err(CL_INVALID_KERNEL_ARGS);
    }
    if work_dim == 0 || work_dim > dev.max_grid_dimensions || work_dim > 3 {
        return Err(CL_INVALID_WORK_DIMENSION);
    }
    let bad_len = match &global_work_size { Some(v) => v.len() != work_dim as usize, None => false }
        || match &global_work_offset { Some(v) => v.len() != work_dim as usize, None => false }
        || match &local_work_size { Some(v) => v.len() != work_dim as usize, None => false };
    if bad_len {
        return Err(CL_INVALID_VALUE);
    }
    let g = arr_or_zeros(global_work_size);
    let o = arr_or_zeros(global_work_offset);
    let l = arr_or_zeros(local_work_size);
    if dev.address_bits == 32 {
        if let Some(e) = check_addr32(&g, &o) {
            return Err(e);
        }
    }
    if !within_block_limits(&l, dev) {
        return Err(CL_INVALID_WORK_ITEM_SIZE);
    }
    let zero = has_zero(&g);
    let cmd = if zero {
        Command::Trivial
    } else {
        match k.launch(mems, dev.max_block_sizes[0] as u32, dev.printf_buffer_size, work_dim, &l, &g,
            &o, shared, constants) {
            Ok(p) => Command::Launch(p),
            Err(e) => return Err(e),
        }
    };
    Ok(submit(q, events, wait_list, cmd))
}

/// Enqueues a single work-item launch of `k`.
pub fn enqueue_task(
    q: &mut Queue,
    events: &mut EventGraph,
    mems: &MemStore,
    k: &Kernel,
    dev: &Device,
    built: bool,
    wait_list: Vec<usize>,
    shared: u32,
    constants: Vec<u8>,
) -> (r: Result<usize, i32>)
    requires
        queue_in_graph(*old(q), *old(events)),
        k.wf(),
        1 <= dev.max_block_sizes@[0] <= u32::MAX,
    ensures
        queue_in_graph(*final(q), *final(events)),
        match ndrange_error(old(q).context_spec(), old(events)@, mems@, *k, *dev, built, 1, None,
            Some(seq![1usize]), Some(seq![1usize]), wait_list@, shared) {
            Some(e) => r == Err::<usize, i32>(e) && final(events)@ == old(events)@ && final(q)@ == old(q)@,
            None => {
                let c = final(events)@.last().command;
                &&& r.is_ok()
                &&& enqueued(*old(q), *final(q), *old(events), *final(events), wait_list@, r.unwrap())
                &&& c is Launch
                &&& plan_for(c->Launch_0, *k, mems@, dev.max_block_sizes@[0] as u32,
                    dev.printf_buffer_size, 1, seq![1usize], seq![1usize], seq![0usize, 0usize, 0usize],
                    shared, constants@)
            },
        },
{
    let mut one: Vec<usize> = Vec::new();
    one.push(1);
    let mut one2: Vec<usize> = Vec::new();
    one2.push(1);
    assert(one@ =~= seq![1usize]);
    assert(one2@ =~= seq![1usize]);
    assert(!seq![1usize].contains(0)) by {
        if seq![1usize].contains(0) {
            let y = choose|y: int| 0 <= y < 1 && seq![1usize][y] == 0;
        }
    }
    enqueue_ndrange_kernel(q, events, mems, k, dev, built, 1, None, Some(one), Some(one2), wait_list,
        shared, constants)
}

} // verus!

verus! {

use crate::image::{
    channel_size_of, channels_of, combination_ok, image_desc_result, is_packed, validate_image_desc,
    validate_image_format, validate_addressing_mode, validate_filter_mode, ImageDesc, ImageFormat,
};
use crate::memory::{buffer_result, validate_buffer};
use crate::flags::{mem_flags_valid, validate_host_ptr, validate_mem_flags};
use crate::cl::{CL_INVALID_HOST_PTR, CL_MEM_READ_WRITE, CL_INVALID_IMAGE_FORMAT_DESCRIPTOR, CL_MEM_OBJECT_IMAGE1D_BUFFER};

/// Some device of the context supports images.
pub open spec fn images_supported(devs: Seq<Device>) -> bool {
    exists|i: int| 0 <= i < devs.len() && (#[trigger] devs[i]).image_supported
}

fn any_image_support(devs: &Vec<Device>) -> (r: bool)
    ensures
        r == images_supported(devs@),
{
    let mut i: usize = 0;
    while i < devs.len()
        invariant
            i <= devs@.len(),
            forall|j: int| 0 <= j < i ==> !(#[trigger] devs@[j]).image_supported,
        decreases devs@.len() - i,
    {
        if devs[i].image_supported {
            return true;
        }
        i = i + 1;
    }
    false
}

/// The element size of a valid format.
pub open spec fn elem_size_of(f: ImageFormat) -> u8 {
    if is_packed(f.image_channel_data_type) {
        channel_size_of(f.image_channel_data_type).unwrap()
    } else {
        (channels_of(f.image_channel_order).unwrap() * channel_size_of(f.image_channel_data_type).unwrap()) as u8
    }
}

/// Whether a format is valid.
pub open spec fn format_ok(f: ImageFormat) -> bool {
    channels_of(f.image_channel_order).is_some() && channel_size_of(f.image_channel_data_type).is_some()
        && combination_ok(f.image_channel_order, f.image_channel_data_type)
}

/// The final flags of an image, or the error, once format and descriptor
/// passed: derived from a backing object, defaulted to read-write, checked.
pub open spec fn image_flags_result(
    d: ImageDesc,
    flags: u64,
    f: ImageFormat,
    host_ptr: Option<usize>,
    mems: Seq<crate::memory::Mem>,
    devs: Seq<Device>,
) -> Result<u64, i32> {
    let addr = match host_ptr { Some(a) => a, None => 0 };
    match buffer_result(d, flags, f, addr, elem_size_of(f) as usize, mems, devs) {
        Err(e) => Err(e),
        Ok(fl) => {
            let fl2 = if fl == 0 && d.image_type != CL_MEM_OBJECT_IMAGE1D_BUFFER { CL_MEM_READ_WRITE } else { fl };
            if !mem_flags_valid(fl2, false) {
                Err(CL_INVALID_VALUE)
            } else if host_ptr.is_some() != has(fl2, crate::cl::CL_MEM_USE_HOST_PTR | crate::cl::CL_MEM_COPY_HOST_PTR) {
                Err(CL_INVALID_HOST_PTR)
            } else {
                Ok(fl2)
            }
        },
    }
}

/// Creates an image in `ctx`; `host_ptr` is the address of the host data, if
/// any.
pub fn create_image(
    ctx: &Context,
    mems: &mut MemStore,
    flags: u64,
    format: Option<ImageFormat>,
    desc: Option<ImageDesc>,
    host_ptr: Option<usize>,
) -> (r: Result<usize, i32>)
    requires
        old(mems).wf(),
    ensures
        final(mems).wf(),
        r.is_err() ==> final(mems)@ == old(mems)@,
        !images_supported(ctx.devs@) ==> r == Err::<usize, i32>(CL_INVALID_OPERATION),
        images_supported(ctx.devs@) && (format.is_none() || !format_ok(format.unwrap())) ==> r
            == Err::<usize, i32>(CL_INVALID_IMAGE_FORMAT_DESCRIPTOR),
        images_supported(ctx.devs@) && format.is_some() && format_ok(format.unwrap()) ==> {
            let f = format.unwrap();
            match image_desc_result(desc, host_ptr.is_some(), elem_size_of(f) as usize, ctx.devs@, old(mems)@) {
                Err(e) => r == Err::<usize, i32>(e),
                Ok(d) => match image_flags_result(d, flags, f, host_ptr, old(mems)@, ctx.devs@) {
                    Err(e) => r == Err::<usize, i32>(e),
                    Ok(fl) => if !crate::image::format_supported(ctx.devs@, f, d.image_type, fl & crate::flags::INHERITED_ACCESS_MASK) {
                        r == Err::<usize, i32>(crate::cl::CL_IMAGE_FORMAT_NOT_SUPPORTED)
                    } else {
                        &&& r.is_ok() && r.unwrap() == old(mems)@.len()
                        &&& final(mems)@.len() == old(mems)@.len() + 1
                        &&& final(mems)@.take(old(mems)@.len() as int) == old(mems)@
                        &&& final(mems)@.last().mem_type == d.image_type
                        &&& final(mems)@.last().flags == fl
                        &&& final(mems)@.last().image_desc == d
                        &&& final(mems)@.last().image_format == f
                        &&& final(mems)@.last().context == ctx.id
                    },
                },
            }
        },
{
    if !any_image_support(&ctx.devs) {
        return Err(CL_INVALID_OPERATION);
    }
    let (f, elem) = match validate_image_format(format) {
        Ok(x) => x,
        Err(e) => return Err(e),
    };
    let d = match validate_image_desc(desc, host_ptr.is_some(), elem as usize, &ctx.devs, mems) {
        Ok(d) => d,
        Err(e) => return Err(e),
    };
    let addr = match host_ptr {
        Some(a) => a,
        None => 0,
    };
    let fl = match validate_buffer(&d, flags, &f, addr, elem as usize, mems, &ctx.devs) {
        Ok(fl) => fl,
        Err(e) => return Err(e),
    };
    let fl2 = if fl == 0 && d.image_type != CL_MEM_OBJECT_IMAGE1D_BUFFER {
        CL_MEM_READ_WRITE
    } else {
        fl
    };
    if validate_mem_flags(fl2, false).is_err() {
        return Err(CL_INVALID_VALUE);
    }
    if validate_host_ptr(host_ptr.is_some(), fl2).is_err() {
        return Err(CL_INVALID_HOST_PTR);
    }
    let filtered = crate::flags::filter_image_access_flags(fl2);
    if !crate::image::check_format_supported(&ctx.devs, f, d.image_type, filtered) {
        return Err(crate::cl::CL_IMAGE_FORMAT_NOT_SUPPORTED);
    }
    Ok(mems.new_image(ctx.id, d.image_type, fl2, f, d, elem, host_ptr.is_some()))
}

/// A sampler: its context and how it reads images.
pub struct Sampler {
    pub context: u64,
    pub normalized_coords: bool,
    pub addressing_mode: u32,
    pub filter_mode: u32,
}

impl Sampler {
    pub fn new(context: u64, normalized_coords: bool, addressing_mode: u32, filter_mode: u32) -> (r: Sampler)
        ensures
            r.context == context,
            r.normalized_coords == normalized_coords,
            r.addressing_mode == addressing_mode,
            r.filter_mode == filter_mode,
    {
        Sampler { context, normalized_coords, addressing_mode, filter_mode }
    }
}

/// Creates a sampler in `ctx`.
pub fn create_sampler(ctx: &Context, normalized_coords: u64, addressing_mode: u32, filter_mode: u32) -> (r: Result<Sampler, i32>)
    ensures
        !images_supported(ctx.devs@) ==> r is Err && r->Err_0 == CL_INVALID_OPERATION,
        images_supported(ctx.devs@) ==> {
            let am_ok = addressing_mode == crate::cl::CL_ADDRESS_NONE || addressing_mode
                == crate::cl::CL_ADDRESS_CLAMP_TO_EDGE || addressing_mode == crate::cl::CL_ADDRESS_CLAMP
                || addressing_mode == crate::cl::CL_ADDRESS_REPEAT || addressing_mode
                == crate::cl::CL_ADDRESS_MIRRORED_REPEAT;
            let fm_ok = filter_mode == crate::cl::CL_FILTER_NEAREST || filter_mode == crate::cl::CL_FILTER_LINEAR;
            if !am_ok || !fm_ok || cl_bool_value(normalized_coords).is_none() {
                r is Err && r->Err_0 == CL_INVALID_VALUE
            } else {
                &&& r is Ok
                &&& r->Ok_0.context == ctx.id
                &&& r->Ok_0.normalized_coords == cl_bool_value(normalized_coords).unwrap()
                &&& r->Ok_0.addressing_mode == addressing_mode
                &&& r->Ok_0.filter_mode == filter_mode
            }
        },
{
    if !any_image_support(&ctx.devs) {
        return Err(CL_INVALID_OPERATION);
    }
    if validate_addressing_mode(addressing_mode).is_err() {
        return Err(CL_INVALID_VALUE);
    }
    if validate_filter_mode(filter_mode).is_err() {
        return Err(CL_INVALID_VALUE);
    }
    let n = match check_cl_bool(normalized_coords) {
        Some(n) => n,
        None => return Err(CL_INVALID_VALUE),
    };
    Ok(Sampler::new(ctx.id, n, addressing_mode, filter_mode))
}

/// Registers a destructor callback on `memobj`; `None` is refused.
pub fn set_mem_object_destructor_callback(mems: &mut MemStore, memobj: usize, pfn_notify: Option<u64>) -> (r: Result<(), i32>)
    requires
        old(mems).wf(),
    ensures
        final(mems).wf(),
        memobj >= old(mems)@.len() ==> r == Err::<(), i32>(CL_INVALID_MEM_OBJECT) && final(mems)@ == old(mems)@,
        memobj < old(mems)@.len() && pfn_notify.is_none() ==> r == Err::<(), i32>(CL_INVALID_VALUE) && final(mems)@ == old(mems)@,
        memobj < old(mems)@.len() && pfn_notify.is_some() ==> r.is_ok() && final(mems)@[memobj as int].cbs@
            == old(mems)@[memobj as int].cbs@.push(pfn_notify.unwrap()) && crate::memory::only_changed(old(mems)@, final(mems)@, memobj as int),
{
    if memobj >= mems.len() {
        return Err(CL_INVALID_MEM_OBJECT);
    }
    match pfn_notify {
        None => Err(CL_INVALID_VALUE),
        Some(cb) => {
            mems.add_destructor_callback(memobj, cb);
            Ok(())
        },
    }
}

} // verus!
