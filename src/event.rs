//! Commands, events and queues. An event is one enqueued command with the
//! events it waits for; a queue collects events and hands them out in batches
//! that a worker drains in order.
use vstd::prelude::*;
use crate::cl::{CL_INVALID_EVENT, CL_INVALID_MEM_OBJECT, CL_INVALID_VALUE, CL_SUCCESS};
use crate::kernel::{execute_launch, LaunchPlan};
use crate::kernel::{binds_printf, printf_initial, printf_payload_of, zeros};
use crate::memory::{same_shape, shape_kept, Mem, MemStore};
use crate::pipe::PipeContext;
use crate::region::{copy_bytes, rect_copy, rect_fits, region_end, CLVec};

verus! {

/// The work an event performs when it runs.
pub enum Command {
    /// Succeeds without doing anything: markers, barriers, empty launches.
    Trivial,
    Launch(LaunchPlan),
    WriteBuffer { mem: usize, offset: usize, data: Vec<u8> },
    WriteBufferRect {
        mem: usize,
        data: Vec<u8>,
        region: CLVec,
        host_origin: CLVec,
        host_row_pitch: usize,
        host_slice_pitch: usize,
        buffer_origin: CLVec,
        buffer_row_pitch: usize,
        buffer_slice_pitch: usize,
    },
    ReadBufferRect {
        mem: usize,
        host_len: usize,
        region: CLVec,
        buffer_origin: CLVec,
        buffer_row_pitch: usize,
        buffer_slice_pitch: usize,
        host_origin: CLVec,
        host_row_pitch: usize,
        host_slice_pitch: usize,
    },
    CopyBufferRect {
        src: usize,
        dst: usize,
        region: CLVec,
        src_origin: CLVec,
        src_row_pitch: usize,
        src_slice_pitch: usize,
        dst_origin: CLVec,
        dst_row_pitch: usize,
        dst_slice_pitch: usize,
    },
}

/// Handle `h` names a buffer.
pub open spec fn buffer_handle(mems: Seq<Mem>, h: usize) -> bool {
    h < mems.len() && mems[h as int].mem_type == crate::cl::CL_MEM_OBJECT_BUFFER
}

/// A rectangle at `origin` with these pitches ends within `len` bytes.
pub open spec fn fits(origin: CLVec, region: CLVec, row_pitch: usize, slice_pitch: usize, len: int) -> bool {
    region_end(origin@, 0, region@, row_pitch as int, slice_pitch as int) <= len
}

/// The rectangle's pitches and second region component are nonzero.
pub open spec fn rect_shape_ok(region: CLVec, a: usize, b: usize, c: usize, d: usize) -> bool {
    region@[1] != 0 && a != 0 && b != 0 && c != 0 && d != 0
}

/// `origin` moved by `offset` bytes in its first component.
pub open spec fn shifted(origin: CLVec, offset: usize) -> Seq<usize> {
    origin@.update(0, (origin@[0] + offset) as usize)
}

/// The status a command ends with on memory objects of this shape: handles
/// must name buffers and ranges must lie within them.
pub open spec fn command_status(cmd: Command, mems: Seq<Mem>) -> i32 {
    match cmd {
        Command::Trivial => CL_SUCCESS,
        Command::Launch(_) => CL_SUCCESS,
        Command::WriteBuffer { mem, offset, data } => if !buffer_handle(mems, mem) {
            CL_INVALID_MEM_OBJECT
        } else if offset + data@.len() > mems[mem as int].size {
            CL_INVALID_VALUE
        } else {
            CL_SUCCESS
        },
        Command::WriteBufferRect {
            mem,
            data,
            region,
            host_origin,
            host_row_pitch,
            host_slice_pitch,
            buffer_origin,
            buffer_row_pitch,
            buffer_slice_pitch,
        } => if !buffer_handle(mems, mem) {
            CL_INVALID_MEM_OBJECT
        } else if !rect_shape_ok(region, host_row_pitch, host_slice_pitch, buffer_row_pitch, buffer_slice_pitch)
            || !fits(host_origin, region, host_row_pitch, host_slice_pitch, data@.len() as int)
            || !fits(buffer_origin, region, buffer_row_pitch, buffer_slice_pitch, mems[mem as int].size as int) {
            CL_INVALID_VALUE
        } else {
            CL_SUCCESS
        },
        Command::ReadBufferRect {
            mem,
            host_len,
            region,
            buffer_origin,
            buffer_row_pitch,
            buffer_slice_pitch,
            host_origin,
            host_row_pitch,
            host_slice_pitch,
        } => if !buffer_handle(mems, mem) {
            CL_INVALID_MEM_OBJECT
        } else if !rect_shape_ok(region, host_row_pitch, host_slice_pitch, buffer_row_pitch, buffer_slice_pitch)
            || !fits(host_origin, region, host_row_pitch, host_slice_pitch, host_len as int)
            || !fits(buffer_origin, region, buffer_row_pitch, buffer_slice_pitch, mems[mem as int].size as int) {
            CL_INVALID_VALUE
        } else {
            CL_SUCCESS
        },
        Command::CopyBufferRect {
            src,
            dst,
            region,
            src_origin,
            src_row_pitch,
            src_slice_pitch,
            dst_origin,
            dst_row_pitch,
            dst_slice_pitch,
        } => if !buffer_handle(mems, src) || !buffer_handle(mems, dst) {
            CL_INVALID_MEM_OBJECT
        } else if !rect_shape_ok(region, src_row_pitch, src_slice_pitch, dst_row_pitch, dst_slice_pitch)
            || !fits(src_origin, region, src_row_pitch, src_slice_pitch, mems[src as int].size as int)
            || !fits(dst_origin, region, dst_row_pitch, dst_slice_pitch, mems[dst as int].size as int) {
            CL_INVALID_VALUE
        } else {
            CL_SUCCESS
        },
    }
}

/// What a command does to the memory objects and which bytes it hands the
/// host. A failed command changes nothing. A write puts its bytes into the
/// root of its buffer; a rectangular read hands back the rectangle copied into
/// `host_len` zero bytes; a copy reads the source as it stood before.
pub open spec fn command_effect(cmd: Command, old: MemStore, new: MemStore, out: Seq<u8>) -> bool {
    if command_status(cmd, old@) != CL_SUCCESS {
        new@ == old@ && out.len() == 0
    } else {
        match cmd {
            Command::Trivial => new@ == old@ && out.len() == 0,
            Command::Launch(_) => new@ == old@,
            Command::WriteBuffer { mem, offset, data } => out.len() == 0 && MemStore::root_bytes_now(
                old,
                new,
                mem as int,
                copy_bytes(old.root_bytes(mem as int), data@, 0, old@[mem as int].offset + offset, data@.len() as int),
            ),
            Command::WriteBufferRect {
                mem,
                data,
                region,
                host_origin,
                host_row_pitch,
                host_slice_pitch,
                buffer_origin,
                buffer_row_pitch,
                buffer_slice_pitch,
            } => out.len() == 0 && MemStore::root_bytes_now(
                old,
                new,
                mem as int,
                rect_copy(
                    old.root_bytes(mem as int),
                    data@,
                    region@,
                    host_origin@,
                    host_row_pitch as int,
                    host_slice_pitch as int,
                    shifted(buffer_origin, old@[mem as int].offset),
                    buffer_row_pitch as int,
                    buffer_slice_pitch as int,
                    (region@[1] * region@[2]) as nat,
                ),
            ),
            Command::ReadBufferRect {
                mem,
                host_len,
                region,
                buffer_origin,
                buffer_row_pitch,
                buffer_slice_pitch,
                host_origin,
                host_row_pitch,
                host_slice_pitch,
            } => new@ == old@ && out == rect_copy(
                zeros(host_len as nat),
                old.root_bytes(mem as int),
                region@,
                shifted(buffer_origin, old@[mem as int].offset),
                buffer_row_pitch as int,
                buffer_slice_pitch as int,
                host_origin@,
                host_row_pitch as int,
                host_slice_pitch as int,
                (region@[1] * region@[2]) as nat,
            ),
            Command::CopyBufferRect {
                src,
                dst,
                region,
                src_origin,
                src_row_pitch,
                src_slice_pitch,
                dst_origin,
                dst_row_pitch,
                dst_slice_pitch,
            } => out.len() == 0 && MemStore::root_bytes_now(
                old,
                new,
                dst as int,
                rect_copy(
                    old.root_bytes(dst as int),
                    old.root_bytes(src as int),
                    region@,
                    shifted(src_origin, old@[src as int].offset),
                    src_row_pitch as int,
                    src_slice_pitch as int,
                    shifted(dst_origin, old@[dst as int].offset),
                    dst_row_pitch as int,
                    dst_slice_pitch as int,
                    (region@[1] * region@[2]) as nat,
                ),
            ),
        }
    }
}

/// What a command does to the backend: a launch records its grid and hands
/// back the printf payload; every other command leaves the backend alone.
pub open spec fn backend_effect(cmd: Command, old: PipeContext, new: PipeContext, out: Seq<u8>) -> bool {
    if cmd is Launch {
        let plan = cmd->Launch_0;
        &&& new.launches@.len() == old.launches@.len() + 1
        &&& new.launches@.take(old.launches@.len() as int) == old.launches@
        &&& new.launches@.last().work_dim == plan.work_dim
        &&& new.launches@.last().block@ == plan.block@
        &&& new.launches@.last().grid@ == plan.grid@
        &&& new.launches@.last().input@ == plan.input@
        &&& new.launches@.last().local_size == plan.local_size
        &&& binds_printf(plan.bindings@) ==> out == printf_payload_of(printf_initial(plan.printf_size as nat))
        &&& !binds_printf(plan.bindings@) ==> out.len() == 0
    } else {
        new.calls@ == old.calls@ && new.launches@ == old.launches@
    }
}

fn is_buffer_handle(mems: &MemStore, h: usize) -> (r: bool)
    ensures
        r == buffer_handle(mems@, h),
{
    h < mems.len() && mems.is_buffer(h)
}

proof fn lemma_root_bytes_shape(old: MemStore, new: MemStore, h: int, b: Seq<u8>)
    requires
        old.wf(),
        0 <= h < old@.len(),
        MemStore::root_bytes_now(old, new, h, b),
    ensures
        shape_kept(old@, new@),
{
    let r = old@[h].root_of(h);
    assert forall|i: int| 0 <= i < old@.len() implies same_shape(old@[i], #[trigger] new@[i]) by {
        if i != r {
            assert(new@[i] == old@[i]);
        }
    }
}

pub fn execute_command(cmd: &Command, mems: &mut MemStore, pipe: &mut PipeContext) -> (r: (i32, Vec<u8>))
    requires
        old(mems).wf(),
    ensures
        final(mems).wf(),
        shape_kept(old(mems)@, final(mems)@),
        final(mems).next_addr_spec() == old(mems).next_addr_spec(),
        r.0 == command_status(*cmd, old(mems)@),
        command_effect(*cmd, *old(mems), *final(mems), r.1@),
        backend_effect(*cmd, *old(pipe), *final(pipe), r.1@),
{
    match cmd {
        Command::Trivial => (CL_SUCCESS, Vec::new()),
        Command::Launch(plan) => {
            let out = execute_launch(plan, pipe);
            (CL_SUCCESS, out)
        },
        Command::WriteBuffer { mem, offset, data } => {
            if !is_buffer_handle(mems, *mem) {
                return (CL_INVALID_MEM_OBJECT, Vec::new());
            }
            let size = mems.get(*mem).size;
            if *offset > size || data.len() > size - *offset {
                return (CL_INVALID_VALUE, Vec::new());
            }
            mems.write_from_user(*mem, *offset, data);
            (CL_SUCCESS, Vec::new())
        },
        Command::WriteBufferRect {
            mem,
            data,
            region,
            host_origin,
            host_row_pitch,
            host_slice_pitch,
            buffer_origin,
            buffer_row_pitch,
            buffer_slice_pitch,
        } => {
            if !is_buffer_handle(mems, *mem) {
                return (CL_INVALID_MEM_OBJECT, Vec::new());
            }
            let size = mems.get(*mem).size;
            if region.get(1) == 0 || *host_row_pitch == 0 || *host_slice_pitch == 0
                || *buffer_row_pitch == 0 || *buffer_slice_pitch == 0 || !rect_fits(
                host_origin,
                region,
                *host_row_pitch,
                *host_slice_pitch,
                data.len(),
            ) || !rect_fits(buffer_origin, region, *buffer_row_pitch, *buffer_slice_pitch, size) {
                return (CL_INVALID_VALUE, Vec::new());
            }
            mems.write_from_user_rect(
                *mem,
                data,
                region,
                host_origin,
                *host_row_pitch,
                *host_slice_pitch,
                buffer_origin,
                *buffer_row_pitch,
                *buffer_slice_pitch,
            );
            (CL_SUCCESS, Vec::new())
        },
        Command::ReadBufferRect {
            mem,
            host_len,
            region,
            buffer_origin,
            buffer_row_pitch,
            buffer_slice_pitch,
            host_origin,
            host_row_pitch,
            host_slice_pitch,
        } => {
            if !is_buffer_handle(mems, *mem) {
                return (CL_INVALID_MEM_OBJECT, Vec::new());
            }
            let size = mems.get(*mem).size;
            if region.get(1) == 0 || *host_row_pitch == 0 || *host_slice_pitch == 0
                || *buffer_row_pitch == 0 || *buffer_slice_pitch == 0 || !rect_fits(
                host_origin,
                region,
                *host_row_pitch,
                *host_slice_pitch,
                *host_len,
            ) || !rect_fits(buffer_origin, region, *buffer_row_pitch, *buffer_slice_pitch, size) {
                return (CL_INVALID_VALUE, Vec::new());
            }
            let mut out: Vec<u8> = Vec::new();
            let mut i: usize = 0;
            while i < *host_len
                invariant
                    i <= *host_len,
                    out@ == zeros(i as nat),
                decreases *host_len - i,
            {
                out.push(0);
                i = i + 1;
                assert(out@ =~= zeros(i as nat));
            }
            mems.read_to_user_rect(
                *mem,
                &mut out,
                region,
                buffer_origin,
                *buffer_row_pitch,
                *buffer_slice_pitch,
                host_origin,
                *host_row_pitch,
                *host_slice_pitch,
            );
            (CL_SUCCESS, out)
        },
        Command::CopyBufferRect {
            src,
            dst,
            region,
            src_origin,
            src_row_pitch,
            src_slice_pitch,
            dst_origin,
            dst_row_pitch,
            dst_slice_pitch,
        } => {
            if !is_buffer_handle(mems, *src) || !is_buffer_handle(mems, *dst) {
                return (CL_INVALID_MEM_OBJECT, Vec::new());
            }
            let ssize = mems.get(*src).size;
            let dsize = mems.get(*dst).size;
            if region.get(1) == 0 || *src_row_pitch == 0 || *src_slice_pitch == 0
                || *dst_row_pitch == 0 || *dst_slice_pitch == 0 || !rect_fits(
                src_origin,
                region,
                *src_row_pitch,
                *src_slice_pitch,
                ssize,
            ) || !rect_fits(dst_origin, region, *dst_row_pitch, *dst_slice_pitch, dsize) {
                return (CL_INVALID_VALUE, Vec::new());
            }
            mems.copy_to(
                *src,
                *dst,
                region,
                src_origin,
                *src_row_pitch,
                *src_slice_pitch,
                dst_origin,
                *dst_row_pitch,
                *dst_slice_pitch,
            );
            (CL_SUCCESS, Vec::new())
        },
    }
}

} // verus!

verus! {

/// An enqueued command: its context, the events it waits for, its work, its
/// status once resolved (negative for an error), and what it read for the
/// host.
pub struct Event {
    pub context: u64,
    pub deps: Vec<usize>,
    pub command: Command,
    pub status: Option<i32>,
    pub output: Vec<u8>,
}

/// The first dependency, in order, that resolved to an error, as its status.
pub open spec fn first_failure(st: Seq<Option<i32>>, deps: Seq<usize>) -> Option<i32>
    decreases deps.len(),
{
    if deps.len() == 0 {
        None
    } else if st[deps[0] as int].is_some() && st[deps[0] as int].unwrap() < 0 {
        st[deps[0] as int]
    } else {
        first_failure(st, deps.skip(1))
    }
}

/// Every dependency has resolved.
pub open spec fn all_resolved(st: Seq<Option<i32>>, deps: Seq<usize>) -> bool {
    forall|k: int| 0 <= k < deps.len() ==> (#[trigger] st[deps[k] as int]).is_some()
}

/// The events of a batch whose commands ran, in batch order: those not
/// resolved before and with no failed dependency.
pub open spec fn invoked(old: Seq<Event>, st: Seq<Option<i32>>, batch: Seq<usize>) -> Seq<usize>
    decreases batch.len(),
{
    if batch.len() == 0 {
        Seq::empty()
    } else {
        let p = invoked(old, st, batch.drop_last());
        let e = batch.last() as int;
        if old[e].status.is_none() && first_failure(st, old[e].deps@).is_none() {
            p.push(batch.last())
        } else {
            p
        }
    }
}

/// The dependency graph of all events; handles are indices, and an event only
/// depends on earlier ones.
pub struct EventGraph {
    events: Vec<Event>,
}

impl EventGraph {
    pub closed spec fn view(&self) -> Seq<Event> {
        self.events@
    }

    /// The statuses of all events.
    pub open spec fn statuses(&self) -> Seq<Option<i32>> {
        Seq::new(self@.len(), |i: int| self@[i].status)
    }

    /// Every dependency names an earlier event.
    pub open spec fn wf(&self) -> bool {
        forall|i: int, k: int|
            0 <= i < self@.len() && 0 <= k < self@[i].deps@.len() ==> (#[trigger] self@[i].deps@[k])
                < i
    }

    pub fn new() -> (r: EventGraph)
        ensures
            r@.len() == 0,
            r.wf(),
    {
        EventGraph { events: Vec::new() }
    }

    pub fn len(&self) -> (r: usize)
        ensures
            r == self@.len(),
    {
        self.events.len()
    }

    /// The event with handle `e`.
    pub fn get(&self, e: usize) -> (r: &Event)
        requires
            e < self@.len(),
        ensures
            *r == self@[e as int],
    {
        &self.events[e]
    }

    /// The status of event `e`, if resolved.
    pub fn status(&self, e: usize) -> (r: Option<i32>)
        requires
            e < self@.len(),
        ensures
            r == self@[e as int].status,
    {
        self.events[e].status
    }

    /// Creates an unresolved event that waits for `deps`, each of which must
    /// name an existing event.
    pub fn create_event(&mut self, context: u64, deps: Vec<usize>, command: Command) -> (r: Result<usize, i32>)
        requires
            old(self).wf(),
        ensures
            final(self).wf(),
            (forall|k: int| 0 <= k < deps@.len() ==> deps@[k] < old(self)@.len()) ==> {
                &&& r.is_ok() && r.unwrap() == old(self)@.len()
                &&& final(self)@.len() == old(self)@.len() + 1
                &&& final(self)@.take(old(self)@.len() as int) == old(self)@
                &&& final(self)@.last().context == context
                &&& final(self)@.last().deps@ == deps@
                &&& final(self)@.last().command == command
                &&& final(self)@.last().status.is_none()
            },
            !(forall|k: int| 0 <= k < deps@.len() ==> deps@[k] < old(self)@.len()) ==> r == Err::<
                usize,
                i32,
            >(CL_INVALID_EVENT) && final(self)@ == old(self)@,
    {
        let n = self.events.len();
        let mut k: usize = 0;
        while k < deps.len()
            invariant
                k <= deps@.len(),
                n == self@.len(),
                self@ == old(self)@,
                old(self).wf(),
                forall|j: int| 0 <= j < k ==> deps@[j] < n,
            decreases deps@.len() - k,
        {
            if deps[k] >= n {
                return Err(CL_INVALID_EVENT);
            }
            k = k + 1;
        }
        self.events.push(Event { context, deps, command, status: None, output: Vec::new() });
        proof {
            assert(self@.take(n as int) =~= old(self)@);
            assert forall|i: int, k: int|
                0 <= i < self@.len() && 0 <= k < self@[i].deps@.len() implies (#[trigger] self@[i].deps@[k])
                    < i by {
                if i < n {
                    assert(self@[i] == old(self)@[i]);
                }
            }
        }
        Ok(n)
    }
}

} // verus!

verus! {

/// The statuses of a sequence of events.
pub open spec fn statuses_of(evs: Seq<Event>) -> Seq<Option<i32>> {
    Seq::new(evs.len(), |i: int| evs[i].status)
}

/// What draining the first `processed` events of `batch` did, given the
/// events before (`old`) and after (`new`) and the memory objects the drain
/// started on (`mems`). An event resolved before keeps its status. Otherwise
/// all its dependencies had resolved; if one failed, the event took the first
/// failure's status without running; else its command ran and its status is
/// the one the command ended with. `log` lists the events whose commands ran, in batch order. Events
/// outside the handled part keep their status.
pub open spec fn batch_progress(
    old: Seq<Event>,
    new: Seq<Event>,
    mems: Seq<Mem>,
    batch: Seq<usize>,
    processed: int,
    log: Seq<usize>,
) -> bool {
    let st = statuses_of(new);
    &&& new.len() == old.len()
    &&& forall|k: int| 0 <= k < batch.len() ==> (#[trigger] batch[k]) < old.len()
    &&& forall|i: int|
        0 <= i < old.len() ==> (#[trigger] new[i]).deps@ == old[i].deps@ && new[i].context
            == old[i].context
    &&& 0 <= processed <= batch.len()
    &&& forall|i: int|
        0 <= i < old.len() && !batch.take(processed).contains(i as usize) ==> (#[trigger] new[i]).status
            == old[i].status
    &&& forall|k: int|
        0 <= k < processed ==> {
            let e = (#[trigger] batch[k]) as int;
            if old[e].status.is_some() {
                new[e].status == old[e].status
            } else {
                &&& all_resolved(st, old[e].deps@)
                &&& new[e].status.is_some()
                &&& first_failure(st, old[e].deps@).is_some() ==> new[e].status == first_failure(
                    st,
                    old[e].deps@,
                )
                &&& first_failure(st, old[e].deps@).is_none() ==> new[e].status == Some(
                    command_status(old[e].command, mems),
                )
            }
        }
    &&& log == invoked(old, st, batch.take(processed))
}

/// `batch_progress`, and the drain stopped early only at an event still
/// waiting for a dependency.
pub open spec fn batch_outcome(
    old: Seq<Event>,
    new: Seq<Event>,
    mems: Seq<Mem>,
    batch: Seq<usize>,
    processed: int,
    log: Seq<usize>,
) -> bool {
    &&& batch_progress(old, new, mems, batch, processed, log)
    &&& processed < batch.len() ==> old[batch[processed] as int].status.is_none() && !all_resolved(
        statuses_of(new),
        old[batch[processed] as int].deps@,
    )
}

proof fn lemma_shape_trans(a: Seq<Mem>, b: Seq<Mem>, c: Seq<Mem>)
    requires
        shape_kept(a, b),
        shape_kept(b, c),
    ensures
        shape_kept(a, c),
{
    assert forall|i: int| 0 <= i < a.len() implies same_shape(a[i], #[trigger] c[i]) by {
        assert(same_shape(a[i], b[i]));
        assert(same_shape(b[i], c[i]));
    }
}

/// A command's status depends only on the shape of the memory objects.
proof fn lemma_status_shape(cmd: Command, a: Seq<Mem>, b: Seq<Mem>)
    requires
        shape_kept(a, b),
    ensures
        command_status(cmd, a) == command_status(cmd, b),
{
    let h1: int = match cmd {
        Command::WriteBuffer { mem, .. } => mem as int,
        Command::WriteBufferRect { mem, .. } => mem as int,
        Command::ReadBufferRect { mem, .. } => mem as int,
        Command::CopyBufferRect { src, .. } => src as int,
        _ => 0,
    };
    let h2: int = match cmd {
        Command::CopyBufferRect { dst, .. } => dst as int,
        _ => 0,
    };
    if 0 <= h1 < a.len() {
        assert(same_shape(a[h1], b[h1]));
    }
    if 0 <= h2 < a.len() {
        assert(same_shape(a[h2], b[h2]));
    }
}

proof fn lemma_first_failure_agree(st1: Seq<Option<i32>>, st2: Seq<Option<i32>>, deps: Seq<usize>)
    requires
        forall|k: int| 0 <= k < deps.len() ==> st1[deps[k] as int] == st2[deps[k] as int],
    ensures
        first_failure(st1, deps) == first_failure(st2, deps),
        all_resolved(st1, deps) == all_resolved(st2, deps),
    decreases deps.len(),
{
    if deps.len() > 0 {
        assert forall|k: int| 0 <= k < deps.skip(1).len() implies st1[deps.skip(1)[k] as int]
            == st2[deps.skip(1)[k] as int] by {
            assert(deps.skip(1)[k] == deps[k + 1]);
        }
        lemma_first_failure_agree(st1, st2, deps.skip(1));
        assert(st1[deps[0] as int] == st2[deps[0] as int]);
    }
    if all_resolved(st1, deps) {
        assert forall|k: int| 0 <= k < deps.len() implies (#[trigger] st2[deps[k] as int]).is_some() by {
            assert(st1[deps[k] as int].is_some());
        }
    }
    if all_resolved(st2, deps) {
        assert forall|k: int| 0 <= k < deps.len() implies (#[trigger] st1[deps[k] as int]).is_some() by {
            assert(st2[deps[k] as int].is_some());
        }
    }
}

proof fn lemma_invoked_agree(old: Seq<Event>, st1: Seq<Option<i32>>, st2: Seq<Option<i32>>, batch: Seq<usize>)
    requires
        forall|k: int|
            0 <= k < batch.len() && old[batch[k] as int].status.is_none() ==> forall|j: int|
                0 <= j < old[batch[k] as int].deps@.len() ==> st1[old[batch[k] as int].deps@[j] as int]
                    == st2[old[batch[k] as int].deps@[j] as int],
    ensures
        invoked(old, st1, batch) == invoked(old, st2, batch),
    decreases batch.len(),
{
    if batch.len() > 0 {
        lemma_invoked_agree(old, st1, st2, batch.drop_last());
        let e = batch.last() as int;
        if old[e].status.is_none() {
            lemma_first_failure_agree(st1, st2, old[e].deps@);
        }
    }
}

impl EventGraph {
    /// Whether every dependency of `e` has resolved, and if so the first
    /// failure among them.
    fn dep_state(&self, e: usize) -> (r: (bool, Option<i32>))
        requires
            self.wf(),
            e < self@.len(),
        ensures
            r.0 == all_resolved(self.statuses(), self@[e as int].deps@),
            r.0 ==> r.1 == first_failure(self.statuses(), self@[e as int].deps@),
    {
        let deps = &self.events[e].deps;
        let ghost st = self.statuses();
        let mut fail: Option<i32> = None;
        let mut k: usize = deps.len();
        while k > 0
            invariant
                k <= deps@.len(),
                *deps == self@[e as int].deps,
                st == self.statuses(),
                e < self@.len(),
                self.wf(),
                all_resolved(st, deps@.skip(k as int)) ==> fail == first_failure(st, deps@.skip(k as int)),
                forall|j: int| k <= j < deps@.len() ==> (#[trigger] st[deps@[j] as int]).is_some(),
            decreases k,
        {
            k = k - 1;
            let d = deps[k];
            assert(d < e);
            let s = self.events[d].status;
            match s {
                None => {
                    proof {
                        assert(st[deps@[k as int] as int].is_none());
                    }
                    return (false, None);
                },
                Some(v) => {
                    if v < 0 {
                        fail = Some(v);
                    }
                },
            }
            proof {
                let tail = deps@.skip(k as int);
                assert(tail.skip(1) =~= deps@.skip(k + 1));
                assert(tail[0] == d);
                assert forall|j: int| 0 <= j < tail.len() implies (#[trigger] st[tail[j] as int]).is_some() by {
                    assert(tail[j] == deps@[k + j]);
                }
            }
        }
        assert(deps@.skip(0) =~= deps@);
        proof {
            assert forall|j: int| 0 <= j < deps@.len() implies (#[trigger] st[deps@[j] as int]).is_some() by {}
        }
        (true, fail)
    }
}

} // verus!

verus! {

/// No handle appears twice.
pub open spec fn distinct(s: Seq<usize>) -> bool {
    forall|i: int, j: int| 0 <= i < j < s.len() ==> s[i] != s[j]
}

impl EventGraph {
    fn resolve(&mut self, e: usize, status: i32, output: Vec<u8>)
        requires
            e < old(self)@.len(),
        ensures
            final(self)@.len() == old(self)@.len(),
            forall|i: int| 0 <= i < old(self)@.len() && i != e ==> final(self)@[i] == old(self)@[i],
            final(self)@[e as int].deps == old(self)@[e as int].deps,
            final(self)@[e as int].context == old(self)@[e as int].context,
            final(self)@[e as int].command == old(self)@[e as int].command,
            final(self)@[e as int].status == Some(status),
            final(self)@[e as int].output@ == output@,
    {
        let ev = &mut self.events[e];
        ev.status = Some(status);
        ev.output = output;
    }

    /// Drains `batch` in order: each unresolved event first has all its
    /// dependencies resolved; a failed dependency passes its status on, else
    /// the event's command runs and its result becomes the status. Returns how
    /// many events were handled and which commands ran.
    pub fn run_batch(&mut self, batch: &Vec<usize>, mems: &mut MemStore, pipe: &mut PipeContext) -> (r: (usize, Vec<usize>))
        requires
            old(self).wf(),
            old(mems).wf(),
            forall|k: int| 0 <= k < batch@.len() ==> batch@[k] < old(self)@.len(),
            distinct(batch@),
        ensures
            final(self).wf(),
            final(mems).wf(),
            shape_kept(old(mems)@, final(mems)@),
            final(mems).next_addr_spec() == old(mems).next_addr_spec(),
            batch_outcome(old(self)@, final(self)@, old(mems)@, batch@, r.0 as int, r.1@),
            (forall|k: int| 0 <= k < batch@.len() ==> old(self)@[(#[trigger] batch@[k]) as int].command is Trivial)
                ==> final(pipe).calls@ == old(pipe).calls@,
    {
        let ghost old_evs = self@;
        let mut log: Vec<usize> = Vec::new();
        let mut k: usize = 0;
        proof {
            assert(batch@.take(0) =~= Seq::<usize>::empty());
            assert(log@ =~= invoked(old_evs, statuses_of(self@), batch@.take(0)));
        }
        while k < batch.len()
            invariant
                k <= batch@.len(),
                self.wf(),
                mems.wf(),
                shape_kept(old(mems)@, mems@),
                mems.next_addr_spec() == old(mems).next_addr_spec(),
                old_evs == old(self)@,
                forall|j: int| 0 <= j < batch@.len() ==> batch@[j] < old_evs.len(),
                distinct(batch@),
                batch_progress(old_evs, self@, old(mems)@, batch@, k as int, log@),
                forall|i: int| 0 <= i < self@.len() ==> (#[trigger] self@[i]).command == old_evs[i].command,
                (forall|j: int| 0 <= j < batch@.len() ==> old_evs[(#[trigger] batch@[j]) as int].command is Trivial)
                    ==> pipe.calls@ == old(pipe).calls@,
            decreases batch@.len() - k,
        {
            let e = batch[k];
            proof {
                assert(!batch@.take(k as int).contains(e)) by {
                    if batch@.take(k as int).contains(e) {
                        let j = choose|j: int| 0 <= j < k && batch@.take(k as int)[j] == e;
                        assert(batch@[j] == batch@[k as int]);
                    }
                }
                assert(self@[e as int].status == old_evs[e as int].status);
                assert(batch@.take(k + 1) =~= batch@.take(k as int).push(e));
                assert(batch@.take(k + 1).drop_last() =~= batch@.take(k as int));
            }
            if self.events[e].status.is_none() {
                let (resolved, fail) = self.dep_state(e);
                if !resolved {
                    return (k, log);
                }
                let ghost before = self@;
                let ghost st0 = statuses_of(before);
                let status = match fail {
                    Some(err) => {
                        self.resolve(e, err, Vec::new());
                        err
                    },
                    None => {
                        let ghost m0 = mems@;
                        let (s, out) = execute_command(&self.events[e].command, mems, pipe);
                        proof {
                            lemma_status_shape(old_evs[e as int].command, old(mems)@, m0);
                            lemma_shape_trans(old(mems)@, m0, mems@);
                        }
                        self.resolve(e, s, out);
                        log.push(e);
                        s
                    },
                };
                proof {
                    let st1 = statuses_of(self@);
                    assert(self.wf()) by {
                        assert forall|i: int, j: int|
                            0 <= i < self@.len() && 0 <= j < self@[i].deps@.len() implies (#[trigger] self@[i].deps@[j])
                                < i by {
                            assert(self@[i].deps == before[i].deps);
                        }
                    }
                    // Statuses changed only at e, which no handled event depends on.
                    assert forall|x: int| 0 <= x < st0.len() && x != e implies st1[x] == st0[x] by {}
                    assert forall|j: int| 0 <= j < old_evs[e as int].deps@.len() implies st1[old_evs[e as int].deps@[j] as int]
                        == st0[old_evs[e as int].deps@[j] as int] by {
                        assert(old_evs[e as int].deps@[j] < e);
                    }
                    lemma_first_failure_agree(st0, st1, old_evs[e as int].deps@);
                    let prefix = batch@.take(k as int);
                    assert forall|q: int|
                        0 <= q < prefix.len() && old_evs[prefix[q] as int].status.is_none() implies forall|j: int|
                            0 <= j < old_evs[prefix[q] as int].deps@.len() ==> st0[old_evs[prefix[q] as int].deps@[j] as int]
                                == st1[old_evs[prefix[q] as int].deps@[j] as int] by {
                        let f = prefix[q] as int;
                        assert(batch@[q] == prefix[q]);
                        assert(all_resolved(st0, old_evs[f].deps@));
                        assert forall|j: int| 0 <= j < old_evs[f].deps@.len() implies st0[old_evs[f].deps@[j] as int]
                            == st1[old_evs[f].deps@[j] as int] by {
                            assert(st0[old_evs[f].deps@[j] as int].is_some());
                            assert(st0[e as int].is_none());
                        }
                    }
                    lemma_invoked_agree(old_evs, st0, st1, prefix);
                    assert forall|q: int| 0 <= q < k implies {
                        let f = (#[trigger] batch@[q]) as int;
                        old_evs[f].status.is_none() ==> {
                            &&& all_resolved(st1, old_evs[f].deps@)
                            &&& first_failure(st1, old_evs[f].deps@) == first_failure(st0, old_evs[f].deps@)
                        }
                    } by {
                        let f = batch@[q] as int;
                        assert(prefix[q] == batch@[q]);
                        if old_evs[f].status.is_none() {
                            assert(all_resolved(st0, old_evs[f].deps@));
                            assert forall|j: int| 0 <= j < old_evs[f].deps@.len() implies st0[old_evs[f].deps@[j] as int]
                                == st1[old_evs[f].deps@[j] as int] by {
                                assert(st0[old_evs[f].deps@[j] as int].is_some());
                            }
                            lemma_first_failure_agree(st0, st1, old_evs[f].deps@);
                        }
                    }
                    assert forall|i: int|
                        0 <= i < old_evs.len() && !batch@.take(k + 1).contains(i as usize) implies (#[trigger] self@[i]).status
                            == old_evs[i].status by {
                        if i != e {
                            if batch@.take(k as int).contains(i as usize) {
                                let j = choose|j: int| 0 <= j < k && batch@.take(k as int)[j] == i as usize;
                                assert(batch@.take(k + 1)[j] == i as usize);
                            }
                        } else {
                            assert(batch@.take(k + 1)[k as int] == e);
                        }
                    }
                    assert(log@ == invoked(old_evs, st1, batch@.take(k + 1)));
                }
            } else {
                proof {
                    assert(old_evs[e as int].status.is_some());
                    assert(log@ == invoked(old_evs, statuses_of(self@), batch@.take(k + 1)));
                    assert forall|i: int|
                        0 <= i < old_evs.len() && !batch@.take(k + 1).contains(i as usize) implies (#[trigger] self@[i]).status
                            == old_evs[i].status by {
                        if batch@.take(k as int).contains(i as usize) {
                            let j = choose|j: int| 0 <= j < k && batch@.take(k as int)[j] == i as usize;
                            assert(batch@.take(k + 1)[j] == i as usize);
                        }
                    }
                }
            }
            k = k + 1;
        }
        (k, log)
    }
}

} // verus!

verus! {

/// A command queue: its context and device, and the events queued since the
/// last flush, each at most once, in submission order.
pub struct Queue {
    context: u64,
    device: usize,
    props: u64,
    pending: Vec<usize>,
}

impl Queue {
    pub closed spec fn view(&self) -> Seq<usize> {
        self.pending@
    }

    pub closed spec fn context_spec(&self) -> u64 {
        self.context
    }

    pub closed spec fn device_spec(&self) -> usize {
        self.device
    }

    pub closed spec fn props_spec(&self) -> u64 {
        self.props
    }

    pub open spec fn wf(&self) -> bool {
        distinct(self@)
    }

    pub fn new(context: u64, device: usize, props: u64) -> (r: Queue)
        ensures
            r.wf(),
            r@.len() == 0,
            r.context_spec() == context,
            r.device_spec() == device,
            r.props_spec() == props,
    {
        Queue { context, device, props, pending: Vec::new() }
    }

    /// How many events are pending.
    pub fn len(&self) -> (r: usize)
        ensures
            r == self@.len(),
    {
        self.pending.len()
    }

    /// The context the queue belongs to.
    pub fn context(&self) -> (r: u64)
        ensures
            r == self.context_spec(),
    {
        self.context
    }

    /// The device the queue runs on.
    pub fn device(&self) -> (r: usize)
        ensures
            r == self.device_spec(),
    {
        self.device
    }

    /// Appends `e` to the pending events unless it is already pending.
    pub fn queue(&mut self, e: usize)
        requires
            old(self).wf(),
        ensures
            final(self).wf(),
            final(self).context_spec() == old(self).context_spec(),
            final(self).device_spec() == old(self).device_spec(),
            final(self)@ == if old(self)@.contains(e) {
                old(self)@
            } else {
                old(self)@.push(e)
            },
    {
        let mut i: usize = 0;
        while i < self.pending.len()
            invariant
                i <= self@.len(),
                self@ == old(self)@,
                self.context == old(self).context,
                self.device == old(self).device,
                old(self).wf(),
                forall|j: int| 0 <= j < i ==> self@[j] != e,
            decreases self@.len() - i,
        {
            if self.pending[i] == e {
                return;
            }
            i = i + 1;
        }
        self.pending.push(e);
        proof {
            assert forall|a: int, b: int| 0 <= a < b < self@.len() implies self@[a] != self@[b] by {
                if b == self@.len() - 1 {
                    assert(old(self)@[a] != e);
                } else {
                    assert(old(self)@[a] != old(self)@[b]);
                }
            }
        }
    }

    /// Takes the whole pending list, in submission order, as one batch for
    /// the worker.
    pub fn flush(&mut self) -> (r: Vec<usize>)
        requires
            old(self).wf(),
        ensures
            final(self).wf(),
            final(self).context_spec() == old(self).context_spec(),
            final(self).device_spec() == old(self).device_spec(),
            r@ == old(self)@,
            distinct(r@),
            final(self)@.len() == 0,
    {
        let mut batch: Vec<usize> = Vec::new();
        core::mem::swap(&mut self.pending, &mut batch);
        batch
    }
}

proof fn lemma_invoked_members(old: Seq<Event>, st: Seq<Option<i32>>, batch: Seq<usize>, x: usize)
    requires
        invoked(old, st, batch).contains(x),
    ensures
        batch.contains(x),
        old[x as int].status.is_none(),
        first_failure(st, old[x as int].deps@).is_none(),
    decreases batch.len(),
{
    let p = invoked(old, st, batch.drop_last());
    if p.contains(x) {
        lemma_invoked_members(old, st, batch.drop_last(), x);
        let j = choose|j: int| 0 <= j < batch.drop_last().len() && batch.drop_last()[j] == x;
        assert(batch[j] == x);
    } else {
        assert(batch.last() == x);
        assert(batch[batch.len() - 1] == x);
    }
}

proof fn lemma_invoked_all(old: Seq<Event>, st: Seq<Option<i32>>, batch: Seq<usize>)
    requires
        forall|k: int|
            0 <= k < batch.len() ==> old[(#[trigger] batch[k]) as int].status.is_none()
                && old[batch[k] as int].deps@.len() == 0,
    ensures
        invoked(old, st, batch) == batch,
    decreases batch.len(),
{
    if batch.len() > 0 {
        lemma_invoked_all(old, st, batch.drop_last());
        assert(batch.drop_last().push(batch.last()) =~= batch);
        assert(old[batch[batch.len() - 1] as int].deps@.len() == 0);
    }
}

/// An event whose one dependency resolved to an error takes that error as
/// its own status, and its command never runs.
pub proof fn lemma_failed_dependency_propagates(
    old: Seq<Event>,
    new: Seq<Event>,
    mems: Seq<Mem>,
    batch: Seq<usize>,
    processed: int,
    log: Seq<usize>,
    k: int,
    err: i32,
)
    requires
        batch_outcome(old, new, mems, batch, processed, log),
        0 <= k < processed,
        old[batch[k] as int].status.is_none(),
        old[batch[k] as int].deps@.len() == 1,
        old[batch[k] as int].deps@[0] < old.len(),
        new[old[batch[k] as int].deps@[0] as int].status == Some(err),
        err < 0,
    ensures
        new[batch[k] as int].status == Some(err),
        !log.contains(batch[k]),
{
    let e = batch[k] as int;
    let st = statuses_of(new);
    let deps = old[e].deps@;
    assert(st[deps[0] as int] == Some(err));
    assert(first_failure(st, deps) == Some(err));
    if log.contains(batch[k]) {
        lemma_invoked_members(old, st, batch.take(processed), batch[k]);
    }
}

/// A batch of unresolved events with no dependencies drains completely, and
/// their commands run in submission order.
pub proof fn lemma_independent_batch_in_order(
    old: Seq<Event>,
    new: Seq<Event>,
    mems: Seq<Mem>,
    batch: Seq<usize>,
    processed: int,
    log: Seq<usize>,
)
    requires
        batch_outcome(old, new, mems, batch, processed, log),
        forall|k: int|
            0 <= k < batch.len() ==> old[(#[trigger] batch[k]) as int].status.is_none()
                && old[batch[k] as int].deps@.len() == 0,
    ensures
        processed == batch.len(),
        log == batch,
{
    if processed < batch.len() {
        assert(old[batch[processed] as int].deps@.len() == 0);
        assert(all_resolved(statuses_of(new), old[batch[processed] as int].deps@));
    }
    assert(batch.take(processed) =~= batch);
    lemma_invoked_all(old, statuses_of(new), batch);
}

} // verus!

verus! {

/// An event that does no work and waits for nothing, once the drain reaches
/// it, completes successfully, and its command is among those that ran.
pub proof fn lemma_trivial_event_succeeds(
    old: Seq<Event>,
    new: Seq<Event>,
    mems: Seq<Mem>,
    batch: Seq<usize>,
    processed: int,
    log: Seq<usize>,
    k: int,
)
    requires
        batch_outcome(old, new, mems, batch, processed, log),
        0 <= k < processed,
        old[batch[k] as int].status.is_none(),
        old[batch[k] as int].deps@.len() == 0,
        old[batch[k] as int].command is Trivial,
    ensures
        new[batch[k] as int].status == Some(CL_SUCCESS),
{
    let e = batch[k] as int;
    assert(first_failure(statuses_of(new), old[e].deps@).is_none());
}

impl Queue {
    /// Puts events back as the pending list of an empty queue.
    pub fn restore(&mut self, pending: Vec<usize>)
        requires
            old(self)@.len() == 0,
            distinct(pending@),
        ensures
            final(self).wf(),
            final(self)@ == pending@,
            final(self).context_spec() == old(self).context_spec(),
            final(self).device_spec() == old(self).device_spec(),
    {
        self.pending = pending;
    }
}

} // verus!
