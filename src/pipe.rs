//! The device backend: resources, compute state, global bindings and grid
//! launches, kept in memory and recorded so that every call can be observed.
use vstd::prelude::*;

verus! {

/// A backend resource, by nonzero handle.
pub struct PipeResource {
    pipe: usize,
}

impl PipeResource {
    pub closed spec fn view(&self) -> usize {
        self.pipe
    }

    /// Wraps a resource handle; `None` for the null handle.
    pub fn new(res: usize) -> (r: Option<PipeResource>)
        ensures
            r.is_some() <==> res != 0,
            r.is_some() ==> r.unwrap()@ == res,
    {
        if res == 0 {
            return None;
        }
        Some(PipeResource { pipe: res })
    }

    /// The handle.
    pub fn pipe(&self) -> (r: usize)
        ensures
            r == self@,
    {
        self.pipe
    }
}

/// A fence: work flushed up to its sequence number.
pub struct PipeFence {
    pub seqno: u64,
}

impl PipeFence {
    pub fn new(seqno: u64) -> (r: PipeFence)
        ensures
            r.seqno == seqno,
    {
        PipeFence { seqno }
    }

    /// Whether the work the fence covers has completed on `ctx`.
    pub fn wait(&self, ctx: &PipeContext) -> (r: bool)
        ensures
            r == (self.seqno <= ctx.completed),
    {
        self.seqno <= ctx.completed
    }
}

/// One call made on a backend context.
#[derive(Clone, Copy, PartialEq, Eq, Structural)]
pub enum PipeCall {
    CreateBuffer,
    BufferSubdata,
    BufferMap,
    CreateComputeState,
    BindComputeState,
    SetGlobalBinding,
    LaunchGrid,
    ClearGlobalBinding,
    DeleteComputeState,
    MemoryBarrier,
    Flush,
}

/// One recorded grid launch.
pub struct GridLaunch {
    pub work_dim: u32,
    pub block: [u32; 3],
    pub grid: [u32; 3],
    pub input: Vec<u8>,
    pub local_size: u32,
}

/// A backend context that executes synchronously and records every call.
pub struct PipeContext {
    /// Buffers created on the backend, by handle minus one.
    pub buffers: Vec<Vec<u8>>,
    pub launches: Vec<GridLaunch>,
    pub calls: Vec<PipeCall>,
    /// The fence sequence number of the last flush.
    pub completed: u64,
}

impl PipeContext {
    pub fn new() -> (r: PipeContext)
        ensures
            r.buffers@.len() == 0,
            r.launches@.len() == 0,
            r.calls@.len() == 0,
            r.completed == 0,
    {
        PipeContext { buffers: Vec::new(), launches: Vec::new(), calls: Vec::new(), completed: 0 }
    }

    /// Creates a zeroed buffer of `size` bytes and returns its handle.
    pub fn resource_create_buffer(&mut self, size: u32) -> (r: usize)
        ensures
            r == old(self).buffers@.len() + 1,
            final(self).buffers@ == old(self).buffers@.push(final(self).buffers@.last()),
            final(self).buffers@.last()@ == Seq::new(size as nat, |i: int| 0u8),
            final(self).launches@ == old(self).launches@,
            final(self).calls@ == old(self).calls@.push(PipeCall::CreateBuffer),
            final(self).completed == old(self).completed,
    {
        let mut b: Vec<u8> = Vec::new();
        let mut i: u32 = 0;
        while i < size
            invariant
                i <= size,
                b@ == Seq::new(i as nat, |k: int| 0u8),
            decreases size - i,
        {
            b.push(0);
            i = i + 1;
            assert(b@ =~= Seq::new(i as nat, |k: int| 0u8));
        }
        self.buffers.push(b);
        self.calls.push(PipeCall::CreateBuffer);
        self.buffers.len()
    }

    /// Writes `data` into buffer `res` at `offset` when the range lies within
    /// it; otherwise leaves the buffers alone.
    pub fn buffer_subdata(&mut self, res: usize, offset: usize, data: &Vec<u8>)
        ensures
            final(self).buffers@.len() == old(self).buffers@.len(),
            final(self).launches@ == old(self).launches@,
            final(self).calls@ == old(self).calls@.push(PipeCall::BufferSubdata),
            final(self).completed == old(self).completed,
            forall|j: int|
                0 <= j < old(self).buffers@.len() && j != res - 1 ==> final(self).buffers@[j]
                    == old(self).buffers@[j],
            1 <= res <= old(self).buffers@.len() ==> final(self).buffers@[res - 1]@ == (if offset
                + data@.len() <= old(self).buffers@[res - 1]@.len() {
                crate::region::copy_bytes(
                    old(self).buffers@[res - 1]@,
                    data@,
                    0,
                    offset as int,
                    data@.len() as int,
                )
            } else {
                old(self).buffers@[res - 1]@
            }),
    {
        self.calls.push(PipeCall::BufferSubdata);
        if res == 0 || res > self.buffers.len() {
            return;
        }
        let i = res - 1;
        let blen = self.buffers[i].len();
        if offset > blen || data.len() > blen - offset {
            return;
        }
        let mut tmp: Vec<u8> = Vec::new();
        core::mem::swap(&mut self.buffers[i], &mut tmp);
        crate::region::copy_row(data, &mut tmp, 0, offset, data.len());
        core::mem::swap(&mut self.buffers[i], &mut tmp);
    }

    /// Reads `size` bytes of buffer `res` from `offset`; empty for an unknown
    /// handle or a range past the buffer's end.
    pub fn buffer_map(&mut self, res: usize, offset: usize, size: usize) -> (r: Vec<u8>)
        ensures
            final(self).buffers@ == old(self).buffers@,
            final(self).launches@ == old(self).launches@,
            final(self).calls@ == old(self).calls@.push(PipeCall::BufferMap),
            final(self).completed == old(self).completed,
            1 <= res <= old(self).buffers@.len() && offset + size <= old(self).buffers@[res - 1]@.len()
                ==> r@ == old(self).buffers@[res - 1]@.subrange(offset as int, offset + size),
            !(1 <= res <= old(self).buffers@.len() && offset + size <= old(self).buffers@[res
                - 1]@.len()) ==> r@.len() == 0,
    {
        self.calls.push(PipeCall::BufferMap);
        let mut r: Vec<u8> = Vec::new();
        if res == 0 || res > self.buffers.len() {
            return r;
        }
        let b = &self.buffers[res - 1];
        if offset > b.len() || size > b.len() - offset {
            return r;
        }
        let blen = b.len();
        let mut i: usize = 0;
        while i < size
            invariant
                i <= size,
                blen == b@.len(),
                offset + size <= b@.len(),
                r@ == b@.subrange(offset as int, offset + i),
            decreases size - i,
        {
            r.push(b[offset + i]);
            i = i + 1;
            assert(r@ =~= b@.subrange(offset as int, offset + i));
        }
        r
    }

    /// Records a call that changes nothing else the library observes.
    fn record(&mut self, c: PipeCall)
        ensures
            final(self).buffers@ == old(self).buffers@,
            final(self).launches@ == old(self).launches@,
            final(self).calls@ == old(self).calls@.push(c),
            final(self).completed == old(self).completed,
    {
        self.calls.push(c);
    }

    pub fn create_compute_state(&mut self)
        ensures
            final(self).buffers@ == old(self).buffers@,
            final(self).launches@ == old(self).launches@,
            final(self).calls@ == old(self).calls@.push(PipeCall::CreateComputeState),
            final(self).completed == old(self).completed,
    {
        self.record(PipeCall::CreateComputeState);
    }

    pub fn bind_compute_state(&mut self)
        ensures
            final(self).buffers@ == old(self).buffers@,
            final(self).launches@ == old(self).launches@,
            final(self).calls@ == old(self).calls@.push(PipeCall::BindComputeState),
            final(self).completed == old(self).completed,
    {
        self.record(PipeCall::BindComputeState);
    }

    pub fn delete_compute_state(&mut self)
        ensures
            final(self).buffers@ == old(self).buffers@,
            final(self).launches@ == old(self).launches@,
            final(self).calls@ == old(self).calls@.push(PipeCall::DeleteComputeState),
            final(self).completed == old(self).completed,
    {
        self.record(PipeCall::DeleteComputeState);
    }

    pub fn set_global_binding(&mut self)
        ensures
            final(self).buffers@ == old(self).buffers@,
            final(self).launches@ == old(self).launches@,
            final(self).calls@ == old(self).calls@.push(PipeCall::SetGlobalBinding),
            final(self).completed == old(self).completed,
    {
        self.record(PipeCall::SetGlobalBinding);
    }

    pub fn clear_global_binding(&mut self)
        ensures
            final(self).buffers@ == old(self).buffers@,
            final(self).launches@ == old(self).launches@,
            final(self).calls@ == old(self).calls@.push(PipeCall::ClearGlobalBinding),
            final(self).completed == old(self).completed,
    {
        self.record(PipeCall::ClearGlobalBinding);
    }

    pub fn memory_barrier(&mut self)
        ensures
            final(self).buffers@ == old(self).buffers@,
            final(self).launches@ == old(self).launches@,
            final(self).calls@ == old(self).calls@.push(PipeCall::MemoryBarrier),
            final(self).completed == old(self).completed,
    {
        self.record(PipeCall::MemoryBarrier);
    }

    /// Records a grid launch with its serialized input.
    pub fn launch_grid(&mut self, work_dim: u32, block: [u32; 3], grid: [u32; 3], input: &Vec<u8>, local_size: u32)
        ensures
            final(self).buffers@ == old(self).buffers@,
            final(self).calls@ == old(self).calls@.push(PipeCall::LaunchGrid),
            final(self).completed == old(self).completed,
            final(self).launches@.len() == old(self).launches@.len() + 1,
            final(self).launches@.take(old(self).launches@.len() as int) == old(self).launches@,
            final(self).launches@.last().work_dim == work_dim,
            final(self).launches@.last().block@ == block@,
            final(self).launches@.last().grid@ == grid@,
            final(self).launches@.last().input@ == input@,
            final(self).launches@.last().local_size == local_size,
    {
        let mut copy: Vec<u8> = Vec::new();
        let mut i: usize = 0;
        while i < input.len()
            invariant
                i <= input@.len(),
                copy@ == input@.take(i as int),
            decreases input@.len() - i,
        {
            copy.push(input[i]);
            i = i + 1;
            assert(copy@ =~= input@.take(i as int));
        }
        assert(copy@ =~= input@);
        let ghost before = self.launches@;
        self.launches.push(GridLaunch { work_dim, block, grid, input: copy, local_size });
        assert(self.launches@.take(before.len() as int) =~= before);
        self.calls.push(PipeCall::LaunchGrid);
    }

    /// Flushes: everything submitted so far completes, and the returned fence
    /// covers it.
    pub fn flush(&mut self) -> (r: PipeFence)
        ensures
            final(self).buffers@ == old(self).buffers@,
            final(self).launches@ == old(self).launches@,
            final(self).calls@ == old(self).calls@.push(PipeCall::Flush),
            final(self).completed == old(self).completed,
            r.seqno == old(self).completed,
    {
        self.record(PipeCall::Flush);
        PipeFence::new(self.completed)
    }
}

} // verus!
