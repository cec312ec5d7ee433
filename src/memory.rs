//! Memory objects: buffers, sub-buffers and images, held in a store whose
//! handles are indices. Only a root object owns bytes; a sub-buffer reads and
//! writes its root's bytes at its own offset.
use vstd::prelude::*;
use crate::cl::{
    CL_INVALID_BUFFER_SIZE, CL_INVALID_HOST_PTR, CL_INVALID_MEM_OBJECT, CL_INVALID_VALUE,
    CL_MEM_OBJECT_BUFFER,
};
use crate::context::Context;
use crate::flags::{
    inherit_mem_flags, inherited_flags, mem_flags_valid, validate_host_ptr,
    validate_matching_buffer_flags, validate_mem_flags, flags_contradict_parent, has,
};
use crate::image::{ImageDesc, ImageFormat};
use crate::region::{copy_bytes, copy_row, region_end, rect_copy, sw_copy, CLVec};

verus! {

/// A live host mapping of part of a memory object.
#[derive(Clone, Copy)]
pub struct Mapping {
    pub offset: usize,
    pub size: usize,
}

/// A memory object.
pub struct Mem {
    pub context: u64,
    pub parent: Option<usize>,
    pub mem_type: u32,
    pub flags: u64,
    pub size: usize,
    pub offset: usize,
    pub has_host_ptr: bool,
    pub image_format: ImageFormat,
    pub image_desc: ImageDesc,
    pub image_elem_size: u8,
    /// Destructor callbacks, in registration order.
    pub cbs: Vec<u64>,
    /// The bytes a root buffer owns; `None` for sub-buffers and images.
    pub res: Option<Vec<u8>>,
    /// Live mappings, keyed by the address handed out.
    pub maps: Vec<(usize, Mapping)>,
}

/// No address appears twice in a mapping table.
pub open spec fn maps_unique(maps: Seq<(usize, Mapping)>) -> bool {
    forall|i: int, j: int| 0 <= i < j < maps.len() ==> maps[i].0 != maps[j].0
}

impl Mem {
    /// The well-formedness of object `i` of `mems`: a root buffer owns exactly
    /// `size` bytes; a sub-buffer names an earlier root buffer and lies within it.
    pub open spec fn wf_at(mems: Seq<Mem>, i: int) -> bool {
        let m = mems[i];
        &&& maps_unique(m.maps@)
        &&& match m.parent {
            None => m.offset == 0 && (m.mem_type == CL_MEM_OBJECT_BUFFER ==> m.res.is_some()
                && m.res.unwrap()@.len() == m.size),
            Some(p) => {
                &&& 0 <= p < i
                &&& mems[p as int].parent.is_none()
                &&& mems[p as int].mem_type == CL_MEM_OBJECT_BUFFER
                &&& m.mem_type == CL_MEM_OBJECT_BUFFER
                &&& m.res.is_none()
                &&& m.offset + m.size <= mems[p as int].size
                &&& m.context == mems[p as int].context
            },
        }
    }

    /// The object whose bytes this one uses: its parent, or itself.
    pub open spec fn root_of(&self, i: int) -> int {
        match self.parent {
            Some(p) => p as int,
            None => i,
        }
    }
}

/// The memory objects of a runtime.
pub struct MemStore {
    mems: Vec<Mem>,
    next_addr: usize,
}

impl MemStore {
    pub closed spec fn view(&self) -> Seq<Mem> {
        self.mems@
    }

    /// The next mapping address to hand out.
    pub closed spec fn next_addr_spec(&self) -> usize {
        self.next_addr
    }

    /// Every object is well formed, and every mapping address was handed out
    /// before the next free one.
    pub closed spec fn wf(&self) -> bool {
        &&& forall|i: int| 0 <= i < self@.len() ==> #[trigger] Mem::wf_at(self@, i)
        &&& forall|i: int, k: int|
            0 <= i < self@.len() && 0 <= k < self@[i].maps@.len() ==> #[trigger] self@[i].maps@[k].0
                < self.next_addr
    }

    /// The bytes of the object with handle `h`, seen through its root.
    pub open spec fn bytes(&self, h: int) -> Seq<u8> {
        let m = self@[h];
        let root = self@[m.root_of(h)];
        root.res.unwrap()@.subrange(m.offset as int, m.offset + m.size)
    }

    pub fn new() -> (r: MemStore)
        ensures
            r@.len() == 0,
            r.wf(),
    {
        MemStore { mems: Vec::new(), next_addr: 4096 }
    }

    pub fn len(&self) -> (r: usize)
        ensures
            r == self@.len(),
    {
        self.mems.len()
    }

    /// The object with handle `h`.
    pub fn get(&self, h: usize) -> (r: &Mem)
        requires
            h < self@.len(),
        ensures
            *r == self@[h as int],
    {
        &self.mems[h]
    }

    pub fn is_buffer(&self, h: usize) -> (r: bool)
        requires
            h < self@.len(),
        ensures
            r == (self@[h as int].mem_type == CL_MEM_OBJECT_BUFFER),
    {
        self.mems[h].mem_type == CL_MEM_OBJECT_BUFFER
    }

    /// Whether two objects use the same root's bytes.
    pub fn has_same_parent(&self, a: usize, b: usize) -> (r: bool)
        requires
            a < self@.len(),
            b < self@.len(),
        ensures
            r == (self@[a as int].root_of(a as int) == self@[b as int].root_of(b as int)),
    {
        let ra = match self.mems[a].parent {
            Some(p) => p,
            None => a,
        };
        let rb = match self.mems[b].parent {
            Some(p) => p,
            None => b,
        };
        ra == rb
    }
}

} // verus!

verus! {

/// The error `create_buffer` reports, if any, in the order the checks run.
pub open spec fn create_buffer_error(ctx: Context, flags: u64, size: usize, host: Option<Seq<u8>>) -> Option<i32> {
    if !mem_flags_valid(flags, false) {
        Some(CL_INVALID_VALUE)
    } else if size == 0 || exists|d: int|
        0 <= d < ctx.devs@.len() && size > #[trigger] ctx.devs@[d].max_mem_alloc {
        Some(CL_INVALID_BUFFER_SIZE)
    } else if host.is_some() != has(flags, crate::cl::CL_MEM_USE_HOST_PTR | crate::cl::CL_MEM_COPY_HOST_PTR) {
        Some(CL_INVALID_HOST_PTR)
    } else if host.is_some() && host.unwrap().len() < size {
        Some(CL_INVALID_HOST_PTR)
    } else {
        None
    }
}

/// Bytes `0..n` of `data`, or `n` zero bytes without data.
pub open spec fn initial_bytes(host: Option<Seq<u8>>, n: int) -> Seq<u8> {
    match host {
        Some(d) => d.take(n),
        None => Seq::new(n as nat, |i: int| 0u8),
    }
}

/// The error `create_sub_buffer` reports, if any, in the order the checks run.
pub open spec fn create_sub_buffer_error(
    mems: Seq<Mem>,
    buffer: usize,
    flags: u64,
    origin: usize,
    size: usize,
) -> Option<i32> {
    if buffer >= mems.len() || mems[buffer as int].parent.is_some() || mems[buffer as int].mem_type
        != CL_MEM_OBJECT_BUFFER {
        Some(CL_INVALID_MEM_OBJECT)
    } else if flags_contradict_parent(mems[buffer as int].flags, flags) {
        Some(CL_INVALID_VALUE)
    } else if !mem_flags_valid(inherited_flags(flags, mems[buffer as int].flags), false) {
        Some(CL_INVALID_VALUE)
    } else if size == 0 {
        Some(CL_INVALID_BUFFER_SIZE)
    } else if origin + size > mems[buffer as int].size {
        Some(CL_INVALID_VALUE)
    } else {
        None
    }
}

/// Whether no device of `ctx` has a maximum allocation below `size`.
pub fn fits_all_devices(ctx: &Context, size: usize) -> (r: bool)
    ensures
        r == forall|d: int| 0 <= d < ctx.devs@.len() ==> size <= #[trigger] ctx.devs@[d].max_mem_alloc,
{
    let mut i: usize = 0;
    while i < ctx.devs.len()
        invariant
            i <= ctx.devs@.len(),
            forall|d: int| 0 <= d < i ==> size <= #[trigger] ctx.devs@[d].max_mem_alloc,
        decreases ctx.devs@.len() - i,
    {
        if size as u64 > ctx.devs[i].max_mem_alloc {
            return false;
        }
        i = i + 1;
    }
    true
}

fn bytes_from(host: &Option<Vec<u8>>, n: usize) -> (r: Vec<u8>)
    requires
        host.is_some() ==> host.unwrap()@.len() >= n,
    ensures
        r@ == initial_bytes(
            match host {
                Some(v) => Some(v@),
                None => None,
            },
            n as int,
        ),
{
    let ghost want = initial_bytes(
        match host {
            Some(v) => Some(v@),
            None => None,
        },
        n as int,
    );
    let mut r: Vec<u8> = Vec::new();
    let mut i: usize = 0;
    while i < n
        invariant
            i <= n,
            host.is_some() ==> host.unwrap()@.len() >= n,
            want.len() == n,
            want == initial_bytes(
                match host {
                    Some(v) => Some(v@),
                    None => None,
                },
                n as int,
            ),
            r@ == want.take(i as int),
        decreases n - i,
    {
        let b = match host {
            Some(v) => v[i],
            None => 0u8,
        };
        r.push(b);
        i = i + 1;
        assert(r@ =~= want.take(i as int));
    }
    assert(r@ =~= want);
    r
}

impl MemStore {
    /// Creates a buffer of `size` bytes in `ctx`. With use or copy host pointer
    /// its bytes start as the first `size` bytes of `host`, otherwise as zeros.
    pub fn create_buffer(&mut self, ctx: &Context, flags: u64, size: usize, host: Option<Vec<u8>>) -> (r: Result<usize, i32>)
        requires
            old(self).wf(),
        ensures
            final(self).wf(),
            ({
                let host_view = match host {
                    Some(v) => Some(v@),
                    None => None,
                };
                match create_buffer_error(*ctx, flags, size, host_view) {
                    Some(e) => r == Err::<usize, i32>(e) && final(self)@ == old(self)@,
                    None => {
                        &&& r.is_ok() && r.unwrap() == old(self)@.len()
                        &&& final(self)@.len() == old(self)@.len() + 1
                        &&& final(self)@.take(old(self)@.len() as int) == old(self)@
                        &&& final(self)@.last().context == ctx.id
                        &&& final(self)@.last().parent.is_none()
                        &&& final(self)@.last().mem_type == CL_MEM_OBJECT_BUFFER
                        &&& final(self)@.last().flags == flags
                        &&& final(self)@.last().size == size
                        &&& final(self)@.last().offset == 0
                        &&& final(self)@.last().has_host_ptr == host.is_some()
                        &&& final(self)@.last().maps@.len() == 0
                        &&& final(self)@.last().cbs@.len() == 0
                        &&& final(self).bytes(old(self)@.len() as int) == initial_bytes(host_view, size as int)
                    },
                }
            }),
    {
        if validate_mem_flags(flags, false).is_err() {
            return Err(CL_INVALID_VALUE);
        }
        if size == 0 {
            return Err(CL_INVALID_BUFFER_SIZE);
        }
        if !fits_all_devices(ctx, size) {
            return Err(CL_INVALID_BUFFER_SIZE);
        }
        if validate_host_ptr(host.is_some(), flags).is_err() {
            return Err(CL_INVALID_HOST_PTR);
        }
        match &host {
            Some(v) => {
                if v.len() < size {
                    return Err(CL_INVALID_HOST_PTR);
                }
            },
            None => {},
        }
        let data = bytes_from(&host, size);
        let m = Mem {
            context: ctx.id,
            parent: None,
            mem_type: CL_MEM_OBJECT_BUFFER,
            flags,
            size,
            offset: 0,
            has_host_ptr: host.is_some(),
            image_format: ImageFormat::empty(),
            image_desc: ImageDesc::empty(),
            image_elem_size: 0,
            cbs: Vec::new(),
            res: Some(data),
            maps: Vec::new(),
        };
        let h = self.mems.len();
        self.mems.push(m);
        proof {
            assert(self@.take(h as int) =~= old(self)@);
            assert forall|j: int| 0 <= j < self@.len() implies #[trigger] Mem::wf_at(self@, j) by {
                if j < h {
                    assert(Mem::wf_at(old(self)@, j));
                    assert(self@[j] == old(self)@[j]);
                }
            }
            assert forall|j: int, k: int|
                0 <= j < self@.len() && 0 <= k < self@[j].maps@.len() implies #[trigger] self@[j].maps@[k].0
                    < self.next_addr by {
                if j < h {
                    assert(self@[j] == old(self)@[j]);
                }
            }
            assert(self@[h as int].res.unwrap()@.subrange(0, size as int) =~= self@[h as int].res.unwrap()@);
        }
        Ok(h)
    }

    /// Creates a sub-buffer of root buffer `buffer` covering `size` bytes from
    /// `origin`, with flags inherited from the parent.
    pub fn create_sub_buffer(&mut self, buffer: usize, flags: u64, origin: usize, size: usize) -> (r: Result<usize, i32>)
        requires
            old(self).wf(),
        ensures
            final(self).wf(),
            match create_sub_buffer_error(old(self)@, buffer, flags, origin, size) {
                Some(e) => r == Err::<usize, i32>(e) && final(self)@ == old(self)@,
                None => {
                    &&& r.is_ok() && r.unwrap() == old(self)@.len()
                    &&& final(self)@.len() == old(self)@.len() + 1
                    &&& final(self)@.take(old(self)@.len() as int) == old(self)@
                    &&& final(self)@.last().context == old(self)@[buffer as int].context
                    &&& final(self)@.last().parent == Some(buffer)
                    &&& final(self)@.last().mem_type == CL_MEM_OBJECT_BUFFER
                    &&& final(self)@.last().flags == inherited_flags(flags, old(self)@[buffer as int].flags)
                    &&& final(self)@.last().size == size
                    &&& final(self)@.last().offset == origin
                    &&& final(self)@.last().has_host_ptr == old(self)@[buffer as int].has_host_ptr
                    &&& final(self)@.last().maps@.len() == 0
                    &&& final(self)@.last().cbs@.len() == 0
                    &&& final(self).bytes(old(self)@.len() as int) == old(self).bytes(buffer as int).subrange(origin as int, origin + size)
                },
            },
    {
        if buffer >= self.mems.len() || self.mems[buffer].parent.is_some() || self.mems[buffer].mem_type != CL_MEM_OBJECT_BUFFER {
            return Err(CL_INVALID_MEM_OBJECT);
        }
        let pflags = self.mems[buffer].flags;
        if validate_matching_buffer_flags(pflags, flags).is_err() {
            return Err(CL_INVALID_VALUE);
        }
        let f = inherit_mem_flags(flags, pflags);
        if validate_mem_flags(f, false).is_err() {
            return Err(CL_INVALID_VALUE);
        }
        if size == 0 {
            return Err(CL_INVALID_BUFFER_SIZE);
        }
        if origin > self.mems[buffer].size || size > self.mems[buffer].size - origin {
            return Err(CL_INVALID_VALUE);
        }
        proof {
            assert(Mem::wf_at(self@, buffer as int));
        }
        let m = Mem {
            context: self.mems[buffer].context,
            parent: Some(buffer),
            mem_type: CL_MEM_OBJECT_BUFFER,
            flags: f,
            size,
            offset: origin,
            has_host_ptr: self.mems[buffer].has_host_ptr,
            image_format: ImageFormat::empty(),
            image_desc: ImageDesc::empty(),
            image_elem_size: 0,
            cbs: Vec::new(),
            res: None,
            maps: Vec::new(),
        };
        let h = self.mems.len();
        self.mems.push(m);
        proof {
            assert(self@.take(h as int) =~= old(self)@);
            assert forall|j: int| 0 <= j < self@.len() implies #[trigger] Mem::wf_at(self@, j) by {
                if j < h {
                    assert(Mem::wf_at(old(self)@, j));
                    assert(self@[j] == old(self)@[j]);
                }
            }
            assert forall|j: int, k: int|
                0 <= j < self@.len() && 0 <= k < self@[j].maps@.len() implies #[trigger] self@[j].maps@[k].0
                    < self.next_addr by {
                if j < h {
                    assert(self@[j] == old(self)@[j]);
                }
            }
            let root = old(self)@[buffer as int].res.unwrap()@;
            assert(root.subrange(0, old(self)@[buffer as int].size as int) =~= root);
        }
        Ok(h)
    }
}

} // verus!

verus! {

/// `new` equals `old` but at index `i`.
pub open spec fn only_changed(old: Seq<Mem>, new: Seq<Mem>, i: int) -> bool {
    &&& new.len() == old.len()
    &&& forall|j: int| 0 <= j < old.len() && j != i ==> new[j] == old[j]
}

/// Every object of `new` has the shape of the same object in `old`.
pub open spec fn shape_kept(old: Seq<Mem>, new: Seq<Mem>) -> bool {
    &&& new.len() == old.len()
    &&& forall|i: int| 0 <= i < old.len() ==> same_shape(old[i], #[trigger] new[i])
}

/// `a` and `b` agree on everything but their bytes' contents, their mappings
/// and their callbacks.
pub open spec fn same_shape(a: Mem, b: Mem) -> bool {
    &&& a.context == b.context
    &&& a.parent == b.parent
    &&& a.mem_type == b.mem_type
    &&& a.flags == b.flags
    &&& a.size == b.size
    &&& a.offset == b.offset
    &&& a.has_host_ptr == b.has_host_ptr
    &&& a.image_format == b.image_format
    &&& a.image_desc == b.image_desc
    &&& a.image_elem_size == b.image_elem_size
    &&& a.res.is_some() == b.res.is_some()
    &&& (a.res.is_some() ==> a.res.unwrap()@.len() == b.res.unwrap()@.len())
}

fn placeholder() -> (r: Mem)
    ensures
        r.maps@.len() == 0,
{
    Mem {
        context: 0,
        parent: None,
        mem_type: 0,
        flags: 0,
        size: 0,
        offset: 0,
        has_host_ptr: false,
        image_format: ImageFormat::empty(),
        image_desc: ImageDesc::empty(),
        image_elem_size: 0,
        cbs: Vec::new(),
        res: None,
        maps: Vec::new(),
    }
}

impl MemStore {
    proof fn lemma_wf_after_change(old: MemStore, new: MemStore, i: int)
        requires
            old.wf(),
            0 <= i < old@.len(),
            only_changed(old@, new@, i),
            same_shape(old@[i], new@[i]),
            maps_unique(new@[i].maps@),
            new.next_addr >= old.next_addr,
            forall|k: int| 0 <= k < new@[i].maps@.len() ==> #[trigger] new@[i].maps@[k].0 < new.next_addr,
        ensures
            new.wf(),
    {
        assert forall|j: int| 0 <= j < new@.len() implies #[trigger] Mem::wf_at(new@, j) by {
            assert(Mem::wf_at(old@, j));
            if let Some(p) = old@[j].parent {
                assert(Mem::wf_at(old@, p as int));
            }
        }
        assert forall|j: int, k: int|
            0 <= j < new@.len() && 0 <= k < new@[j].maps@.len() implies #[trigger] new@[j].maps@[k].0
                < new.next_addr by {
            if j != i {
                assert(old@[j].maps@[k].0 < old.next_addr);
            }
        }
    }

    fn take(&mut self, i: usize) -> (r: Mem)
        requires
            i < old(self)@.len(),
        ensures
            r == old(self)@[i as int],
            only_changed(old(self)@, final(self)@, i as int),
            final(self).next_addr == old(self).next_addr,
    {
        let mut m = placeholder();
        core::mem::swap(&mut self.mems[i], &mut m);
        m
    }

    fn put(&mut self, i: usize, m: Mem)
        requires
            i < old(self)@.len(),
        ensures
            final(self)@ == old(self)@.update(i as int, m),
            final(self).next_addr == old(self).next_addr,
    {
        let mut m = m;
        core::mem::swap(&mut self.mems[i], &mut m);
    }

    /// The index of the object whose bytes `h` uses.
    fn root(&self, h: usize) -> (r: usize)
        requires
            h < self@.len(),
        ensures
            r == self@[h as int].root_of(h as int),
    {
        match self.mems[h].parent {
            Some(p) => p,
            None => h,
        }
    }
}

} // verus!

verus! {

impl MemStore {
    /// The bytes of the root that object `h` uses.
    pub open spec fn root_bytes(&self, h: int) -> Seq<u8> {
        self@[self@[h].root_of(h)].res.unwrap()@
    }

    /// The store after the root of `h` took the bytes `b`, all else kept.
    pub open spec fn root_bytes_now(old: MemStore, new: MemStore, h: int, b: Seq<u8>) -> bool {
        let r = old@[h].root_of(h);
        &&& new.wf()
        &&& only_changed(old@, new@, r)
        &&& same_shape(old@[r], new@[r])
        &&& new@[r].maps@ == old@[r].maps@
        &&& new@[r].cbs@ == old@[r].cbs@
        &&& new@[r].res.unwrap()@ == b
        &&& new.next_addr_spec() == old.next_addr_spec()
    }

    /// Writes `data` into buffer `h` at `offset`.
    pub fn write_from_user(&mut self, h: usize, offset: usize, data: &Vec<u8>)
        requires
            old(self).wf(),
            h < old(self)@.len(),
            old(self)@[h as int].mem_type == CL_MEM_OBJECT_BUFFER,
            offset + data@.len() <= old(self)@[h as int].size,
        ensures
            MemStore::root_bytes_now(
                *old(self),
                *final(self),
                h as int,
                copy_bytes(
                    old(self).root_bytes(h as int),
                    data@,
                    0,
                    old(self)@[h as int].offset + offset,
                    data@.len() as int,
                ),
            ),
    {
        proof {
            assert(Mem::wf_at(self@, h as int));
            if let Some(p) = self@[h as int].parent {
                assert(Mem::wf_at(self@, p as int));
            }
        }
        let r = self.root(h);
        let at = self.mems[h].offset + offset;
        let ghost old_store = *self;
        let mut m = self.take(r);
        let mut b: Option<Vec<u8>> = None;
        core::mem::swap(&mut m.res, &mut b);
        if let Some(mut v) = b {
            copy_row(data, &mut v, 0, at, data.len());
            m.res = Some(v);
        }
        self.put(r, m);
        proof {
            MemStore::lemma_wf_after_change(old_store, *self, r as int);
        }
    }

    /// Writes a rectangle of `src` into buffer `h`; `dst_origin` is relative to
    /// the buffer.
    pub fn write_from_user_rect(
        &mut self,
        h: usize,
        src: &Vec<u8>,
        region: &CLVec,
        src_origin: &CLVec,
        src_row_pitch: usize,
        src_slice_pitch: usize,
        dst_origin: &CLVec,
        dst_row_pitch: usize,
        dst_slice_pitch: usize,
    )
        requires
            old(self).wf(),
            h < old(self)@.len(),
            old(self)@[h as int].mem_type == CL_MEM_OBJECT_BUFFER,
            region@[1] >= 1,
            src_row_pitch >= 1,
            src_slice_pitch >= 1,
            dst_row_pitch >= 1,
            dst_slice_pitch >= 1,
            region_end(src_origin@, 0, region@, src_row_pitch as int, src_slice_pitch as int)
                <= src@.len(),
            region_end(dst_origin@, 0, region@, dst_row_pitch as int, dst_slice_pitch as int)
                <= old(self)@[h as int].size,
        ensures
            MemStore::root_bytes_now(
                *old(self),
                *final(self),
                h as int,
                rect_copy(
                    old(self).root_bytes(h as int),
                    src@,
                    region@,
                    src_origin@,
                    src_row_pitch as int,
                    src_slice_pitch as int,
                    dst_origin@.update(0, (dst_origin@[0] + old(self)@[h as int].offset) as usize),
                    dst_row_pitch as int,
                    dst_slice_pitch as int,
                    (region@[1] * region@[2]) as nat,
                ),
            ),
    {
        proof {
            assert(Mem::wf_at(self@, h as int));
            if let Some(p) = self@[h as int].parent {
                assert(Mem::wf_at(self@, p as int));
            }
        }
        let r = self.root(h);
        let mut shifted = *dst_origin;
        shifted.vals[0] = dst_origin.vals[0] + self.mems[h].offset;
        assert(shifted@ =~= dst_origin@.update(0, (dst_origin@[0] + self@[h as int].offset) as usize));
        let ghost old_store = *self;
        let mut m = self.take(r);
        let mut b: Option<Vec<u8>> = None;
        core::mem::swap(&mut m.res, &mut b);
        if let Some(mut v) = b {
            sw_copy(src, &mut v, region, src_origin, src_row_pitch, src_slice_pitch, &shifted,
                dst_row_pitch, dst_slice_pitch);
            m.res = Some(v);
        }
        self.put(r, m);
        proof {
            MemStore::lemma_wf_after_change(old_store, *self, r as int);
        }
    }
}

} // verus!

verus! {

/// A copy of `v`.
fn snapshot(v: &Vec<u8>) -> (r: Vec<u8>)
    ensures
        r@ == v@,
{
    let mut r: Vec<u8> = Vec::new();
    let mut i: usize = 0;
    while i < v.len()
        invariant
            i <= v@.len(),
            r@ == v@.take(i as int),
        decreases v@.len() - i,
    {
        r.push(v[i]);
        i = i + 1;
        assert(r@ =~= v@.take(i as int));
    }
    assert(r@ =~= v@);
    r
}

impl MemStore {
    /// Reads a rectangle of buffer `h` into `dst`; `src_origin` is relative to
    /// the buffer.
    pub fn read_to_user_rect(
        &self,
        h: usize,
        dst: &mut Vec<u8>,
        region: &CLVec,
        src_origin: &CLVec,
        src_row_pitch: usize,
        src_slice_pitch: usize,
        dst_origin: &CLVec,
        dst_row_pitch: usize,
        dst_slice_pitch: usize,
    )
        requires
            self.wf(),
            h < self@.len(),
            self@[h as int].mem_type == CL_MEM_OBJECT_BUFFER,
            region@[1] >= 1,
            src_row_pitch >= 1,
            src_slice_pitch >= 1,
            dst_row_pitch >= 1,
            dst_slice_pitch >= 1,
            region_end(src_origin@, 0, region@, src_row_pitch as int, src_slice_pitch as int)
                <= self@[h as int].size,
            region_end(dst_origin@, 0, region@, dst_row_pitch as int, dst_slice_pitch as int)
                <= old(dst)@.len(),
        ensures
            final(dst)@ == rect_copy(
                old(dst)@,
                self.root_bytes(h as int),
                region@,
                src_origin@.update(0, (src_origin@[0] + self@[h as int].offset) as usize),
                src_row_pitch as int,
                src_slice_pitch as int,
                dst_origin@,
                dst_row_pitch as int,
                dst_slice_pitch as int,
                (region@[1] * region@[2]) as nat,
            ),
    {
        proof {
            assert(Mem::wf_at(self@, h as int));
            if let Some(p) = self@[h as int].parent {
                assert(Mem::wf_at(self@, p as int));
            }
        }
        let r = self.root(h);
        let mut shifted = *src_origin;
        shifted.vals[0] = src_origin.vals[0] + self.mems[h].offset;
        assert(shifted@ =~= src_origin@.update(0, (src_origin@[0] + self@[h as int].offset) as usize));
        if let Some(v) = &self.mems[r].res {
            sw_copy(v, dst, region, &shifted, src_row_pitch, src_slice_pitch, dst_origin,
                dst_row_pitch, dst_slice_pitch);
        }
    }

    /// Copies a rectangle from buffer `src` to buffer `dst`, both origins
    /// relative to their buffers. The source is read as it stood before the
    /// copy.
    pub fn copy_to(
        &mut self,
        src: usize,
        dst: usize,
        region: &CLVec,
        src_origin: &CLVec,
        src_row_pitch: usize,
        src_slice_pitch: usize,
        dst_origin: &CLVec,
        dst_row_pitch: usize,
        dst_slice_pitch: usize,
    )
        requires
            old(self).wf(),
            src < old(self)@.len(),
            dst < old(self)@.len(),
            old(self)@[src as int].mem_type == CL_MEM_OBJECT_BUFFER,
            old(self)@[dst as int].mem_type == CL_MEM_OBJECT_BUFFER,
            region@[1] >= 1,
            src_row_pitch >= 1,
            src_slice_pitch >= 1,
            dst_row_pitch >= 1,
            dst_slice_pitch >= 1,
            region_end(src_origin@, 0, region@, src_row_pitch as int, src_slice_pitch as int)
                <= old(self)@[src as int].size,
            region_end(dst_origin@, 0, region@, dst_row_pitch as int, dst_slice_pitch as int)
                <= old(self)@[dst as int].size,
        ensures
            MemStore::root_bytes_now(
                *old(self),
                *final(self),
                dst as int,
                rect_copy(
                    old(self).root_bytes(dst as int),
                    old(self).root_bytes(src as int),
                    region@,
                    src_origin@.update(0, (src_origin@[0] + old(self)@[src as int].offset) as usize),
                    src_row_pitch as int,
                    src_slice_pitch as int,
                    dst_origin@.update(0, (dst_origin@[0] + old(self)@[dst as int].offset) as usize),
                    dst_row_pitch as int,
                    dst_slice_pitch as int,
                    (region@[1] * region@[2]) as nat,
                ),
            ),
    {
        proof {
            assert(Mem::wf_at(self@, src as int));
            assert(Mem::wf_at(self@, dst as int));
            if let Some(p) = self@[src as int].parent {
                assert(Mem::wf_at(self@, p as int));
            }
            if let Some(p) = self@[dst as int].parent {
                assert(Mem::wf_at(self@, p as int));
            }
        }
        let rs = self.root(src);
        let rd = self.root(dst);
        let mut s_shift = *src_origin;
        s_shift.vals[0] = src_origin.vals[0] + self.mems[src].offset;
        assert(s_shift@ =~= src_origin@.update(0, (src_origin@[0] + self@[src as int].offset) as usize));
        let mut d_shift = *dst_origin;
        d_shift.vals[0] = dst_origin.vals[0] + self.mems[dst].offset;
        assert(d_shift@ =~= dst_origin@.update(0, (dst_origin@[0] + self@[dst as int].offset) as usize));
        let source = match &self.mems[rs].res {
            Some(v) => snapshot(v),
            None => Vec::new(),
        };
        let ghost old_store = *self;
        let mut m = self.take(rd);
        let mut b: Option<Vec<u8>> = None;
        core::mem::swap(&mut m.res, &mut b);
        if let Some(mut v) = b {
            sw_copy(&source, &mut v, region, &s_shift, src_row_pitch, src_slice_pitch, &d_shift,
                dst_row_pitch, dst_slice_pitch);
            m.res = Some(v);
        }
        self.put(rd, m);
        proof {
            MemStore::lemma_wf_after_change(old_store, *self, rd as int);
        }
    }
}

} // verus!

verus! {

impl MemStore {
    /// Maps `size` bytes of object `h` from `offset` and records the mapping
    /// under a fresh address, which it returns. Fails only when no address is
    /// left.
    pub fn map(&mut self, h: usize, offset: usize, size: usize) -> (r: Result<usize, i32>)
        requires
            old(self).wf(),
            h < old(self)@.len(),
        ensures
            final(self).wf(),
            r.is_err() <==> old(self).next_addr_spec() == usize::MAX,
            r.is_err() ==> r == Err::<usize, i32>(crate::cl::CL_OUT_OF_HOST_MEMORY) && final(self)@
                == old(self)@,
            r.is_ok() ==> {
                &&& only_changed(old(self)@, final(self)@, h as int)
                &&& same_shape(old(self)@[h as int], final(self)@[h as int])
                &&& final(self)@[h as int].res == old(self)@[h as int].res
                &&& final(self)@[h as int].cbs@ == old(self)@[h as int].cbs@
                &&& final(self)@[h as int].maps@ == old(self)@[h as int].maps@.push(
                    (r.unwrap(), Mapping { offset, size }),
                )
                &&& forall|k: int|
                    0 <= k < old(self)@[h as int].maps@.len() ==> old(self)@[h as int].maps@[k].0
                        != r.unwrap()
            },
    {
        if self.next_addr == usize::MAX {
            return Err(crate::cl::CL_OUT_OF_HOST_MEMORY);
        }
        let addr = self.next_addr;
        proof {
            assert forall|k: int| 0 <= k < self@[h as int].maps@.len() implies self@[h as int].maps@[k].0
                != addr by {
                assert(self@[h as int].maps@[k].0 < self.next_addr);
            }
        }
        let ghost old_store = *self;
        let mut m = self.take(h);
        m.maps.push((addr, Mapping { offset, size }));
        self.put(h, m);
        self.next_addr = addr + 1;
        proof {
            assert(Mem::wf_at(old_store@, h as int));
            MemStore::lemma_wf_after_change(old_store, *self, h as int);
        }
        Ok(addr)
    }

    /// Removes the mapping of object `h` recorded under `addr`; `false` when
    /// there is none.
    pub fn unmap(&mut self, h: usize, addr: usize) -> (r: bool)
        requires
            old(self).wf(),
            h < old(self)@.len(),
        ensures
            final(self).wf(),
            r == exists|k: int|
                0 <= k < old(self)@[h as int].maps@.len() && #[trigger] old(self)@[h as int].maps@[k].0
                    == addr,
            !r ==> final(self)@ == old(self)@,
            r ==> {
                &&& only_changed(old(self)@, final(self)@, h as int)
                &&& same_shape(old(self)@[h as int], final(self)@[h as int])
                &&& final(self)@[h as int].res == old(self)@[h as int].res
                &&& final(self)@[h as int].cbs@ == old(self)@[h as int].cbs@
                &&& exists|k: int|
                    0 <= k < old(self)@[h as int].maps@.len() && old(self)@[h as int].maps@[k].0
                        == addr && final(self)@[h as int].maps@ == old(self)@[h as int].maps@.remove(k)
            },
    {
        let n = self.mems[h].maps.len();
        let mut i: usize = 0;
        while i < n
            invariant
                i <= n,
                n == self@[h as int].maps@.len(),
                h < self@.len(),
                self@ == old(self)@,
                self.next_addr == old(self).next_addr,
                old(self).wf(),
                forall|k: int| 0 <= k < i ==> self@[h as int].maps@[k].0 != addr,
            decreases n - i,
        {
            if self.mems[h].maps[i].0 == addr {
                let ghost old_store = *self;
                let mut m = self.take(h);
                m.maps.remove(i);
                self.put(h, m);
                proof {
                    assert(Mem::wf_at(old_store@, h as int));
                    let om = old_store@[h as int].maps@;
                    let nm = self@[h as int].maps@;
                    assert(nm =~= om.remove(i as int));
                    assert forall|a: int, b: int| 0 <= a < b < nm.len() implies nm[a].0 != nm[b].0 by {
                        let a2 = if a < i { a } else { a + 1 };
                        let b2 = if b < i { b } else { b + 1 };
                        assert(om[a2] == nm[a] && om[b2] == nm[b]);
                    }
                    assert forall|k: int| 0 <= k < nm.len() implies #[trigger] nm[k].0 < self.next_addr by {
                        let k2 = if k < i { k } else { k + 1 };
                        assert(om[k2] == nm[k]);
                        assert(old_store@[h as int].maps@[k2].0 < old_store.next_addr);
                    }
                    MemStore::lemma_wf_after_change(old_store, *self, h as int);
                }
                return true;
            }
            i = i + 1;
        }
        false
    }

    /// Registers a destructor callback on object `h`.
    pub fn add_destructor_callback(&mut self, h: usize, cb: u64)
        requires
            old(self).wf(),
            h < old(self)@.len(),
        ensures
            final(self).wf(),
            only_changed(old(self)@, final(self)@, h as int),
            same_shape(old(self)@[h as int], final(self)@[h as int]),
            final(self)@[h as int].cbs@ == old(self)@[h as int].cbs@.push(cb),
            final(self)@[h as int].maps@ == old(self)@[h as int].maps@,
    {
        let ghost old_store = *self;
        let mut m = self.take(h);
        m.cbs.push(cb);
        self.put(h, m);
        proof {
            assert(Mem::wf_at(old_store@, h as int));
            MemStore::lemma_wf_after_change(old_store, *self, h as int);
        }
    }

    /// The destructor callbacks of object `h` in the order teardown runs them:
    /// the reverse of registration.
    pub fn destructor_order(&self, h: usize) -> (r: Vec<u64>)
        requires
            h < self@.len(),
        ensures
            r@ == self@[h as int].cbs@.reverse(),
    {
        let cbs = &self.mems[h].cbs;
        let mut r: Vec<u64> = Vec::new();
        let mut i: usize = cbs.len();
        while i > 0
            invariant
                i <= cbs@.len(),
                *cbs == self@[h as int].cbs,
                r@ == cbs@.subrange(i as int, cbs@.len() as int).reverse(),
            decreases i,
        {
            i = i - 1;
            r.push(cbs[i]);
            assert(r@ =~= cbs@.subrange(i as int, cbs@.len() as int).reverse());
        }
        assert(cbs@.subrange(0, cbs@.len() as int) =~= cbs@);
        r
    }
}

} // verus!

verus! {

impl MemStore {
    /// An object's bytes end within the address space.
    pub proof fn lemma_extent(&self, h: int)
        requires
            self.wf(),
            0 <= h < self@.len(),
        ensures
            self@[h].offset + self@[h].size <= usize::MAX,
    {
        assert(Mem::wf_at(self@, h));
    }
}

} // verus!

verus! {

use crate::cl::{
    CL_INVALID_IMAGE_DESCRIPTOR, CL_INVALID_IMAGE_FORMAT_DESCRIPTOR, CL_INVALID_OPERATION,
    CL_MEM_OBJECT_IMAGE1D_BUFFER, CL_MEM_OBJECT_IMAGE2D, CL_BGRA, CL_SBGRA, CL_RGBA, CL_SRGBA,
    CL_RGB, CL_SRGB, CL_RGBX, CL_SRGBX, CL_DEPTH, CL_R, CL_MEM_USE_HOST_PTR,
};
use crate::context::Device;
use crate::image::desc_eq_no_buffer;

/// Channel orders an image may take when viewing another image's data with
/// the same data type.
pub open spec fn orders_compatible(new_order: u32, old_order: u32) -> bool {
    new_order == old_order || (new_order == CL_SBGRA && old_order == CL_BGRA) || (new_order == CL_BGRA
        && old_order == CL_SBGRA) || (new_order == CL_SRGBA && old_order == CL_RGBA) || (new_order
        == CL_RGBA && old_order == CL_SRGBA) || (new_order == CL_SRGB && old_order == CL_RGB) || (
    new_order == CL_RGB && old_order == CL_SRGB) || (new_order == CL_SRGBX && old_order == CL_RGBX)
        || (new_order == CL_RGBX && old_order == CL_SRGBX) || (new_order == CL_DEPTH && old_order
        == CL_R)
}

/// Every device has a nonzero image base alignment that `addr` meets.
pub open spec fn host_ptr_aligned(devs: Seq<Device>, addr: usize) -> Option<i32> {
    if exists|i: int| 0 <= i < devs.len() && (#[trigger] devs[i]).image_base_address_alignment == 0 {
        Some(CL_INVALID_OPERATION)
    } else if exists|i: int| 0 <= i < devs.len() && (#[trigger] devs[i]).image_base_address_alignment != 0
        && addr % (devs[i].image_base_address_alignment as usize) != 0 {
        Some(CL_INVALID_IMAGE_DESCRIPTOR)
    } else {
        None
    }
}

fn check_alignment(devs: &Vec<Device>, addr: usize) -> (r: Option<i32>)
    ensures
        r == host_ptr_aligned(devs@, addr),
{
    let mut zero = false;
    let mut misaligned = false;
    let mut i: usize = 0;
    while i < devs.len()
        invariant
            i <= devs@.len(),
            zero == exists|j: int| 0 <= j < i && (#[trigger] devs@[j]).image_base_address_alignment == 0,
            misaligned == exists|j: int| 0 <= j < i && (#[trigger] devs@[j]).image_base_address_alignment != 0
                && addr % (devs@[j].image_base_address_alignment as usize) != 0,
        decreases devs@.len() - i,
    {
        let a = devs[i].image_base_address_alignment as usize;
        if a == 0 {
            zero = true;
        } else if addr % a != 0 {
            misaligned = true;
        }
        i = i + 1;
    }
    if zero {
        Some(CL_INVALID_OPERATION)
    } else if misaligned {
        Some(CL_INVALID_IMAGE_DESCRIPTOR)
    } else {
        None
    }
}

/// The flags `validate_buffer` returns, or its error, in the order the checks
/// run, for an image described by `desc` with format `format`.
pub open spec fn buffer_result(
    desc: ImageDesc,
    flags: u64,
    format: ImageFormat,
    host_addr: usize,
    elem: usize,
    mems: Seq<Mem>,
    devs: Seq<Device>,
) -> Result<u64, i32> {
    match desc.mem_object {
        None => if desc.image_type == CL_MEM_OBJECT_IMAGE1D_BUFFER {
            Err(CL_INVALID_IMAGE_DESCRIPTOR)
        } else {
            Ok(flags)
        },
        Some(h) => {
            let m = mems[h as int];
            let shape_err = if m.mem_type == CL_MEM_OBJECT_BUFFER {
                if desc.image_type == CL_MEM_OBJECT_IMAGE1D_BUFFER {
                    if desc.image_width * elem > m.size { Some(CL_INVALID_IMAGE_DESCRIPTOR) } else { None }
                } else if desc.image_type == CL_MEM_OBJECT_IMAGE2D {
                    if desc.image_row_pitch * desc.image_height > m.size { Some(CL_INVALID_IMAGE_DESCRIPTOR) } else { None }
                } else {
                    Some(CL_INVALID_IMAGE_DESCRIPTOR)
                }
            } else if m.mem_type == CL_MEM_OBJECT_IMAGE2D {
                if desc.image_type != m.mem_type || !(desc.image_type == m.image_desc.image_type
                    && desc.image_width == m.image_desc.image_width && desc.image_height
                    == m.image_desc.image_height && desc.image_depth == m.image_desc.image_depth
                    && desc.image_array_size == m.image_desc.image_array_size && desc.image_row_pitch
                    == m.image_desc.image_row_pitch && desc.image_slice_pitch == m.image_desc.image_slice_pitch
                    && desc.num_mip_levels == m.image_desc.num_mip_levels && desc.num_samples
                    == m.image_desc.num_samples) {
                    Some(CL_INVALID_IMAGE_DESCRIPTOR)
                } else if format.image_channel_data_type != m.image_format.image_channel_data_type
                    || !orders_compatible(format.image_channel_order, m.image_format.image_channel_order) {
                    Some(CL_INVALID_IMAGE_FORMAT_DESCRIPTOR)
                } else {
                    None
                }
            } else {
                Some(CL_INVALID_IMAGE_DESCRIPTOR)
            };
            if shape_err.is_some() {
                Err(shape_err.unwrap())
            } else if has(m.flags, CL_MEM_USE_HOST_PTR) && host_ptr_aligned(devs, host_addr).is_some() {
                Err(host_ptr_aligned(devs, host_addr).unwrap())
            } else if flags_contradict_parent(m.flags, flags) {
                Err(CL_INVALID_VALUE)
            } else {
                Ok(inherited_flags(flags, m.flags))
            }
        },
    }
}

/// For an image created from another memory object, checks that the object
/// can back it and derives the image's flags from the object's; an image
/// buffer needs such an object.
pub fn validate_buffer(
    desc: &ImageDesc,
    flags: u64,
    format: &ImageFormat,
    host_addr: usize,
    elem_size: usize,
    mems: &MemStore,
    devs: &Vec<Device>,
) -> (r: Result<u64, i32>)
    requires
        desc.mem_object.is_some() ==> desc.mem_object.unwrap() < mems@.len(),
    ensures
        r == buffer_result(*desc, flags, *format, host_addr, elem_size, mems@, devs@),
{
    let h = match desc.mem_object {
        None => {
            if desc.image_type == CL_MEM_OBJECT_IMAGE1D_BUFFER {
                return Err(CL_INVALID_IMAGE_DESCRIPTOR);
            }
            return Ok(flags);
        },
        Some(h) => h,
    };
    let m = mems.get(h);
    if m.mem_type == CL_MEM_OBJECT_BUFFER {
        if desc.image_type == CL_MEM_OBJECT_IMAGE1D_BUFFER {
            match desc.image_width.checked_mul(elem_size) {
                Some(need) => {
                    if need > m.size {
                        return Err(CL_INVALID_IMAGE_DESCRIPTOR);
                    }
                },
                None => return Err(CL_INVALID_IMAGE_DESCRIPTOR),
            }
        } else if desc.image_type == CL_MEM_OBJECT_IMAGE2D {
            match desc.image_row_pitch.checked_mul(desc.image_height) {
                Some(need) => {
                    if need > m.size {
                        return Err(CL_INVALID_IMAGE_DESCRIPTOR);
                    }
                },
                None => return Err(CL_INVALID_IMAGE_DESCRIPTOR),
            }
        } else {
            return Err(CL_INVALID_IMAGE_DESCRIPTOR);
        }
    } else if m.mem_type == CL_MEM_OBJECT_IMAGE2D {
        if desc.image_type != m.mem_type || !desc_eq_no_buffer(desc, &m.image_desc) {
            return Err(CL_INVALID_IMAGE_DESCRIPTOR);
        }
        let o = format.image_channel_order;
        let mo = m.image_format.image_channel_order;
        let compatible = o == mo || (o == CL_SBGRA && mo == CL_BGRA) || (o == CL_BGRA && mo == CL_SBGRA)
            || (o == CL_SRGBA && mo == CL_RGBA) || (o == CL_RGBA && mo == CL_SRGBA) || (o == CL_SRGB
            && mo == CL_RGB) || (o == CL_RGB && mo == CL_SRGB) || (o == CL_SRGBX && mo == CL_RGBX) || (o
            == CL_RGBX && mo == CL_SRGBX) || (o == CL_DEPTH && mo == CL_R);
        if format.image_channel_data_type != m.image_format.image_channel_data_type || !compatible {
            return Err(CL_INVALID_IMAGE_FORMAT_DESCRIPTOR);
        }
    } else {
        return Err(CL_INVALID_IMAGE_DESCRIPTOR);
    }
    if m.flags & CL_MEM_USE_HOST_PTR != 0 {
        if let Some(e) = check_alignment(devs, host_addr) {
            return Err(e);
        }
    }
    if validate_matching_buffer_flags(m.flags, flags).is_err() {
        return Err(CL_INVALID_VALUE);
    }
    Ok(inherit_mem_flags(flags, m.flags))
}

impl MemStore {
    /// Adds an image object; it owns no bytes of its own.
    pub fn new_image(
        &mut self,
        context: u64,
        mem_type: u32,
        flags: u64,
        format: ImageFormat,
        desc: ImageDesc,
        elem_size: u8,
        has_host_ptr: bool,
    ) -> (r: usize)
        requires
            old(self).wf(),
            mem_type != CL_MEM_OBJECT_BUFFER,
        ensures
            final(self).wf(),
            r == old(self)@.len(),
            final(self)@.len() == old(self)@.len() + 1,
            final(self)@.take(old(self)@.len() as int) == old(self)@,
            final(self)@.last().context == context,
            final(self)@.last().parent.is_none(),
            final(self)@.last().mem_type == mem_type,
            final(self)@.last().flags == flags,
            final(self)@.last().size == 0,
            final(self)@.last().image_format == format,
            final(self)@.last().image_desc == desc,
            final(self)@.last().image_elem_size == elem_size,
            final(self)@.last().has_host_ptr == has_host_ptr,
            final(self)@.last().res.is_none(),
    {
        let m = Mem {
            context,
            parent: None,
            mem_type,
            flags,
            size: 0,
            offset: 0,
            has_host_ptr,
            image_format: format,
            image_desc: desc,
            image_elem_size: elem_size,
            cbs: Vec::new(),
            res: None,
            maps: Vec::new(),
        };
        let h = self.mems.len();
        self.mems.push(m);
        proof {
            assert(self@.take(h as int) =~= old(self)@);
            assert forall|j: int| 0 <= j < self@.len() implies #[trigger] Mem::wf_at(self@, j) by {
                if j < h {
                    assert(Mem::wf_at(old(self)@, j));
                    assert(self@[j] == old(self)@[j]);
                }
            }
            assert forall|j: int, k: int|
                0 <= j < self@.len() && 0 <= k < self@[j].maps@.len() implies #[trigger] self@[j].maps@[k].0
                    < self.next_addr by {
                if j < h {
                    assert(self@[j] == old(self)@[j]);
                }
            }
        }
        h
    }
}

} // verus!
