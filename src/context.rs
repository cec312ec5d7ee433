//! Devices and contexts: the limits that validation reads.
use vstd::prelude::*;
use crate::image::ImageFormat;

verus! {

/// An image format a device supports, with the memory flags it allows for
/// each image type.
pub struct FormatSupport {
    pub format: ImageFormat,
    pub types: Vec<(u32, u64)>,
}

/// A compute device, described by the limits the runtime checks against.
pub struct Device {
    pub max_mem_alloc: u64,
    pub address_bits: u32,
    pub max_grid_dimensions: u32,
    pub max_block_sizes: [usize; 3],
    pub image_supported: bool,
    pub image_2d_size: usize,
    pub image_3d_size: usize,
    pub image_buffer_size: usize,
    pub image_array_size: usize,
    pub image_base_address_alignment: u32,
    pub printf_buffer_size: u32,
    pub formats: Vec<FormatSupport>,
}

/// A context: an identity, the devices it owns, and the callbacks its
/// teardown runs.
pub struct Context {
    pub id: u64,
    pub devs: Vec<Device>,
    pub cbs: Vec<u64>,
}

impl Context {
    pub fn new(id: u64, devs: Vec<Device>) -> (r: Context)
        ensures
            r.id == id,
            r.devs@ == devs@,
            r.cbs@.len() == 0,
    {
        Context { id, devs, cbs: Vec::new() }
    }

    /// Registers a destructor callback.
    pub fn add_destructor_callback(&mut self, cb: u64)
        ensures
            final(self).id == old(self).id,
            final(self).devs@ == old(self).devs@,
            final(self).cbs@ == old(self).cbs@.push(cb),
    {
        self.cbs.push(cb);
    }

    /// The destructor callbacks in the order teardown runs them: the reverse
    /// of registration.
    pub fn destructor_order(&self) -> (r: Vec<u64>)
        ensures
            r@ == self.cbs@.reverse(),
    {
        let mut r: Vec<u64> = Vec::new();
        let mut i: usize = self.cbs.len();
        while i > 0
            invariant
                i <= self.cbs@.len(),
                r@ == self.cbs@.subrange(i as int, self.cbs@.len() as int).reverse(),
            decreases i,
        {
            i = i - 1;
            r.push(self.cbs[i]);
            assert(r@ =~= self.cbs@.subrange(i as int, self.cbs@.len() as int).reverse());
        }
        assert(self.cbs@.subrange(0, self.cbs@.len() as int) =~= self.cbs@);
        r
    }
}

} // verus!
