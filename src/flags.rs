//! Memory flag validation and the inheritance rules for derived objects.
use vstd::prelude::*;
use crate::cl::{
    CL_INVALID_HOST_PTR, CL_INVALID_VALUE, CL_MAP_READ, CL_MAP_WRITE,
    CL_MAP_WRITE_INVALIDATE_REGION, CL_MEM_ALLOC_HOST_PTR, CL_MEM_COPY_HOST_PTR,
    CL_MEM_HOST_NO_ACCESS, CL_MEM_HOST_READ_ONLY, CL_MEM_HOST_WRITE_ONLY, CL_MEM_READ_ONLY,
    CL_MEM_READ_WRITE, CL_MEM_USE_HOST_PTR, CL_MEM_WRITE_ONLY,
};

verus! {

/// The device-access group: read-write, write-only, read-only.
pub const ACCESS_GROUP: u64 = 7;
/// The access bits a derived object inherits: the device-access group and
/// kernel read-and-write.
pub const INHERITED_ACCESS_MASK: u64 = 4103;
/// The host-pointer-origin group: use, alloc and copy host pointer.
pub const HOST_PTR_GROUP: u64 = 56;
/// The host-access group: host write-only, host read-only, host no-access.
pub const HOST_ACCESS_GROUP: u64 = 896;
/// Every bit a buffer may carry.
pub const BUFFER_FLAGS: u64 = 5055;
/// Every bit an image-format query may carry.
pub const IMAGE_QUERY_FLAGS: u64 = 4103;

/// Whether `a` and `b` share a set bit.
pub open spec fn has(a: u64, b: u64) -> bool {
    a & b != 0
}

/// How many of the three single bits `x`, `y`, `z` are set in `f`.
pub open spec fn count3(f: u64, x: u64, y: u64, z: u64) -> nat {
    (if has(f, x) { 1nat } else { 0nat }) + (if has(f, y) { 1nat } else { 0nat }) + (if has(f, z) {
        1nat
    } else {
        0nat
    })
}

/// The flag rule: no unknown bit, and at most one flag of each group.
pub open spec fn mem_flags_valid(flags: u64, images: bool) -> bool {
    &&& flags & !(if images { IMAGE_QUERY_FLAGS } else { BUFFER_FLAGS }) == 0
    &&& count3(flags, CL_MEM_READ_WRITE, CL_MEM_WRITE_ONLY, CL_MEM_READ_ONLY) <= 1
    &&& count3(flags, CL_MEM_USE_HOST_PTR, CL_MEM_ALLOC_HOST_PTR, CL_MEM_COPY_HOST_PTR) <= 1
    &&& count3(flags, CL_MEM_HOST_WRITE_ONLY, CL_MEM_HOST_READ_ONLY, CL_MEM_HOST_NO_ACCESS) <= 1
}

/// Whether `a` and `b` share a set bit.
pub fn bit_check(a: u64, b: u64) -> (r: bool)
    ensures
        r == has(a, b),
{
    a & b != 0
}

fn at_most_one(f: u64, x: u64, y: u64, z: u64) -> (r: bool)
    ensures
        r == (count3(f, x, y, z) <= 1),
{
    let n: u8 = (if f & x != 0 { 1u8 } else { 0 }) + (if f & y != 0 { 1u8 } else { 0 }) + (if f
        & z != 0 {
        1u8
    } else {
        0
    });
    n <= 1
}

/// Checks memory flags: for buffers every documented bit may appear, for image
/// format queries only the device-access bits; in each group at most one flag.
pub fn validate_mem_flags(flags: u64, images: bool) -> (r: Result<(), i32>)
    ensures
        r.is_ok() <==> mem_flags_valid(flags, images),
        r.is_err() ==> r == Err::<(), i32>(CL_INVALID_VALUE),
{
    let valid = if images {
        IMAGE_QUERY_FLAGS
    } else {
        BUFFER_FLAGS
    };
    if flags & !valid != 0 || !at_most_one(
        flags,
        CL_MEM_READ_WRITE,
        CL_MEM_WRITE_ONLY,
        CL_MEM_READ_ONLY,
    ) || !at_most_one(flags, CL_MEM_USE_HOST_PTR, CL_MEM_ALLOC_HOST_PTR, CL_MEM_COPY_HOST_PTR)
        || !at_most_one(
        flags,
        CL_MEM_HOST_WRITE_ONLY,
        CL_MEM_HOST_READ_ONLY,
        CL_MEM_HOST_NO_ACCESS,
    ) {
        return Err(CL_INVALID_VALUE);
    }
    Ok(())
}

/// Keeps only the device-access bits of `flags`.
pub fn filter_image_access_flags(flags: u64) -> (r: u64)
    ensures
        r == flags & INHERITED_ACCESS_MASK,
{
    flags & INHERITED_ACCESS_MASK
}

/// The flags of an object derived from one with `parent` flags, when `flags`
/// were requested.
pub open spec fn inherited_flags(flags: u64, parent: u64) -> u64 {
    let a = if flags & INHERITED_ACCESS_MASK == 0 {
        flags | (parent & INHERITED_ACCESS_MASK)
    } else {
        flags
    };
    let b = (a & !HOST_PTR_GROUP) | (parent & HOST_PTR_GROUP);
    if b & HOST_ACCESS_GROUP == 0 {
        b | (parent & HOST_ACCESS_GROUP)
    } else {
        b
    }
}

/// Flags of a derived object: unset access and host-access groups come from
/// the parent, and the host-pointer-origin group always does.
pub fn inherit_mem_flags(flags: u64, parent_flags: u64) -> (r: u64)
    ensures
        r == inherited_flags(flags, parent_flags),
        r & INHERITED_ACCESS_MASK == (if flags & INHERITED_ACCESS_MASK != 0 {
            flags & INHERITED_ACCESS_MASK
        } else {
            parent_flags & INHERITED_ACCESS_MASK
        }),
        r & HOST_PTR_GROUP == parent_flags & HOST_PTR_GROUP,
        r & HOST_ACCESS_GROUP == (if flags & HOST_ACCESS_GROUP != 0 {
            flags & HOST_ACCESS_GROUP
        } else {
            parent_flags & HOST_ACCESS_GROUP
        }),
        r & !(INHERITED_ACCESS_MASK | HOST_PTR_GROUP | HOST_ACCESS_GROUP) == flags & !(
        INHERITED_ACCESS_MASK | HOST_PTR_GROUP | HOST_ACCESS_GROUP),
{
    let mut f = flags;
    if f & INHERITED_ACCESS_MASK == 0 {
        f = f | (parent_flags & INHERITED_ACCESS_MASK);
    }
    f = f & !HOST_PTR_GROUP;
    f = f | (parent_flags & HOST_PTR_GROUP);
    if f & HOST_ACCESS_GROUP == 0 {
        f = f | (parent_flags & HOST_ACCESS_GROUP);
    }
    let p = parent_flags;
    assert(f & 4103 == (if flags & 4103 != 0 { flags & 4103 } else { p & 4103 })
        && f & 56 == p & 56
        && f & 896 == (if flags & 896 != 0 { flags & 896 } else { p & 896 })
        && f & !(4103u64 | 56u64 | 896u64) == flags & !(4103u64 | 56u64 | 896u64)) by (bit_vector)
        requires
            f == ({
                let a = if flags & 4103 == 0 { flags | (p & 4103) } else { flags };
                let b = (a & !56u64) | (p & 56);
                if b & 896 == 0 { b | (p & 896) } else { b }
            }),
    ;
    f
}

/// Host pointer rule: a pointer is given exactly when use or copy host pointer
/// is requested.
pub fn validate_host_ptr(has_host_ptr: bool, flags: u64) -> (r: Result<(), i32>)
    ensures
        r.is_ok() <==> (has_host_ptr == has(flags, CL_MEM_USE_HOST_PTR | CL_MEM_COPY_HOST_PTR)),
        r.is_err() ==> r == Err::<(), i32>(CL_INVALID_HOST_PTR),
{
    let wants = flags & (CL_MEM_USE_HOST_PTR | CL_MEM_COPY_HOST_PTR) != 0;
    if has_host_ptr != wants {
        return Err(CL_INVALID_HOST_PTR);
    }
    Ok(())
}

/// Whether `flags`, requested for an object derived from one with
/// `parent_flags`, contradict the parent's restrictions.
pub open spec fn flags_contradict_parent(parent_flags: u64, flags: u64) -> bool {
    (has(parent_flags, CL_MEM_WRITE_ONLY) && has(flags, CL_MEM_READ_WRITE | CL_MEM_READ_ONLY))
        || (has(parent_flags, CL_MEM_READ_ONLY) && has(flags, CL_MEM_READ_WRITE | CL_MEM_WRITE_ONLY))
        || has(flags, CL_MEM_USE_HOST_PTR | CL_MEM_ALLOC_HOST_PTR | CL_MEM_COPY_HOST_PTR) || (has(
        parent_flags,
        CL_MEM_HOST_WRITE_ONLY,
    ) && has(flags, CL_MEM_HOST_READ_ONLY)) || (has(parent_flags, CL_MEM_HOST_READ_ONLY) && has(
        flags,
        CL_MEM_HOST_WRITE_ONLY,
    )) || (has(parent_flags, CL_MEM_HOST_NO_ACCESS) && has(
        flags,
        CL_MEM_HOST_READ_ONLY | CL_MEM_HOST_WRITE_ONLY,
    ))
}

/// Rejects requested flags that widen the parent's device or host access, or
/// that name a host-pointer origin.
pub fn validate_matching_buffer_flags(parent_flags: u64, flags: u64) -> (r: Result<(), i32>)
    ensures
        r.is_ok() <==> !flags_contradict_parent(parent_flags, flags),
        r.is_err() ==> r == Err::<(), i32>(CL_INVALID_VALUE),
{
    if (bit_check(parent_flags, CL_MEM_WRITE_ONLY) && bit_check(
        flags,
        CL_MEM_READ_WRITE | CL_MEM_READ_ONLY,
    )) || (bit_check(parent_flags, CL_MEM_READ_ONLY) && bit_check(
        flags,
        CL_MEM_READ_WRITE | CL_MEM_WRITE_ONLY,
    )) || bit_check(flags, CL_MEM_USE_HOST_PTR | CL_MEM_ALLOC_HOST_PTR | CL_MEM_COPY_HOST_PTR)
        || (bit_check(parent_flags, CL_MEM_HOST_WRITE_ONLY) && bit_check(
        flags,
        CL_MEM_HOST_READ_ONLY,
    )) || (bit_check(parent_flags, CL_MEM_HOST_READ_ONLY) && bit_check(
        flags,
        CL_MEM_HOST_WRITE_ONLY,
    )) || (bit_check(parent_flags, CL_MEM_HOST_NO_ACCESS) && bit_check(
        flags,
        CL_MEM_HOST_READ_ONLY | CL_MEM_HOST_WRITE_ONLY,
    )) {
        return Err(CL_INVALID_VALUE);
    }
    Ok(())
}

/// The rule on map flags: only read, write and invalidate-region, and
/// invalidate-region never together with read or write.
pub open spec fn map_flags_valid(map_flags: u64) -> bool {
    map_flags & !7u64 == 0 && !(has(map_flags, CL_MAP_READ | CL_MAP_WRITE) && has(
        map_flags,
        CL_MAP_WRITE_INVALIDATE_REGION,
    ))
}

/// Checks map flags.
pub fn validate_map_flags(map_flags: u64) -> (r: Result<(), i32>)
    ensures
        r.is_ok() <==> map_flags_valid(map_flags),
        r.is_err() ==> r == Err::<(), i32>(CL_INVALID_VALUE),
{
    if map_flags & !7u64 != 0 || (map_flags & (CL_MAP_READ | CL_MAP_WRITE) != 0 && map_flags
        & CL_MAP_WRITE_INVALIDATE_REGION != 0) {
        return Err(CL_INVALID_VALUE);
    }
    Ok(())
}

} // verus!
