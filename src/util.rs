//! Small checks shared by the API entry points, and property encoding.
use vstd::prelude::*;
use crate::bytes::{le_bytes, push_le};
use crate::cl::{
    CL_DEVICE_TYPE_ACCELERATOR, CL_DEVICE_TYPE_ALL, CL_DEVICE_TYPE_CPU, CL_DEVICE_TYPE_CUSTOM,
    CL_DEVICE_TYPE_DEFAULT, CL_DEVICE_TYPE_GPU, CL_FALSE, CL_INVALID_DEVICE_TYPE, CL_TRUE,
};

verus! {

/// Every single device type bit.
pub const CL_DEVICE_TYPES: u32 = 31;

/// Accepts `CL_DEVICE_TYPE_ALL` or any combination of the device type bits.
pub fn check_cl_device_type(val: u64) -> (r: Result<(), i32>)
    ensures
        r.is_ok() <==> (val <= u32::MAX && (val == CL_DEVICE_TYPE_ALL as u64 || val & !(
        CL_DEVICE_TYPES as u64) == 0)),
        r.is_err() ==> r == Err::<(), i32>(CL_INVALID_DEVICE_TYPE),
{
    assert(CL_DEVICE_TYPES == CL_DEVICE_TYPE_ACCELERATOR | CL_DEVICE_TYPE_CPU | CL_DEVICE_TYPE_GPU
        | CL_DEVICE_TYPE_CUSTOM | CL_DEVICE_TYPE_DEFAULT) by (bit_vector);
    if val > u32::MAX as u64 {
        return Err(CL_INVALID_DEVICE_TYPE);
    }
    let v = val as u32;
    if v == CL_DEVICE_TYPE_ALL || v & CL_DEVICE_TYPES == v {
        proof {
            if v != CL_DEVICE_TYPE_ALL {
                assert(val & !(31u64) == 0) by (bit_vector)
                    requires v == val as u32, val <= 0xffff_ffffu64, v & 31u32 == v;
            }
        }
        return Ok(());
    }
    proof {
        assert(val & !(31u64) != 0) by (bit_vector)
            requires v == val as u32, val <= 0xffff_ffffu64, v & 31u32 != v;
    }
    Err(CL_INVALID_DEVICE_TYPE)
}

/// Reads an API boolean: `Some` for true or false, `None` for anything else.
pub fn check_cl_bool(val: u64) -> (r: Option<bool>)
    ensures
        r == (if val == CL_TRUE as u64 {
            Some(true)
        } else if val == CL_FALSE as u64 {
            Some(false)
        } else {
            None::<bool>
        }),
{
    if val == CL_TRUE as u64 {
        Some(true)
    } else if val == CL_FALSE as u64 {
        Some(false)
    } else {
        None
    }
}

/// Compares a size against a 64-bit limit without losing either's value.
pub fn checked_compare(a: usize, o: core::cmp::Ordering, b: u64) -> (r: bool)
    ensures
        r == match o {
            core::cmp::Ordering::Less => (a as int) < (b as int),
            core::cmp::Ordering::Equal => (a as int) == (b as int),
            core::cmp::Ordering::Greater => (a as int) > (b as int),
        },
{
    let a = a as u64;
    match o {
        core::cmp::Ordering::Less => a < b,
        core::cmp::Ordering::Equal => a == b,
        core::cmp::Ordering::Greater => a > b,
    }
}

/// Whether `ptr` is a multiple of `alignment`, a power of two.
pub fn is_alligned(ptr: usize, alignment: usize) -> (r: bool)
    requires
        alignment >= 1,
    ensures
        r == (ptr & (alignment - 1) as usize == 0),
{
    ptr & (alignment - 1) == 0
}

/// A value the info queries report, as the bytes handed back.
pub trait CLProp {
    spec fn prop_bytes(&self) -> Seq<u8>;

    fn cl_vec(&self) -> (r: Vec<u8>)
        ensures
            r@ == self.prop_bytes(),
    ;
}

impl CLProp for u32 {
    open spec fn prop_bytes(&self) -> Seq<u8> {
        le_bytes(*self as nat, 4)
    }

    fn cl_vec(&self) -> (r: Vec<u8>) {
        let mut r: Vec<u8> = Vec::new();
        push_le(&mut r, *self as u64, 4);
        r
    }
}

impl CLProp for u64 {
    open spec fn prop_bytes(&self) -> Seq<u8> {
        le_bytes(*self as nat, 8)
    }

    fn cl_vec(&self) -> (r: Vec<u8>) {
        let mut r: Vec<u8> = Vec::new();
        push_le(&mut r, *self, 8);
        r
    }
}

impl CLProp for i32 {
    open spec fn prop_bytes(&self) -> Seq<u8> {
        le_bytes((*self as u32) as nat, 4)
    }

    fn cl_vec(&self) -> (r: Vec<u8>) {
        let mut r: Vec<u8> = Vec::new();
        push_le(&mut r, (*self as u32) as u64, 4);
        r
    }
}

impl CLProp for bool {
    /// An API boolean: four bytes of `CL_TRUE` or `CL_FALSE`.
    open spec fn prop_bytes(&self) -> Seq<u8> {
        le_bytes(if *self { CL_TRUE as nat } else { CL_FALSE as nat }, 4)
    }

    fn cl_vec(&self) -> (r: Vec<u8>) {
        let mut r: Vec<u8> = Vec::new();
        push_le(&mut r, if *self { CL_TRUE as u64 } else { CL_FALSE as u64 }, 4);
        r
    }
}

/// The bytes of a property value.
pub fn cl_prop<T: CLProp>(v: T) -> (r: Vec<u8>)
    ensures
        r@ == v.prop_bytes(),
{
    v.cl_vec()
}

} // verus!

verus! {

/// Answers an info query whose value is `d`: the value's size, and the value
/// itself when the caller asks for it. A caller that asks for it with room for
/// fewer than its bytes is refused.
pub fn get_info(d: &Vec<u8>, param_value_size: usize, wants_value: bool) -> (r: Result<(usize, Option<Vec<u8>>), i32>)
    ensures
        wants_value && param_value_size < d@.len() ==> r == Err::<(usize, Option<Vec<u8>>), i32>(
            crate::cl::CL_INVALID_VALUE,
        ),
        !(wants_value && param_value_size < d@.len()) ==> {
            &&& r.is_ok()
            &&& r.unwrap().0 == d@.len()
            &&& r.unwrap().1.is_some() == wants_value
            &&& wants_value ==> r.unwrap().1.unwrap()@ == d@
        },
{
    if wants_value && param_value_size < d.len() {
        return Err(crate::cl::CL_INVALID_VALUE);
    }
    if !wants_value {
        return Ok((d.len(), None));
    }
    let mut v: Vec<u8> = Vec::new();
    let mut i: usize = 0;
    while i < d.len()
        invariant
            i <= d@.len(),
            v@ == d@.take(i as int),
        decreases d@.len() - i,
    {
        v.push(d[i]);
        i = i + 1;
        assert(v@ =~= d@.take(i as int));
    }
    assert(v@ =~= d@);
    Ok((d.len(), Some(v)))
}

} // verus!
