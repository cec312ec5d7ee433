//! Image formats and descriptors.
use vstd::prelude::*;

verus! {

/// A channel order and a channel data type.
#[derive(Clone, Copy, Debug, PartialEq, Eq, Structural)]
pub struct ImageFormat {
    pub image_channel_order: u32,
    pub image_channel_data_type: u32,
}

/// The shape of an image.
#[derive(Clone, Copy, Debug, PartialEq, Eq, Structural)]
pub struct ImageDesc {
    pub image_type: u32,
    pub image_width: usize,
    pub image_height: usize,
    pub image_depth: usize,
    pub image_array_size: usize,
    pub image_row_pitch: usize,
    pub image_slice_pitch: usize,
    pub num_mip_levels: u32,
    pub num_samples: u32,
    /// The memory object the image is created from, if any.
    pub mem_object: Option<usize>,
}

/// Builds an image format.
pub fn cl_image_format(order: u32, data_type: u32) -> (r: ImageFormat)
    ensures
        r.image_channel_order == order,
        r.image_channel_data_type == data_type,
{
    ImageFormat { image_channel_order: order, image_channel_data_type: data_type }
}

impl ImageFormat {
    pub fn empty() -> (r: ImageFormat)
        ensures
            r.image_channel_order == 0,
            r.image_channel_data_type == 0,
    {
        cl_image_format(0, 0)
    }
}

impl ImageDesc {
    pub fn empty() -> (r: ImageDesc)
        ensures
            r.image_type == 0 && r.image_width == 0 && r.image_height == 0 && r.image_depth == 0
                && r.image_array_size == 0 && r.image_row_pitch == 0 && r.image_slice_pitch == 0
                && r.num_mip_levels == 0 && r.num_samples == 0 && r.mem_object.is_none(),
    {
        ImageDesc {
            image_type: 0,
            image_width: 0,
            image_height: 0,
            image_depth: 0,
            image_array_size: 0,
            image_row_pitch: 0,
            image_slice_pitch: 0,
            num_mip_levels: 0,
            num_samples: 0,
            mem_object: None,
        }
    }
}

} // verus!

verus! {

use crate::cl::{
    CL_A, CL_ABGR, CL_ARGB, CL_BGRA, CL_DEPTH, CL_FLOAT, CL_HALF_FLOAT, CL_INTENSITY,
    CL_INVALID_IMAGE_FORMAT_DESCRIPTOR, CL_LUMINANCE, CL_MEM_OBJECT_IMAGE1D,
    CL_MEM_OBJECT_IMAGE1D_ARRAY, CL_MEM_OBJECT_IMAGE1D_BUFFER, CL_MEM_OBJECT_IMAGE2D,
    CL_MEM_OBJECT_IMAGE2D_ARRAY, CL_MEM_OBJECT_IMAGE3D, CL_R, CL_RA, CL_RG, CL_RGB, CL_RGBA,
    CL_RGBX, CL_RGX, CL_RX, CL_SBGRA, CL_SIGNED_INT16, CL_SIGNED_INT32, CL_SIGNED_INT8,
    CL_SNORM_INT16, CL_SNORM_INT8, CL_SRGB, CL_SRGBA, CL_SRGBX, CL_UNORM_INT16,
    CL_UNORM_INT8, CL_UNORM_INT_101010, CL_UNORM_INT_101010_2, CL_UNORM_SHORT_555,
    CL_UNORM_SHORT_565, CL_UNSIGNED_INT16, CL_UNSIGNED_INT32, CL_UNSIGNED_INT8,
    CL_ADDRESS_CLAMP, CL_ADDRESS_CLAMP_TO_EDGE, CL_ADDRESS_MIRRORED_REPEAT, CL_ADDRESS_NONE,
    CL_ADDRESS_REPEAT, CL_FILTER_LINEAR, CL_FILTER_NEAREST, CL_INVALID_VALUE,
};

/// The number of channels of a channel order.
pub open spec fn channels_of(order: u32) -> Option<u8> {
    if order == CL_R || order == CL_A || order == CL_DEPTH || order == CL_LUMINANCE || order
        == CL_INTENSITY {
        Some(1)
    } else if order == CL_RG || order == CL_RA || order == CL_RX {
        Some(2)
    } else if order == CL_RGB || order == CL_RGX || order == CL_SRGB {
        Some(3)
    } else if order == CL_RGBA || order == CL_ARGB || order == CL_BGRA || order == CL_ABGR || order
        == CL_RGBX || order == CL_SRGBA || order == CL_SBGRA || order == CL_SRGBX {
        Some(4)
    } else {
        None
    }
}

/// The bytes of one channel, or of a whole element for packed types.
pub open spec fn channel_size_of(data_type: u32) -> Option<u8> {
    if data_type == CL_SNORM_INT8 || data_type == CL_UNORM_INT8 || data_type == CL_SIGNED_INT8
        || data_type == CL_UNSIGNED_INT8 {
        Some(1)
    } else if data_type == CL_SNORM_INT16 || data_type == CL_UNORM_INT16 || data_type
        == CL_SIGNED_INT16 || data_type == CL_UNSIGNED_INT16 || data_type == CL_HALF_FLOAT
        || data_type == CL_UNORM_SHORT_565 || data_type == CL_UNORM_SHORT_555 {
        Some(2)
    } else if data_type == CL_SIGNED_INT32 || data_type == CL_UNSIGNED_INT32 || data_type
        == CL_FLOAT || data_type == CL_UNORM_INT_101010 || data_type == CL_UNORM_INT_101010_2 {
        Some(4)
    } else {
        None
    }
}

/// Packed types hold a whole element in one channel's size.
pub open spec fn is_packed(data_type: u32) -> bool {
    data_type == CL_UNORM_SHORT_565 || data_type == CL_UNORM_SHORT_555 || data_type
        == CL_UNORM_INT_101010 || data_type == CL_UNORM_INT_101010_2
}

/// Packed types go with particular orders only.
pub open spec fn combination_ok(order: u32, data_type: u32) -> bool {
    if data_type == CL_UNORM_SHORT_565 || data_type == CL_UNORM_SHORT_555 || data_type
        == CL_UNORM_INT_101010 {
        order == CL_RGB || order == CL_RGBX
    } else if data_type == CL_UNORM_INT_101010_2 {
        order == CL_RGBA
    } else {
        true
    }
}

fn channels(order: u32) -> (r: Option<u8>)
    ensures
        r == channels_of(order),
{
    if order == CL_R || order == CL_A || order == CL_DEPTH || order == CL_LUMINANCE || order
        == CL_INTENSITY {
        Some(1)
    } else if order == CL_RG || order == CL_RA || order == CL_RX {
        Some(2)
    } else if order == CL_RGB || order == CL_RGX || order == CL_SRGB {
        Some(3)
    } else if order == CL_RGBA || order == CL_ARGB || order == CL_BGRA || order == CL_ABGR || order
        == CL_RGBX || order == CL_SRGBA || order == CL_SBGRA || order == CL_SRGBX {
        Some(4)
    } else {
        None
    }
}

fn channel_size(data_type: u32) -> (r: Option<u8>)
    ensures
        r == channel_size_of(data_type),
{
    if data_type == CL_SNORM_INT8 || data_type == CL_UNORM_INT8 || data_type == CL_SIGNED_INT8
        || data_type == CL_UNSIGNED_INT8 {
        Some(1)
    } else if data_type == CL_SNORM_INT16 || data_type == CL_UNORM_INT16 || data_type
        == CL_SIGNED_INT16 || data_type == CL_UNSIGNED_INT16 || data_type == CL_HALF_FLOAT
        || data_type == CL_UNORM_SHORT_565 || data_type == CL_UNORM_SHORT_555 {
        Some(2)
    } else if data_type == CL_SIGNED_INT32 || data_type == CL_UNSIGNED_INT32 || data_type
        == CL_FLOAT || data_type == CL_UNORM_INT_101010 || data_type == CL_UNORM_INT_101010_2 {
        Some(4)
    } else {
        None
    }
}

/// Checks an image format and returns its element size in bytes.
pub fn validate_image_format(format: Option<ImageFormat>) -> (r: Result<(ImageFormat, u8), i32>)
    ensures
        ({
            match format {
                None => r == Err::<(ImageFormat, u8), i32>(CL_INVALID_IMAGE_FORMAT_DESCRIPTOR),
                Some(f) => {
                    let c = channels_of(f.image_channel_order);
                    let s = channel_size_of(f.image_channel_data_type);
                    if c.is_none() || s.is_none() || !combination_ok(
                        f.image_channel_order,
                        f.image_channel_data_type,
                    ) {
                        r == Err::<(ImageFormat, u8), i32>(CL_INVALID_IMAGE_FORMAT_DESCRIPTOR)
                    } else {
                        r == Ok::<(ImageFormat, u8), i32>(
                            (
                                f,
                                if is_packed(f.image_channel_data_type) {
                                    s.unwrap()
                                } else {
                                    (c.unwrap() * s.unwrap()) as u8
                                },
                            ),
                        )
                    }
                },
            }
        }),
{
    let f = match format {
        Some(f) => f,
        None => return Err(CL_INVALID_IMAGE_FORMAT_DESCRIPTOR),
    };
    let c = match channels(f.image_channel_order) {
        Some(c) => c,
        None => return Err(CL_INVALID_IMAGE_FORMAT_DESCRIPTOR),
    };
    let s = match channel_size(f.image_channel_data_type) {
        Some(s) => s,
        None => return Err(CL_INVALID_IMAGE_FORMAT_DESCRIPTOR),
    };
    let t = f.image_channel_data_type;
    let o = f.image_channel_order;
    let ok = if t == CL_UNORM_SHORT_565 || t == CL_UNORM_SHORT_555 || t == CL_UNORM_INT_101010 {
        o == CL_RGB || o == CL_RGBX
    } else if t == CL_UNORM_INT_101010_2 {
        o == CL_RGBA
    } else {
        true
    };
    if !ok {
        return Err(CL_INVALID_IMAGE_FORMAT_DESCRIPTOR);
    }
    let packed = t == CL_UNORM_SHORT_565 || t == CL_UNORM_SHORT_555 || t == CL_UNORM_INT_101010
        || t == CL_UNORM_INT_101010_2;
    Ok((f, if packed { s } else { c * s }))
}

/// Whether `t` names an image type.
pub open spec fn image_type_ok(t: u32) -> bool {
    t == CL_MEM_OBJECT_IMAGE1D || t == CL_MEM_OBJECT_IMAGE2D || t == CL_MEM_OBJECT_IMAGE3D || t
        == CL_MEM_OBJECT_IMAGE1D_ARRAY || t == CL_MEM_OBJECT_IMAGE2D_ARRAY || t
        == CL_MEM_OBJECT_IMAGE1D_BUFFER
}

pub fn image_type_valid(image_type: u32) -> (r: bool)
    ensures
        r == image_type_ok(image_type),
{
    image_type == CL_MEM_OBJECT_IMAGE1D || image_type == CL_MEM_OBJECT_IMAGE2D || image_type
        == CL_MEM_OBJECT_IMAGE3D || image_type == CL_MEM_OBJECT_IMAGE1D_ARRAY || image_type
        == CL_MEM_OBJECT_IMAGE2D_ARRAY || image_type == CL_MEM_OBJECT_IMAGE1D_BUFFER
}

/// Whether two descriptors agree on everything but the memory object.
pub fn desc_eq_no_buffer(a: &ImageDesc, b: &ImageDesc) -> (r: bool)
    ensures
        r == (a.image_type == b.image_type && a.image_width == b.image_width && a.image_height
            == b.image_height && a.image_depth == b.image_depth && a.image_array_size
            == b.image_array_size && a.image_row_pitch == b.image_row_pitch && a.image_slice_pitch
            == b.image_slice_pitch && a.num_mip_levels == b.num_mip_levels && a.num_samples
            == b.num_samples),
{
    a.image_type == b.image_type && a.image_width == b.image_width && a.image_height
        == b.image_height && a.image_depth == b.image_depth && a.image_array_size
        == b.image_array_size && a.image_row_pitch == b.image_row_pitch && a.image_slice_pitch
        == b.image_slice_pitch && a.num_mip_levels == b.num_mip_levels && a.num_samples
        == b.num_samples
}

pub fn validate_addressing_mode(addressing_mode: u32) -> (r: Result<(), i32>)
    ensures
        r.is_ok() <==> (addressing_mode == CL_ADDRESS_NONE || addressing_mode
            == CL_ADDRESS_CLAMP_TO_EDGE || addressing_mode == CL_ADDRESS_CLAMP || addressing_mode
            == CL_ADDRESS_REPEAT || addressing_mode == CL_ADDRESS_MIRRORED_REPEAT),
        r.is_err() ==> r == Err::<(), i32>(CL_INVALID_VALUE),
{
    if addressing_mode == CL_ADDRESS_NONE || addressing_mode == CL_ADDRESS_CLAMP_TO_EDGE
        || addressing_mode == CL_ADDRESS_CLAMP || addressing_mode == CL_ADDRESS_REPEAT
        || addressing_mode == CL_ADDRESS_MIRRORED_REPEAT {
        Ok(())
    } else {
        Err(CL_INVALID_VALUE)
    }
}

pub fn validate_filter_mode(filter_mode: u32) -> (r: Result<(), i32>)
    ensures
        r.is_ok() <==> (filter_mode == CL_FILTER_NEAREST || filter_mode == CL_FILTER_LINEAR),
        r.is_err() ==> r == Err::<(), i32>(CL_INVALID_VALUE),
{
    if filter_mode == CL_FILTER_NEAREST || filter_mode == CL_FILTER_LINEAR {
        Ok(())
    } else {
        Err(CL_INVALID_VALUE)
    }
}

} // verus!

verus! {

use crate::cl::{CL_INVALID_IMAGE_DESCRIPTOR, CL_INVALID_IMAGE_SIZE, CL_INVALID_MEM_OBJECT, CL_INVALID_OPERATION, CL_MEM_OBJECT_BUFFER};
use crate::context::Device;
use crate::memory::MemStore;

/// Dimensions and arrayness of an image type.
pub open spec fn dims_of(t: u32) -> Option<(int, bool)> {
    if t == CL_MEM_OBJECT_IMAGE1D || t == CL_MEM_OBJECT_IMAGE1D_BUFFER {
        Some((1, false))
    } else if t == CL_MEM_OBJECT_IMAGE1D_ARRAY {
        Some((1, true))
    } else if t == CL_MEM_OBJECT_IMAGE2D {
        Some((2, false))
    } else if t == CL_MEM_OBJECT_IMAGE2D_ARRAY {
        Some((2, true))
    } else if t == CL_MEM_OBJECT_IMAGE3D {
        Some((3, false))
    } else {
        None
    }
}

/// One image limit of a device: 2D size, 3D size, buffer size, array size.
pub open spec fn limit_of(d: Device, which: int) -> usize {
    if which == 0 {
        d.image_2d_size
    } else if which == 1 {
        d.image_3d_size
    } else if which == 2 {
        d.image_buffer_size
    } else {
        d.image_array_size
    }
}

/// The smallest of a limit over all devices.
pub open spec fn min_limit(devs: Seq<Device>, which: int) -> usize
    decreases devs.len(),
{
    if devs.len() <= 1 {
        limit_of(devs[0], which)
    } else {
        let rest = min_limit(devs.drop_last(), which);
        let l = limit_of(devs.last(), which);
        if l < rest { l } else { rest }
    }
}

fn min_limit_exec(devs: &Vec<Device>, which: u8) -> (r: usize)
    requires
        devs@.len() >= 1,
    ensures
        r == min_limit(devs@, which as int),
{
    let mut m = limit(&devs[0], which);
    let mut i: usize = 1;
    while i < devs.len()
        invariant
            1 <= i <= devs@.len(),
            m == min_limit(devs@.take(i as int), which as int),
        decreases devs@.len() - i,
    {
        let l = limit(&devs[i], which);
        proof {
            assert(devs@.take(i + 1).drop_last() =~= devs@.take(i as int));
        }
        if l < m {
            m = l;
        }
        i = i + 1;
    }
    assert(devs@.take(devs@.len() as int) =~= devs@);
    m
}

fn limit(d: &Device, which: u8) -> (r: usize)
    ensures
        r == limit_of(*d, which as int),
{
    if which == 0 {
        d.image_2d_size
    } else if which == 1 {
        d.image_3d_size
    } else if which == 2 {
        d.image_buffer_size
    } else {
        d.image_array_size
    }
}

/// The descriptor `validate_image_desc` returns, or its error, in the order
/// the checks run. With a host pointer, zero pitches are filled in.
pub open spec fn image_desc_result(
    desc: Option<ImageDesc>,
    has_host_ptr: bool,
    elem: usize,
    devs: Seq<Device>,
    mems: Seq<crate::memory::Mem>,
) -> Result<ImageDesc, i32> {
    match desc {
        None => Err(CL_INVALID_IMAGE_DESCRIPTOR),
        Some(d) => match dims_of(d.image_type) {
            None => Err(CL_INVALID_IMAGE_DESCRIPTOR),
            Some((dims, array)) => {
                let max = min_limit(devs, if dims == 3 { 1 } else if d.image_type == CL_MEM_OBJECT_IMAGE1D_BUFFER { 2 } else { 0 });
                let max_array = min_limit(devs, 3);
                let row = if d.image_row_pitch == 0 { d.image_width * elem } else { d.image_row_pitch as int };
                let valid_slice = row * (if dims == 1 { 1 } else { d.image_height as int });
                if d.image_width < 1 || (d.image_height < 1 && dims >= 2) || (d.image_depth < 1 && dims >= 3)
                    || (d.image_array_size < 1 && array) {
                    Err(CL_INVALID_IMAGE_DESCRIPTOR)
                } else if d.image_width > max || (d.image_height > max && dims >= 2) || (d.image_depth > max
                    && dims >= 3) || (d.image_array_size > max_array && array) {
                    Err(CL_INVALID_IMAGE_SIZE)
                } else if d.num_mip_levels != 0 || d.num_samples != 0 {
                    Err(CL_INVALID_IMAGE_DESCRIPTOR)
                } else if d.mem_object.is_some() && d.mem_object.unwrap() >= mems.len() {
                    Err(CL_INVALID_MEM_OBJECT)
                } else if d.mem_object.is_some() && !(if d.image_type == CL_MEM_OBJECT_IMAGE1D_BUFFER {
                    mems[d.mem_object.unwrap() as int].mem_type == CL_MEM_OBJECT_BUFFER
                } else if d.image_type == CL_MEM_OBJECT_IMAGE2D {
                    mems[d.mem_object.unwrap() as int].mem_type != CL_MEM_OBJECT_BUFFER
                } else {
                    true
                }) {
                    Err(CL_INVALID_OPERATION)
                } else if !has_host_ptr {
                    if d.image_row_pitch != 0 || d.image_slice_pitch != 0 {
                        Err(CL_INVALID_IMAGE_DESCRIPTOR)
                    } else {
                        Ok(d)
                    }
                } else if row > usize::MAX || (d.image_row_pitch != 0 && d.image_row_pitch % elem != 0) {
                    Err(CL_INVALID_IMAGE_DESCRIPTOR)
                } else if dims == 3 || array {
                    if valid_slice > usize::MAX {
                        Err(CL_INVALID_IMAGE_DESCRIPTOR)
                    } else if d.image_slice_pitch == 0 {
                        Ok(ImageDesc { image_row_pitch: row as usize, image_slice_pitch: valid_slice as usize, ..d })
                    } else if d.image_slice_pitch < valid_slice || d.image_slice_pitch % (row as usize) != 0 {
                        Err(CL_INVALID_IMAGE_DESCRIPTOR)
                    } else {
                        Ok(ImageDesc { image_row_pitch: row as usize, ..d })
                    }
                } else {
                    Ok(ImageDesc { image_row_pitch: row as usize, ..d })
                }
            },
        },
    }
}

/// Checks an image descriptor against the devices' limits and the host
/// pointer rules for an element of `elem_size` bytes.
pub fn validate_image_desc(
    desc: Option<ImageDesc>,
    has_host_ptr: bool,
    elem_size: usize,
    devs: &Vec<Device>,
    mems: &MemStore,
) -> (r: Result<ImageDesc, i32>)
    requires
        elem_size >= 1,
        devs@.len() >= 1,
    ensures
        r == image_desc_result(desc, has_host_ptr, elem_size, devs@, mems@),
{
    let mut d = match desc {
        Some(d) => d,
        None => return Err(CL_INVALID_IMAGE_DESCRIPTOR),
    };
    let t = d.image_type;
    let (dims, array): (u8, bool) = if t == CL_MEM_OBJECT_IMAGE1D || t == CL_MEM_OBJECT_IMAGE1D_BUFFER {
        (1, false)
    } else if t == CL_MEM_OBJECT_IMAGE1D_ARRAY {
        (1, true)
    } else if t == CL_MEM_OBJECT_IMAGE2D {
        (2, false)
    } else if t == CL_MEM_OBJECT_IMAGE2D_ARRAY {
        (2, true)
    } else if t == CL_MEM_OBJECT_IMAGE3D {
        (3, false)
    } else {
        return Err(CL_INVALID_IMAGE_DESCRIPTOR);
    };
    if d.image_width < 1 || (d.image_height < 1 && dims >= 2) || (d.image_depth < 1 && dims >= 3)
        || (d.image_array_size < 1 && array) {
        return Err(CL_INVALID_IMAGE_DESCRIPTOR);
    }
    let which: u8 = if dims == 3 { 1 } else if t == CL_MEM_OBJECT_IMAGE1D_BUFFER { 2 } else { 0 };
    let max = min_limit_exec(devs, which);
    let max_array = min_limit_exec(devs, 3);
    if d.image_width > max || (d.image_height > max && dims >= 2) || (d.image_depth > max && dims >= 3)
        || (d.image_array_size > max_array && array) {
        return Err(CL_INVALID_IMAGE_SIZE);
    }
    if d.num_mip_levels != 0 || d.num_samples != 0 {
        return Err(CL_INVALID_IMAGE_DESCRIPTOR);
    }
    if let Some(h) = d.mem_object {
        if h >= mems.len() {
            return Err(CL_INVALID_MEM_OBJECT);
        }
        let is_buf = mems.is_buffer(h);
        let ok = if t == CL_MEM_OBJECT_IMAGE1D_BUFFER {
            is_buf
        } else if t == CL_MEM_OBJECT_IMAGE2D {
            !is_buf
        } else {
            true
        };
        if !ok {
            return Err(CL_INVALID_OPERATION);
        }
    }
    if !has_host_ptr {
        if d.image_row_pitch != 0 || d.image_slice_pitch != 0 {
            return Err(CL_INVALID_IMAGE_DESCRIPTOR);
        }
        return Ok(d);
    }
    let row = if d.image_row_pitch == 0 {
        match d.image_width.checked_mul(elem_size) {
            Some(r) => r,
            None => return Err(CL_INVALID_IMAGE_DESCRIPTOR),
        }
    } else {
        if d.image_row_pitch % elem_size != 0 {
            return Err(CL_INVALID_IMAGE_DESCRIPTOR);
        }
        d.image_row_pitch
    };
    assert(row >= 1) by (nonlinear_arith)
        requires row == (if d.image_row_pitch == 0 { d.image_width * elem_size } else { d.image_row_pitch as int }),
            d.image_width >= 1, elem_size >= 1, d.image_row_pitch == 0 || d.image_row_pitch >= 1;
    d.image_row_pitch = row;
    if dims == 3 || array {
        let factor: usize = if dims == 1 { 1 } else { d.image_height };
        let valid_slice = match row.checked_mul(factor) {
            Some(v) => v,
            None => return Err(CL_INVALID_IMAGE_DESCRIPTOR),
        };
        if d.image_slice_pitch == 0 {
            d.image_slice_pitch = valid_slice;
        } else if d.image_slice_pitch < valid_slice || d.image_slice_pitch % row != 0 {
            return Err(CL_INVALID_IMAGE_DESCRIPTOR);
        }
    }
    Ok(d)
}

} // verus!

verus! {

use crate::context::FormatSupport;

/// The flags a format allows for image type `t`, if it supports the type.
pub open spec fn type_entry(types: Seq<(u32, u64)>, t: u32) -> Option<u64>
    decreases types.len(),
{
    if types.len() == 0 {
        None
    } else if types[0].0 == t {
        Some(types[0].1)
    } else {
        type_entry(types.skip(1), t)
    }
}

pub fn find_type_entry(types: &Vec<(u32, u64)>, t: u32) -> (r: Option<u64>)
    ensures
        r == type_entry(types@, t),
{
    let mut i: usize = 0;
    assert(types@.skip(0) =~= types@);
    while i < types.len()
        invariant
            i <= types@.len(),
            type_entry(types@, t) == type_entry(types@.skip(i as int), t),
        decreases types@.len() - i,
    {
        assert(types@.skip(i as int).skip(1) =~= types@.skip(i + 1));
        if types[i].0 == t {
            return Some(types[i].1);
        }
        i = i + 1;
    }
    None
}

/// The formats of one device that allow `filtered` for image type `t`; a
/// type the format lacks allows no flags.
pub open spec fn dev_formats(fs: Seq<FormatSupport>, filtered: u64, t: u32) -> Seq<ImageFormat>
    decreases fs.len(),
{
    if fs.len() == 0 {
        Seq::empty()
    } else {
        let prev = dev_formats(fs.drop_last(), filtered, t);
        let s = match type_entry(fs.last().types@, t) {
            Some(f) => f,
            None => 0,
        };
        if filtered & s == filtered {
            prev.push(fs.last().format)
        } else {
            prev
        }
    }
}

/// The formats of all devices, device by device, that allow `filtered` for
/// image type `t`.
pub open spec fn all_formats(devs: Seq<Device>, filtered: u64, t: u32) -> Seq<ImageFormat>
    decreases devs.len(),
{
    if devs.len() == 0 {
        Seq::empty()
    } else {
        all_formats(devs.drop_last(), filtered, t) + dev_formats(devs.last().formats@, filtered, t)
    }
}

/// Lists the formats the devices support for `image_type` with the access
/// bits of `flags`.
pub fn get_supported_image_formats(devs: &Vec<Device>, flags: u64, image_type: u32) -> (r: Result<Vec<ImageFormat>, i32>)
    ensures
        !crate::flags::mem_flags_valid(flags, true) || !image_type_ok(image_type) ==> r == Err::<Vec<ImageFormat>, i32>(CL_INVALID_VALUE),
        crate::flags::mem_flags_valid(flags, true) && image_type_ok(image_type) ==> r.is_ok() && r.unwrap()@ == all_formats(
            devs@,
            flags & crate::flags::INHERITED_ACCESS_MASK,
            image_type,
        ),
{
    if crate::flags::validate_mem_flags(flags, true).is_err() || !image_type_valid(image_type) {
        return Err(CL_INVALID_VALUE);
    }
    let filtered = crate::flags::filter_image_access_flags(flags);
    let mut res: Vec<ImageFormat> = Vec::new();
    let mut i: usize = 0;
    while i < devs.len()
        invariant
            i <= devs@.len(),
            res@ == all_formats(devs@.take(i as int), filtered, image_type),
        decreases devs@.len() - i,
    {
        let fs = &devs[i].formats;
        let ghost base = res@;
        let mut j: usize = 0;
        while j < fs.len()
            invariant
                j <= fs@.len(),
                res@ == base + dev_formats(fs@.take(j as int), filtered, image_type),
            decreases fs@.len() - j,
        {
            let s = match find_type_entry(&fs[j].types, image_type) {
                Some(f) => f,
                None => 0,
            };
            proof {
                assert(fs@.take(j + 1).drop_last() =~= fs@.take(j as int));
            }
            if filtered & s == filtered {
                res.push(fs[j].format);
            }
            j = j + 1;
        }
        proof {
            assert(fs@.take(fs@.len() as int) =~= fs@);
            assert(devs@.take(i + 1).drop_last() =~= devs@.take(i as int));
        }
        i = i + 1;
    }
    assert(devs@.take(devs@.len() as int) =~= devs@);
    Ok(res)
}

/// Some device supports format `f` for image type `t` with all of `filtered`.
pub open spec fn format_supported(devs: Seq<Device>, f: ImageFormat, t: u32, filtered: u64) -> bool {
    exists|d: int, k: int|
        0 <= d < devs.len() && 0 <= k < devs[d].formats@.len() && #[trigger] devs[d].formats@[k].format == f
            && type_entry(devs[d].formats@[k].types@, t).is_some() && type_entry(
            devs[d].formats@[k].types@,
            t,
        ).unwrap() & filtered == filtered
}

pub fn check_format_supported(devs: &Vec<Device>, f: ImageFormat, t: u32, filtered: u64) -> (r: bool)
    ensures
        r == format_supported(devs@, f, t, filtered),
{
    let mut i: usize = 0;
    while i < devs.len()
        invariant
            i <= devs@.len(),
            forall|d: int, k: int|
                0 <= d < i && 0 <= k < devs@[d].formats@.len() && #[trigger] devs@[d].formats@[k].format == f
                    ==> !(type_entry(devs@[d].formats@[k].types@, t).is_some() && type_entry(
                    devs@[d].formats@[k].types@,
                    t,
                ).unwrap() & filtered == filtered),
        decreases devs@.len() - i,
    {
        let fs = &devs[i].formats;
        let mut j: usize = 0;
        while j < fs.len()
            invariant
                j <= fs@.len(),
                i < devs@.len(),
                *fs == devs@[i as int].formats,
                forall|d: int, k: int|
                    0 <= d < i && 0 <= k < devs@[d].formats@.len() && #[trigger] devs@[d].formats@[k].format == f
                        ==> !(type_entry(devs@[d].formats@[k].types@, t).is_some() && type_entry(
                        devs@[d].formats@[k].types@,
                        t,
                    ).unwrap() & filtered == filtered),
                forall|k: int|
                    0 <= k < j && #[trigger] fs@[k].format == f ==> !(type_entry(fs@[k].types@, t).is_some()
                        && type_entry(fs@[k].types@, t).unwrap() & filtered == filtered),
            decreases fs@.len() - j,
        {
            if fs[j].format == f {
                if let Some(s) = find_type_entry(&fs[j].types, t) {
                    if s & filtered == filtered {
                        return true;
                    }
                }
            }
            j = j + 1;
        }
        i = i + 1;
    }
    false
}

} // verus!
