use rusticl::image::{
    cl_image_format, desc_eq_no_buffer, image_type_valid, validate_addressing_mode,
    validate_filter_mode, validate_image_format, ImageDesc,
};
use rusticl::cl::{CL_FLOAT, CL_RGB, CL_RGBA, CL_UNORM_INT_101010, CL_UNORM_INT8, CL_UNORM_SHORT_565};
use rusticl::pipe::{PipeContext, PipeFence, PipeResource};
use rusticl::util::{check_cl_bool, check_cl_device_type, checked_compare, cl_prop, get_info, is_alligned};

#[test]
fn api_booleans() {
    assert_eq!(check_cl_bool(1), Some(true));
    assert_eq!(check_cl_bool(0), Some(false));
    assert_eq!(check_cl_bool(2), None);
    assert_eq!(check_cl_bool(1 << 32 | 1), None);
}

#[test]
fn device_types() {
    assert_eq!(check_cl_device_type(0xFFFF_FFFF), Ok(()));
    assert_eq!(check_cl_device_type(4 | 2), Ok(()));
    assert_eq!(check_cl_device_type(32), Err(-31));
    assert_eq!(check_cl_device_type(1 << 33), Err(-31));
}

#[test]
fn comparisons_and_alignment() {
    assert!(checked_compare(5, std::cmp::Ordering::Greater, 4));
    assert!(!checked_compare(5, std::cmp::Ordering::Less, 4));
    assert!(checked_compare(4, std::cmp::Ordering::Equal, 4));
    assert!(is_alligned(64, 16));
    assert!(!is_alligned(65, 16));
}

#[test]
fn property_bytes() {
    assert_eq!(cl_prop(0x0102_0304u32), vec![4, 3, 2, 1]);
    assert_eq!(cl_prop(true), vec![1, 0, 0, 0]);
    assert_eq!(cl_prop(-30i32), vec![0xe2, 0xff, 0xff, 0xff]);
    assert_eq!(cl_prop(1u64 << 40), vec![0, 0, 0, 0, 0, 1, 0, 0]);
}

#[test]
fn image_formats() {
    let f = cl_image_format(CL_RGBA, CL_UNORM_INT8);
    assert_eq!(validate_image_format(Some(f)).map(|x| x.1), Ok(4));
    assert_eq!(validate_image_format(Some(cl_image_format(CL_RGBA, CL_FLOAT))).map(|x| x.1), Ok(16));
    assert_eq!(validate_image_format(Some(cl_image_format(CL_RGB, CL_UNORM_SHORT_565))).map(|x| x.1), Ok(2));
    assert_eq!(validate_image_format(Some(cl_image_format(CL_RGBA, CL_UNORM_INT_101010))).map(|x| x.1), Err(-39));
    assert_eq!(validate_image_format(Some(cl_image_format(1, CL_FLOAT))).map(|x| x.1), Err(-39));
    assert_eq!(validate_image_format(None).map(|x| x.1), Err(-39));
    assert!(image_type_valid(0x10F1));
    assert!(!image_type_valid(0x10F0));
    assert_eq!(validate_addressing_mode(0x1132), Ok(()));
    assert_eq!(validate_addressing_mode(0x1135), Err(-30));
    assert_eq!(validate_filter_mode(0x1141), Ok(()));
    assert_eq!(validate_filter_mode(0), Err(-30));
    let d = ImageDesc::empty();
    let mut e = ImageDesc::empty();
    e.mem_object = Some(3);
    assert!(desc_eq_no_buffer(&d, &e));
    e.image_width = 1;
    assert!(!desc_eq_no_buffer(&d, &e));
}

#[test]
fn backend_records() {
    assert!(PipeResource::new(0).is_none());
    assert_eq!(PipeResource::new(5).unwrap().pipe(), 5);
    let mut ctx = PipeContext::new();
    let r = ctx.resource_create_buffer(8);
    ctx.buffer_subdata(r, 2, &vec![7, 7]);
    assert_eq!(ctx.buffer_map(r, 0, 4), vec![0, 0, 7, 7]);
    assert!(ctx.buffer_map(r, 6, 4).is_empty());
    let fence = ctx.flush();
    assert!(fence.wait(&ctx));
    assert!(!PipeFence::new(1).wait(&ctx));
    assert_eq!(ctx.calls.len(), 5);
}

#[test]
fn info_queries_need_room() {
    let d = vec![1u8, 2, 3, 4];
    assert_eq!(get_info(&d, 2, true), Err(-30));
    assert_eq!(get_info(&d, 2, false), Ok((4, None)));
    assert_eq!(get_info(&d, 8, true), Ok((4, Some(d.clone()))));
}
