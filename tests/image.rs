use rusticl::api::{create_image, create_sampler};
use rusticl::cl::{
    CL_FILTER_LINEAR, CL_MEM_HOST_READ_ONLY, CL_MEM_OBJECT_IMAGE1D_BUFFER, CL_MEM_OBJECT_IMAGE2D,
    CL_MEM_OBJECT_IMAGE3D, CL_MEM_READ_ONLY, CL_MEM_READ_WRITE, CL_MEM_WRITE_ONLY, CL_R,
    CL_RGBA, CL_ADDRESS_CLAMP, CL_UNORM_INT8,
};
use rusticl::context::{Context, Device, FormatSupport};
use rusticl::image::{cl_image_format, get_supported_image_formats, validate_image_desc, ImageDesc};
use rusticl::memory::MemStore;

fn device(images: bool) -> Device {
    Device {
        max_mem_alloc: 1 << 20,
        address_bits: 64,
        max_grid_dimensions: 3,
        max_block_sizes: [256, 256, 64],
        image_supported: images,
        image_2d_size: 4096,
        image_3d_size: 512,
        image_buffer_size: 65536,
        image_array_size: 256,
        image_base_address_alignment: 16,
        printf_buffer_size: 64,
        formats: vec![
            FormatSupport {
                format: cl_image_format(CL_RGBA, CL_UNORM_INT8),
                types: vec![(CL_MEM_OBJECT_IMAGE2D, CL_MEM_READ_WRITE | CL_MEM_READ_ONLY)],
            },
            FormatSupport {
                format: cl_image_format(CL_R, CL_UNORM_INT8),
                types: vec![(CL_MEM_OBJECT_IMAGE3D, CL_MEM_READ_ONLY)],
            },
        ],
    }
}

fn desc2d(w: usize, h: usize) -> ImageDesc {
    let mut d = ImageDesc::empty();
    d.image_type = CL_MEM_OBJECT_IMAGE2D;
    d.image_width = w;
    d.image_height = h;
    d
}

#[test]
fn image_creation() {
    let ctx = Context::new(1, vec![device(true)]);
    let mut mems = MemStore::new();
    let f = cl_image_format(CL_RGBA, CL_UNORM_INT8);
    let h = create_image(&ctx, &mut mems, 0, Some(f), Some(desc2d(16, 8)), None).unwrap();
    assert_eq!(mems.get(h).flags, CL_MEM_READ_WRITE);
    assert_eq!(mems.get(h).mem_type, CL_MEM_OBJECT_IMAGE2D);
    assert_eq!(create_image(&ctx, &mut mems, CL_MEM_WRITE_ONLY, Some(f), Some(desc2d(16, 8)), None), Err(-10));
    assert_eq!(create_image(&ctx, &mut mems, 0, Some(f), Some(desc2d(0, 8)), None), Err(-65));
    assert_eq!(create_image(&ctx, &mut mems, 0, Some(f), Some(desc2d(5000, 8)), None), Err(-40));
    assert_eq!(create_image(&ctx, &mut mems, 0, None, Some(desc2d(16, 8)), None), Err(-39));
    let no_images = Context::new(2, vec![device(false)]);
    assert_eq!(create_image(&no_images, &mut mems, 0, Some(f), Some(desc2d(16, 8)), None), Err(-59));
    let mut buffer_desc = ImageDesc::empty();
    buffer_desc.image_type = CL_MEM_OBJECT_IMAGE1D_BUFFER;
    buffer_desc.image_width = 4;
    assert_eq!(create_image(&ctx, &mut mems, 0, Some(f), Some(buffer_desc), None), Err(-65));
    assert_eq!(mems.len(), 1);
}

#[test]
fn host_pitches_are_filled_in() {
    let devs = vec![device(true)];
    let mems = MemStore::new();
    let mut d = ImageDesc::empty();
    d.image_type = CL_MEM_OBJECT_IMAGE3D;
    d.image_width = 4;
    d.image_height = 3;
    d.image_depth = 2;
    let r = validate_image_desc(Some(d), true, 4, &devs, &mems).unwrap();
    assert_eq!(r.image_row_pitch, 16);
    assert_eq!(r.image_slice_pitch, 48);
    d.image_row_pitch = 18;
    assert_eq!(validate_image_desc(Some(d), true, 4, &devs, &mems), Err(-65));
    d.image_row_pitch = 0;
    assert_eq!(validate_image_desc(Some(d), false, 4, &devs, &mems).map(|x| x.image_row_pitch), Ok(0));
    d.image_slice_pitch = 8;
    assert_eq!(validate_image_desc(Some(d), false, 4, &devs, &mems), Err(-65));
}

#[test]
fn supported_formats_listed() {
    let devs = vec![device(true)];
    let all = get_supported_image_formats(&devs, CL_MEM_READ_ONLY, CL_MEM_OBJECT_IMAGE2D).unwrap();
    assert_eq!(all.len(), 1);
    assert_eq!(all[0].image_channel_order, CL_RGBA);
    let none = get_supported_image_formats(&devs, CL_MEM_WRITE_ONLY, CL_MEM_OBJECT_IMAGE2D).unwrap();
    assert!(none.is_empty());
    let any = get_supported_image_formats(&devs, 0, CL_MEM_OBJECT_IMAGE2D).unwrap();
    assert_eq!(any.len(), 2);
    assert!(get_supported_image_formats(&devs, CL_MEM_HOST_READ_ONLY, CL_MEM_OBJECT_IMAGE2D).is_err());
    assert!(get_supported_image_formats(&devs, 0, 0x10F0).is_err());
}

#[test]
fn samplers() {
    let ctx = Context::new(1, vec![device(true)]);
    let s = create_sampler(&ctx, 1, CL_ADDRESS_CLAMP, CL_FILTER_LINEAR).unwrap();
    assert!(s.normalized_coords);
    assert_eq!(s.context, 1);
    assert!(create_sampler(&ctx, 3, CL_ADDRESS_CLAMP, CL_FILTER_LINEAR).is_err());
    assert!(create_sampler(&ctx, 1, 0, CL_FILTER_LINEAR).is_err());
    let no_images = Context::new(2, vec![device(false)]);
    assert!(create_sampler(&no_images, 1, CL_ADDRESS_CLAMP, CL_FILTER_LINEAR).is_err());
}
