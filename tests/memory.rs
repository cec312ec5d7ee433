use rusticl::cl::{
    CL_MEM_HOST_READ_ONLY, CL_MEM_OBJECT_BUFFER, CL_MEM_READ_ONLY, CL_MEM_READ_WRITE,
    CL_MEM_USE_HOST_PTR, CL_MEM_WRITE_ONLY,
};
use rusticl::context::{Context, Device};
use rusticl::memory::MemStore;
use rusticl::region::CLVec;

fn device(max_alloc: u64) -> Device {
    Device {
        max_mem_alloc: max_alloc,
        address_bits: 64,
        max_grid_dimensions: 3,
        max_block_sizes: [256, 256, 64],
        image_supported: true,
        image_2d_size: 4096,
        image_3d_size: 512,
        image_buffer_size: 65536,
        image_array_size: 256,
        image_base_address_alignment: 16,
        printf_buffer_size: 64,
        formats: vec![],
    }
}

fn context() -> Context {
    Context::new(7, vec![device(1 << 20)])
}

#[test]
fn sub_buffer_bounds_and_inheritance() {
    let ctx = context();
    let mut mems = MemStore::new();
    let b = mems.create_buffer(&ctx, CL_MEM_READ_WRITE, 1024, None).unwrap();
    let s = mems.create_sub_buffer(b, 0, 512, 256).unwrap();
    assert_eq!(mems.get(s).flags, CL_MEM_READ_WRITE);
    assert_eq!(mems.get(s).offset, 512);
    assert_eq!(mems.get(s).size, 256);
    assert_eq!(mems.get(s).parent, Some(b));
    assert!(mems.create_sub_buffer(b, 0, 768, 256).is_ok());
    assert_eq!(mems.create_sub_buffer(b, 0, 769, 256), Err(-30));
    assert_eq!(mems.create_sub_buffer(b, 0, 512, 512).map(|_| ()), Ok(()));
    assert_eq!(mems.create_sub_buffer(b, 0, 512, 513), Err(-30));
}

#[test]
fn sub_buffer_errors() {
    let ctx = context();
    let mut mems = MemStore::new();
    let b = mems.create_buffer(&ctx, CL_MEM_WRITE_ONLY, 64, None).unwrap();
    let s = mems.create_sub_buffer(b, 0, 0, 16).unwrap();
    assert_eq!(mems.create_sub_buffer(s, 0, 0, 4), Err(-38));
    assert_eq!(mems.create_sub_buffer(99, 0, 0, 4), Err(-38));
    assert_eq!(mems.create_sub_buffer(b, CL_MEM_READ_ONLY, 0, 4), Err(-30));
    assert_eq!(mems.create_sub_buffer(b, 0, 0, 0), Err(-61));
}

#[test]
fn buffer_creation_errors() {
    let ctx = context();
    let mut mems = MemStore::new();
    assert_eq!(mems.create_buffer(&ctx, CL_MEM_READ_WRITE | CL_MEM_READ_ONLY, 8, None), Err(-30));
    assert_eq!(mems.create_buffer(&ctx, CL_MEM_READ_WRITE, 0, None), Err(-61));
    assert_eq!(mems.create_buffer(&ctx, CL_MEM_READ_WRITE, (1 << 20) + 1, None), Err(-61));
    assert_eq!(mems.create_buffer(&ctx, CL_MEM_USE_HOST_PTR, 8, None), Err(-37));
    assert_eq!(mems.create_buffer(&ctx, CL_MEM_READ_WRITE, 8, Some(vec![0; 8])), Err(-37));
    assert_eq!(mems.create_buffer(&ctx, CL_MEM_USE_HOST_PTR, 8, Some(vec![0; 4])), Err(-37));
    assert_eq!(mems.len(), 0);
}

#[test]
fn host_data_initializes_buffer() {
    let ctx = context();
    let mut mems = MemStore::new();
    let b = mems.create_buffer(&ctx, CL_MEM_USE_HOST_PTR, 4, Some(vec![1, 2, 3, 4, 5])).unwrap();
    assert_eq!(mems.get(b).res.as_ref().unwrap(), &vec![1, 2, 3, 4]);
    assert!(mems.get(b).has_host_ptr);
    assert!(mems.is_buffer(b));
    assert_eq!(mems.get(b).mem_type, CL_MEM_OBJECT_BUFFER);
}

#[test]
fn writes_through_sub_buffer_land_in_parent() {
    let ctx = context();
    let mut mems = MemStore::new();
    let b = mems.create_buffer(&ctx, CL_MEM_READ_WRITE, 16, None).unwrap();
    let s = mems.create_sub_buffer(b, CL_MEM_HOST_READ_ONLY, 8, 8).unwrap();
    assert_eq!(mems.get(s).flags, CL_MEM_READ_WRITE | CL_MEM_HOST_READ_ONLY);
    mems.write_from_user(s, 2, &vec![7, 8]);
    let root = mems.get(b).res.as_ref().unwrap();
    assert_eq!(root[10], 7);
    assert_eq!(root[11], 8);
    assert_eq!(root.iter().filter(|x| **x != 0).count(), 2);
    assert!(mems.has_same_parent(s, b));
}

#[test]
fn rect_write_read_and_copy() {
    let ctx = context();
    let mut mems = MemStore::new();
    let b = mems.create_buffer(&ctx, CL_MEM_READ_WRITE, 32, None).unwrap();
    let c = mems.create_buffer(&ctx, CL_MEM_READ_WRITE, 32, None).unwrap();
    let host: Vec<u8> = (1u8..=10).collect();
    let r = CLVec::new([2, 2, 1]);
    let zero = CLVec::new([0, 0, 0]);
    mems.write_from_user_rect(b, &host, &r, &zero, 2, 4, &CLVec::new([1, 1, 0]), 4, 16);
    let bytes = mems.get(b).res.as_ref().unwrap().clone();
    assert_eq!(&bytes[4..12], &[0, 1, 2, 0, 0, 3, 4, 0]);
    let mut out = vec![0u8; 10];
    mems.read_to_user_rect(b, &mut out, &r, &CLVec::new([1, 1, 0]), 4, 16, &zero, 2, 4);
    assert_eq!(&out[0..4], &[1, 2, 3, 4]);
    mems.copy_to(b, c, &r, &CLVec::new([1, 1, 0]), 4, 16, &zero, 2, 4);
    assert_eq!(&mems.get(c).res.as_ref().unwrap()[0..4], &[1, 2, 3, 4]);
}

#[test]
fn map_and_unmap_by_address() {
    let ctx = context();
    let mut mems = MemStore::new();
    let b = mems.create_buffer(&ctx, CL_MEM_READ_WRITE, 32, None).unwrap();
    assert!(!mems.unmap(b, 12345));
    let a1 = mems.map(b, 0, 8).unwrap();
    let a2 = mems.map(b, 8, 8).unwrap();
    assert_ne!(a1, a2);
    assert!(mems.unmap(b, a1));
    assert!(!mems.unmap(b, a1));
    assert_eq!(mems.get(b).maps.len(), 1);
    assert!(mems.unmap(b, a2));
}

#[test]
fn destructor_callbacks_run_in_reverse() {
    let ctx = context();
    let mut mems = MemStore::new();
    let b = mems.create_buffer(&ctx, CL_MEM_READ_WRITE, 8, None).unwrap();
    mems.add_destructor_callback(b, 1);
    mems.add_destructor_callback(b, 2);
    mems.add_destructor_callback(b, 3);
    assert_eq!(mems.destructor_order(b), vec![3, 2, 1]);
}

#[test]
fn context_callbacks_run_in_reverse() {
    let mut ctx = context();
    ctx.add_destructor_callback(10);
    ctx.add_destructor_callback(20);
    assert_eq!(ctx.destructor_order(), vec![20, 10]);
}
