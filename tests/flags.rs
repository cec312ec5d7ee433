use rusticl::cl::{
    CL_MEM_ALLOC_HOST_PTR, CL_MEM_COPY_HOST_PTR, CL_MEM_HOST_NO_ACCESS, CL_MEM_HOST_READ_ONLY,
    CL_MEM_HOST_WRITE_ONLY, CL_MEM_KERNEL_READ_AND_WRITE, CL_MEM_READ_ONLY, CL_MEM_READ_WRITE,
    CL_MEM_USE_HOST_PTR, CL_MEM_WRITE_ONLY,
};
use rusticl::flags::{
    bit_check, filter_image_access_flags, inherit_mem_flags, validate_host_ptr,
    validate_map_flags, validate_matching_buffer_flags, validate_mem_flags,
};

#[test]
fn one_flag_per_group_is_accepted() {
    for rw in [0, CL_MEM_READ_WRITE, CL_MEM_WRITE_ONLY, CL_MEM_READ_ONLY] {
        for hp in [0, CL_MEM_USE_HOST_PTR, CL_MEM_ALLOC_HOST_PTR, CL_MEM_COPY_HOST_PTR] {
            for ha in [0, CL_MEM_HOST_WRITE_ONLY, CL_MEM_HOST_READ_ONLY, CL_MEM_HOST_NO_ACCESS] {
                assert_eq!(validate_mem_flags(rw | hp | ha, false), Ok(()));
            }
        }
    }
}

#[test]
fn two_flags_of_one_group_are_refused() {
    assert_eq!(validate_mem_flags(CL_MEM_READ_WRITE | CL_MEM_READ_ONLY, false), Err(-30));
    assert_eq!(validate_mem_flags(CL_MEM_WRITE_ONLY | CL_MEM_READ_ONLY, false), Err(-30));
    assert_eq!(validate_mem_flags(CL_MEM_USE_HOST_PTR | CL_MEM_COPY_HOST_PTR, false), Err(-30));
    assert_eq!(validate_mem_flags(CL_MEM_ALLOC_HOST_PTR | CL_MEM_COPY_HOST_PTR, false), Err(-30));
    assert_eq!(validate_mem_flags(CL_MEM_HOST_READ_ONLY | CL_MEM_HOST_NO_ACCESS, false), Err(-30));
    assert_eq!(validate_mem_flags(1 << 40, false), Err(-30));
}

#[test]
fn image_queries_take_access_flags_only() {
    assert_eq!(validate_mem_flags(CL_MEM_READ_ONLY | CL_MEM_KERNEL_READ_AND_WRITE, true), Ok(()));
    assert_eq!(validate_mem_flags(CL_MEM_USE_HOST_PTR, true), Err(-30));
    assert_eq!(filter_image_access_flags(CL_MEM_READ_ONLY | CL_MEM_HOST_NO_ACCESS), CL_MEM_READ_ONLY);
}

#[test]
fn sub_buffer_flags_inherit() {
    let parent = CL_MEM_READ_WRITE | CL_MEM_USE_HOST_PTR | CL_MEM_HOST_READ_ONLY;
    assert_eq!(inherit_mem_flags(0, parent), parent);
    assert_eq!(
        inherit_mem_flags(CL_MEM_READ_ONLY, parent),
        CL_MEM_READ_ONLY | CL_MEM_USE_HOST_PTR | CL_MEM_HOST_READ_ONLY
    );
    assert_eq!(
        inherit_mem_flags(CL_MEM_HOST_NO_ACCESS | CL_MEM_COPY_HOST_PTR, parent),
        CL_MEM_READ_WRITE | CL_MEM_USE_HOST_PTR | CL_MEM_HOST_NO_ACCESS
    );
}

#[test]
fn derived_flags_may_not_widen_access() {
    assert_eq!(validate_matching_buffer_flags(CL_MEM_WRITE_ONLY, CL_MEM_READ_WRITE), Err(-30));
    assert_eq!(validate_matching_buffer_flags(CL_MEM_READ_ONLY, CL_MEM_WRITE_ONLY), Err(-30));
    assert_eq!(validate_matching_buffer_flags(CL_MEM_READ_WRITE, CL_MEM_COPY_HOST_PTR), Err(-30));
    assert_eq!(
        validate_matching_buffer_flags(CL_MEM_HOST_NO_ACCESS, CL_MEM_HOST_READ_ONLY),
        Err(-30)
    );
    assert_eq!(validate_matching_buffer_flags(CL_MEM_READ_WRITE, CL_MEM_READ_ONLY), Ok(()));
}

#[test]
fn host_pointer_rule() {
    assert_eq!(validate_host_ptr(true, CL_MEM_USE_HOST_PTR), Ok(()));
    assert_eq!(validate_host_ptr(false, CL_MEM_COPY_HOST_PTR), Err(-37));
    assert_eq!(validate_host_ptr(true, CL_MEM_ALLOC_HOST_PTR), Err(-37));
    assert_eq!(validate_host_ptr(false, 0), Ok(()));
}

#[test]
fn map_flag_rule() {
    assert_eq!(validate_map_flags(1 | 2), Ok(()));
    assert_eq!(validate_map_flags(4), Ok(()));
    assert_eq!(validate_map_flags(1 | 4), Err(-30));
    assert_eq!(validate_map_flags(8), Err(-30));
    assert!(bit_check(6, 2));
    assert!(!bit_check(4, 2));
}
