use rusticl::kernel::{
    create_kernel_arr, internal_args_for, printf_payload, resolve_work_sizes, set_kernel_arg,
    AddressQualifier, ArgTypeInfo, Binding, InternalKernelArgType, Kernel, KernelArg,
    KernelArgType, KernelArgValue, SPIRVKernelArg,
};
use rusticl::cl::{CL_MEM_READ_WRITE, CL_KERNEL_ARG_ACCESS_READ_ONLY, CL_KERNEL_ARG_ADDRESS_GLOBAL};
use rusticl::context::Context;
use rusticl::memory::MemStore;
use rusticl::kernel::execute_launch;
use rusticl::pipe::PipeContext;

fn decl(name: &str, q: AddressQualifier) -> SPIRVKernelArg {
    SPIRVKernelArg {
        name: name.to_string(),
        declared_type: "int".to_string(),
        access_qualifier: 1,
        address_qualifier: q,
        type_qualifier: 1 | 4,
    }
}

/// A kernel `k(int a, int b, global int* c, local int* d)` in which `b` was
/// optimized away; `a` sits at 0, `c` at 8, `d` at 16, the offsets at 24.
fn sample_kernel() -> Kernel {
    let spirv = vec![
        decl("a", AddressQualifier::Private),
        decl("b", AddressQualifier::Private),
        decl("c", AddressQualifier::Global),
        decl("d", AddressQualifier::Local),
    ];
    let types = vec![
        ArgTypeInfo { is_sampler: false, cl_size: 4 },
        ArgTypeInfo { is_sampler: false, cl_size: 4 },
        ArgTypeInfo { is_sampler: false, cl_size: 8 },
        ArgTypeInfo { is_sampler: false, cl_size: 8 },
    ];
    let mut args = KernelArg::from_spirv_nir(spirv, &types);
    let mut internal = internal_args_for(false, false);
    KernelArg::assign_locations(&mut args, &mut internal, &vec![(0, 0), (2, 8), (3, 16), (4, 24)]);
    Kernel::new(7, "k".to_string(), args, internal, [0, 0, 0])
}

#[test]
fn first_pass_kinds_and_second_pass_offsets() {
    let k = sample_kernel();
    assert!(k.args[0].kind == KernelArgType::Constant);
    assert!(k.args[2].kind == KernelArgType::MemGlobal);
    assert!(k.args[3].kind == KernelArgType::MemLocal);
    assert!(!k.args[0].dead && k.args[1].dead && !k.args[2].dead && !k.args[3].dead);
    assert_eq!(k.args[2].offset, 8);
    assert_eq!(k.internal_args.len(), 1);
    assert!(k.internal_args[0].kind == InternalKernelArgType::GlobalWorkOffsets);
    assert_eq!(k.internal_args[0].offset, 24);
    assert_eq!(k.access_qualifier(0), CL_KERNEL_ARG_ACCESS_READ_ONLY);
    assert_eq!(k.address_qualifier(2), CL_KERNEL_ARG_ADDRESS_GLOBAL);
    assert_eq!(k.type_qualifier(0), 1 | 4);
    assert_eq!(k.arg_name(3), "d");
    assert_eq!(k.arg_type_name(3), "int");
}

#[test]
fn internal_args_come_in_fixed_order() {
    let all = internal_args_for(true, true);
    assert_eq!(all.len(), 3);
    assert!(all[0].kind == InternalKernelArgType::GlobalWorkOffsets && all[0].size == 24);
    assert!(all[1].kind == InternalKernelArgType::ConstantBuffer);
    assert!(all[2].kind == InternalKernelArgType::PrintfBuffer);
    assert_eq!(internal_args_for(false, true).len(), 2);
}

#[test]
fn set_arg_errors() {
    let mems = MemStore::new();
    let mut k = sample_kernel();
    assert_eq!(set_kernel_arg(&mut k, 4, 4, Some(&vec![0; 4]), &mems), Err(-49));
    assert_eq!(set_kernel_arg(&mut k, 0, 8, Some(&vec![0; 8]), &mems), Err(-51));
    assert_eq!(set_kernel_arg(&mut k, 3, 0, None, &mems), Err(-51));
    assert_eq!(set_kernel_arg(&mut k, 3, 16, Some(&vec![0; 16]), &mems), Err(-50));
    assert_eq!(set_kernel_arg(&mut k, 0, 4, None, &mems), Err(-50));
    assert_eq!(set_kernel_arg(&mut k, 2, 8, Some(&vec![5, 0, 0, 0, 0, 0, 0, 0]), &mems), Err(-38));
    assert!(k.values.iter().all(|v| v.is_none()));
}

#[test]
fn constant_argument_bytes_reach_input() {
    let ctx = Context::new(7, vec![]);
    let mut mems = MemStore::new();
    let buf = mems.create_buffer(&ctx, CL_MEM_READ_WRITE, 64, None).unwrap();
    let sub = mems.create_sub_buffer(buf, 0, 16, 16).unwrap();
    let mut k = sample_kernel();
    assert_eq!(set_kernel_arg(&mut k, 0, 4, Some(&vec![0xde, 0xad, 0xbe, 0xef]), &mems), Ok(()));
    // The dead argument accepts a value and stores nothing.
    assert_eq!(set_kernel_arg(&mut k, 1, 4, Some(&vec![9, 9, 9, 9]), &mems), Ok(()));
    assert!(matches!(k.values[1], Some(KernelArgValue::Empty)));
    let handle = ((sub + 1) as u64).to_le_bytes().to_vec();
    assert_eq!(set_kernel_arg(&mut k, 2, 8, Some(&handle), &mems), Ok(()));
    assert!(matches!(k.values[2], Some(KernelArgValue::MemObject(h)) if h == sub));
    assert_eq!(set_kernel_arg(&mut k, 3, 32, None, &mems), Ok(()));

    let plan = k.launch(&mems, 256, 64, 1, &vec![0], &vec![1024], &vec![3], 16, vec![]).unwrap();
    assert_eq!(&plan.input[0..4], &[0xde, 0xad, 0xbe, 0xef]);
    assert_eq!(&plan.input[4..8], &[0, 0, 0, 0]);
    assert_eq!(&plan.input[8..16], &16u64.to_le_bytes());
    assert_eq!(&plan.input[16..24], &[0; 8]);
    assert_eq!(&plan.input[24..32], &3u64.to_le_bytes());
    assert_eq!(&plan.input[32..48], &[0; 16]);
    assert_eq!(plan.input.len(), 48);
    assert_eq!(plan.bindings.len(), 1);
    assert!(plan.bindings[0].0 == Binding::Mem(buf));
    assert_eq!(plan.bindings[0].1, 8);
    assert_eq!(plan.local_size, 48);
    assert_eq!(plan.block, [256, 1, 1]);
    assert_eq!(plan.grid, [4, 1, 1]);
}

#[test]
fn launch_needs_every_live_value() {
    let mems = MemStore::new();
    let k = sample_kernel();
    assert!(matches!(k.launch(&mems, 256, 64, 1, &vec![1], &vec![4], &vec![0], 0, vec![]), Err(-52)));
}

#[test]
fn work_sizes_are_resolved() {
    assert_eq!(resolve_work_sizes(256, &vec![0], &vec![1024]), Some(([256, 1, 1], [4, 1, 1])));
    assert_eq!(resolve_work_sizes(256, &vec![0], &vec![1000]), Some(([1, 1, 1], [1000, 1, 1])));
    assert_eq!(resolve_work_sizes(256, &vec![8, 0], &vec![64, 6]), Some(([8, 1, 1], [8, 6, 1])));
    assert_eq!(resolve_work_sizes(256, &vec![1], &vec![1usize << 33]), None);
    assert_eq!(create_kernel_arr(&vec![5, 6], 1, 10), Some([5, 6, 1]));
    assert_eq!(create_kernel_arr(&vec![11], 1, 10), None);
}

#[test]
fn printf_payload_is_length_prefixed() {
    assert_eq!(printf_payload(&vec![4, 0, 0, 0, 1, 2]), Vec::<u8>::new());
    assert_eq!(printf_payload(&vec![0; 16]), Vec::<u8>::new());
    assert_eq!(printf_payload(&vec![7, 0, 0, 0, b'a', b'b', b'c', b'd']), b"abc".to_vec());
    assert_eq!(printf_payload(&vec![200, 0, 0, 0, b'x']), b"x".to_vec());
    assert_eq!(printf_payload(&vec![1, 2]), Vec::<u8>::new());
}

#[test]
fn duplicated_kernels_keep_their_own_values() {
    let mems = MemStore::new();
    let mut k = sample_kernel();
    assert_eq!(set_kernel_arg(&mut k, 0, 4, Some(&vec![1, 1, 1, 1]), &mems), Ok(()));
    let mut c = k.duplicate();
    assert_eq!(set_kernel_arg(&mut c, 0, 4, Some(&vec![2, 2, 2, 2]), &mems), Ok(()));
    assert!(matches!(&k.values[0], Some(KernelArgValue::Constant(v)) if v == &vec![1, 1, 1, 1]));
    assert!(matches!(&c.values[0], Some(KernelArgValue::Constant(v)) if v == &vec![2, 2, 2, 2]));
    assert_eq!(c.args.len(), k.args.len());
    assert_eq!(c.name, "k");
    assert_eq!(c.args[2].offset, 8);
}

#[test]
fn unused_printf_buffer_gives_empty_payload() {
    let mems = MemStore::new();
    let mut internal = internal_args_for(false, true);
    internal[1].offset = 24;
    let k = Kernel::new(7, "p".to_string(), vec![], internal, [0, 0, 0]);
    let plan = k.launch(&mems, 64, 128, 1, &vec![4], &vec![4], &vec![0], 0, vec![]).unwrap();
    assert!(plan.bindings[0].0 == Binding::PrintfBuffer);
    let mut ctx = PipeContext::new();
    let out = execute_launch(&plan, &mut ctx);
    assert!(out.is_empty());
    assert_eq!(ctx.launches.len(), 1);
    assert_eq!(ctx.buffers[0][0..4], [4, 0, 0, 0]);
}

#[test]
fn dead_handle_argument_accepts_any_value() {
    let mems = MemStore::new();
    let spirv = vec![decl("g", AddressQualifier::Global)];
    let types = vec![ArgTypeInfo { is_sampler: false, cl_size: 16 }];
    let args = KernelArg::from_spirv_nir(spirv, &types);
    let mut k = Kernel::new(7, "d".to_string(), args, internal_args_for(false, false), [0, 0, 0]);
    assert_eq!(set_kernel_arg(&mut k, 0, 16, Some(&vec![0xff; 16]), &mems), Ok(()));
    assert!(matches!(k.values[0], Some(KernelArgValue::Empty)));
}
