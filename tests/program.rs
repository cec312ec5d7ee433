use rusticl::cl::{CL_BUILD_ERROR, CL_BUILD_NONE, CL_BUILD_SUCCESS, CL_PROGRAM_BINARY_TYPE_EXECUTABLE};
use rusticl::kernel::{create_kernel, create_kernels_in_program, AddressQualifier, SPIRVKernelArg};
use rusticl::program::{decode_binary, encode_binary, Program};

#[test]
fn binary_header_layout() {
    let b = encode_binary(4, &vec![0xaa, 0xbb]);
    assert_eq!(b, vec![1, 0, 0, 0, 2, 0, 0, 0, 4, 0, 0, 0, 0xaa, 0xbb]);
    assert_eq!(decode_binary(&b), Ok((4, vec![0xaa, 0xbb])));
}

#[test]
fn malformed_binaries_are_refused() {
    let mut b = encode_binary(4, &vec![1, 2, 3]);
    assert_eq!(decode_binary(&b[0..11].to_vec()), Err(-42));
    assert_eq!(decode_binary(&b[0..14].to_vec()), Err(-42));
    b[0] = 2;
    assert_eq!(decode_binary(&b), Err(-42));
    assert_eq!(decode_binary(&encode_binary(1, &vec![])), Ok((1, vec![])));
}

#[test]
fn build_records_per_device() {
    let mut p = Program::new(1, 2, b"kernel void k() {}".to_vec());
    assert_eq!(p.status(0), CL_BUILD_NONE);
    assert!(p.build(0, "-O2".to_string(), Some(vec![9, 9]), vec!["k".to_string()], "ok".to_string(), false));
    assert!(!p.build(1, String::new(), None, vec![], "error".to_string(), false));
    assert_eq!(p.status(0), CL_BUILD_SUCCESS);
    assert_eq!(p.status(1), CL_BUILD_ERROR);
    assert_eq!(p.bin_type(0), CL_PROGRAM_BINARY_TYPE_EXECUTABLE);
    assert_eq!(p.log(1), "error");
    assert_eq!(p.options(0), "-O2");
    assert_eq!(p.kernels(), &vec!["k".to_string()]);
    assert_eq!(p.bin_sizes(), vec![14, 0]);
    let bins = p.binaries();
    assert_eq!(decode_binary(&bins[0]), Ok((4, vec![9, 9])));
    assert!(bins[1].is_empty());
    let q = Program::from_bins(1, &vec![bins[0].clone()], vec!["k".to_string()]).unwrap();
    assert_eq!(q.status(0), CL_BUILD_SUCCESS);
    assert_eq!(q.bin_type(0), 4);
    assert!(Program::from_bins(1, &vec![vec![1, 2, 3]], vec![]).is_err());
    assert!(p.compile(1, String::new(), Some(vec![1]), String::new()));
    assert_eq!(p.bin_type(1), 1);
}

fn arg(name: &str) -> SPIRVKernelArg {
    SPIRVKernelArg {
        name: name.to_string(),
        declared_type: "float*".to_string(),
        access_qualifier: 0,
        address_qualifier: AddressQualifier::Global,
        type_qualifier: 0,
    }
}

#[test]
fn kernel_signatures_must_agree() {
    let mut p = Program::new(1, 3, b"src".to_vec());
    let name = "k".to_string();
    assert_eq!(create_kernel(&p, &"x".to_string(), &vec![vec![], vec![], vec![]]), Err(-46));
    p.build(1, String::new(), None, vec!["k".to_string()], String::new(), false);
    assert_eq!(create_kernel(&p, &name, &vec![vec![], vec![], vec![]]), Err(-46));
    p.build(1, String::new(), Some(vec![1]), vec!["k".to_string()], String::new(), false);
    p.build(2, String::new(), Some(vec![1]), vec![], String::new(), false);
    assert_eq!(create_kernel(&p, &name, &vec![vec![], vec![arg("a")], vec![arg("a")]]), Ok(1));
    assert_eq!(create_kernel(&p, &name, &vec![vec![], vec![arg("a")], vec![arg("b")]]), Err(-47));
    let linked = Program::link(1, vec![(None, "bad".to_string())], vec!["k".to_string()], false);
    assert_eq!(create_kernel(&linked, &name, &vec![vec![]]), Err(-45));
}

#[test]
fn kernels_in_program_with_uniform_signatures() {
    let mut p = Program::new(1, 2, b"src".to_vec());
    let none = create_kernels_in_program(&p, &vec![], None);
    assert_eq!(none, Err(-45));
    p.build(0, String::new(), Some(vec![1]), vec!["a".to_string(), "b".to_string()], String::new(), false);
    p.build(1, String::new(), Some(vec![1]), vec![], String::new(), false);
    let sigs = vec![vec![vec![arg("x")], vec![arg("x")]], vec![vec![arg("x")], vec![arg("y")]]];
    assert_eq!(create_kernels_in_program(&p, &sigs, None), Ok(vec![0]));
    assert_eq!(create_kernels_in_program(&p, &sigs, Some(1)), Err(-30));
    assert_eq!(create_kernels_in_program(&p, &sigs, Some(2)), Ok(vec![0]));
}
