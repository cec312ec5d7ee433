use rusticl::options::{contains_bytes, prepare_options, split_whitespace};

fn strs(v: Vec<Vec<u8>>) -> Vec<String> {
    v.into_iter().map(|w| String::from_utf8(w).unwrap()).collect()
}

#[test]
fn words_are_split_on_whitespace() {
    let s = b"  -a\t-b\n\n-c  ".to_vec();
    assert_eq!(strs(split_whitespace(&s)), vec!["-a", "-b", "-c"]);
    assert!(split_whitespace(&b"   ".to_vec()).is_empty());
}

#[test]
fn substring_search() {
    assert!(contains_bytes(&b"-O2 -cl-std=CL2.0".to_vec(), b"-cl-std=CL"));
    assert!(!contains_bytes(&b"-cl-std".to_vec(), b"-cl-std=CL"));
    assert!(contains_bytes(&b"x".to_vec(), b""));
}

#[test]
fn options_get_version_and_defines() {
    let r = prepare_options(&b"-O2".to_vec(), &b"3.0".to_vec(), true, &b"300".to_vec());
    assert_eq!(strs(r), vec!["-O2", "-cl-std=CL3.0", "-D__OPENCL_VERSION__=300"]);
    let r = prepare_options(
        &b"-cl-std=CL1.2 -cl-denorms-are-zero".to_vec(),
        &b"3.0".to_vec(),
        false,
        &b"120".to_vec(),
    );
    assert_eq!(
        strs(r),
        vec![
            "-cl-std=CL1.2",
            "-fdenormal-fp-math=positive-zero",
            "-U__IMAGE_SUPPORT__",
            "-D__OPENCL_VERSION__=120"
        ]
    );
}
