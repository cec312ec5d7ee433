use rusticl::region::{check_copy_overlap, rect_fits, resolve_pitches, sw_copy, CLVec};

#[test]
fn same_region_same_origin_overlaps() {
    let o = CLVec::new([2, 1, 0]);
    let r = CLVec::new([4, 2, 1]);
    assert!(check_copy_overlap(&o, 0, &o, 0, &r, 8, 32));
}

#[test]
fn separated_regions_do_not_overlap() {
    let src = CLVec::new([0, 0, 0]);
    let dst = CLVec::new([5, 3, 2]);
    let r = CLVec::new([4, 2, 1]);
    assert!(!check_copy_overlap(&src, 0, &dst, 0, &r, 16, 64));
}

#[test]
fn rows_fitting_in_pitch_gap_do_not_overlap() {
    // Rows of four bytes in a pitch of eight: one region in the left half of
    // every row, the other in the right half.
    let src = CLVec::new([0, 0, 0]);
    let dst = CLVec::new([4, 0, 0]);
    let r = CLVec::new([4, 3, 1]);
    assert!(!check_copy_overlap(&src, 0, &dst, 0, &r, 8, 24));
    let dst2 = CLVec::new([2, 0, 0]);
    assert!(check_copy_overlap(&src, 0, &dst2, 0, &r, 8, 24));
}

#[test]
fn sub_buffer_offsets_shift_regions() {
    let o = CLVec::new([0, 0, 0]);
    let r = CLVec::new([4, 1, 1]);
    assert!(!check_copy_overlap(&o, 0, &o, 4, &r, 4, 4));
    assert!(check_copy_overlap(&o, 0, &o, 3, &r, 4, 4));
}

#[test]
fn zero_pitches_default_from_region() {
    let r = CLVec::new([4, 3, 2]);
    assert_eq!(resolve_pitches(&r, 0, 0, true), Ok((4, 12)));
    assert_eq!(resolve_pitches(&r, 4, 12, true), Ok((4, 12)));
    assert_eq!(resolve_pitches(&r, 0, 0, false), resolve_pitches(&r, 4, 12, false));
    assert_eq!(resolve_pitches(&r, 6, 0, true), Ok((6, 18)));
}

#[test]
fn bad_pitches_are_refused() {
    let r = CLVec::new([4, 3, 2]);
    assert_eq!(resolve_pitches(&r, 3, 0, true), Err(-30));
    assert_eq!(resolve_pitches(&CLVec::new([4, 0, 2]), 0, 0, true), Err(-30));
    // 8 is below 3 * 4 but a multiple of 4: only the strict rule refuses it.
    assert_eq!(resolve_pitches(&r, 4, 8, true), Err(-30));
    assert_eq!(resolve_pitches(&r, 4, 8, false), Ok((4, 8)));
    assert_eq!(resolve_pitches(&r, 4, 10, false), Err(-30));
}

#[test]
fn rect_copy_moves_rows() {
    let src: Vec<u8> = (0u8..16).collect();
    let mut dst = vec![0u8; 16];
    let r = CLVec::new([2, 2, 1]);
    sw_copy(&src, &mut dst, &r, &CLVec::new([1, 1, 0]), 4, 16, &CLVec::new([0, 0, 0]), 2, 4);
    assert_eq!(&dst[0..4], &[5, 6, 9, 10]);
    assert!(dst[4..].iter().all(|b| *b == 0));
}

#[test]
fn rect_fits_checks_the_end() {
    let r = CLVec::new([4, 2, 1]);
    assert!(rect_fits(&CLVec::new([0, 0, 0]), &r, 4, 8, 20));
    assert!(!rect_fits(&CLVec::new([0, 0, 0]), &r, 4, 8, 19));
    assert!(!rect_fits(&CLVec::new([usize::MAX, 0, 0]), &r, 4, 8, usize::MAX));
}

#[test]
fn clvec_arithmetic() {
    let a = CLVec::new([1, 2, 3]);
    let b = CLVec::new([4, 5, 6]);
    assert_eq!(a.checked_add(&b).unwrap().vals, [5, 7, 9]);
    assert_eq!(b.checked_sub(&a).unwrap().vals, [3, 3, 3]);
    assert!(a.checked_sub(&b).is_none());
    assert_eq!(a.checked_flat(10, 100), Some(321));
    assert_eq!(CLVec::default().vals, [0, 0, 0]);
    assert_eq!(a.get(2), 3);
}
