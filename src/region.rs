//! Three-component region vectors, pitch handling and the copy-overlap test.
use vstd::prelude::*;

verus! {

/// A vector of three `usize` components, as the API passes origins and regions.
#[derive(Clone, Copy)]
pub struct CLVec {
    pub vals: [usize; 3],
}

/// The linear byte offset of `v` against the weights `{1, row_pitch, slice_pitch}`.
pub open spec fn flat(v: Seq<usize>, row_pitch: int, slice_pitch: int) -> int {
    v[0] + v[1] * row_pitch + v[2] * slice_pitch
}

impl CLVec {
    pub open spec fn view(&self) -> Seq<usize> {
        self.vals@
    }

    pub fn new(vals: [usize; 3]) -> (r: Self)
        ensures
            r@ == vals@,
    {
        CLVec { vals }
    }

    /// Component `i`.
    pub fn get(&self, i: usize) -> (r: usize)
        requires
            i < 3,
        ensures
            r == self@[i as int],
    {
        self.vals[i]
    }

    /// Componentwise sum; `None` when a component overflows.
    pub fn checked_add(&self, o: &CLVec) -> (r: Option<CLVec>)
        ensures
            r.is_some() <==> (self@[0] + o@[0] <= usize::MAX && self@[1] + o@[1] <= usize::MAX
                && self@[2] + o@[2] <= usize::MAX),
            r.is_some() ==> forall|i: int| 0 <= i < 3 ==> r.unwrap()@[i] == self@[i] + o@[i],
    {
        let a = self.vals;
        let b = o.vals;
        if a[0] > usize::MAX - b[0] || a[1] > usize::MAX - b[1] || a[2] > usize::MAX - b[2] {
            return None;
        }
        Some(CLVec { vals: [a[0] + b[0], a[1] + b[1], a[2] + b[2]] })
    }

    /// Componentwise difference; `None` when a component would go below zero.
    pub fn checked_sub(&self, o: &CLVec) -> (r: Option<CLVec>)
        ensures
            r.is_some() <==> (self@[0] >= o@[0] && self@[1] >= o@[1] && self@[2] >= o@[2]),
            r.is_some() ==> forall|i: int| 0 <= i < 3 ==> r.unwrap()@[i] == self@[i] - o@[i],
    {
        let a = self.vals;
        let b = o.vals;
        if a[0] < b[0] || a[1] < b[1] || a[2] < b[2] {
            return None;
        }
        Some(CLVec { vals: [a[0] - b[0], a[1] - b[1], a[2] - b[2]] })
    }

    /// The flattened offset `v[0] + v[1] * row_pitch + v[2] * slice_pitch`;
    /// `None` when it exceeds `usize::MAX`.
    pub fn checked_flat(&self, row_pitch: usize, slice_pitch: usize) -> (r: Option<usize>)
        ensures
            r.is_some() <==> flat(self@, row_pitch as int, slice_pitch as int) <= usize::MAX,
            r.is_some() ==> r.unwrap() == flat(self@, row_pitch as int, slice_pitch as int),
    {
        let a = self.vals;
        let y = match a[1].checked_mul(row_pitch) {
            Some(y) => y,
            None => {
                assert(a[2] * slice_pitch >= 0) by (nonlinear_arith);
                return None;
            },
        };
        let z = match a[2].checked_mul(slice_pitch) {
            Some(z) => z,
            None => {
                assert(a[1] * row_pitch >= 0) by (nonlinear_arith);
                return None;
            },
        };
        if y > usize::MAX - z || a[0] > usize::MAX - (y + z) {
            return None;
        }
        Some(a[0] + y + z)
    }
}

impl Default for CLVec {
    fn default() -> (r: Self)
        ensures
            r@ == seq![0usize, 0usize, 0usize],
    {
        let r = CLVec { vals: [0, 0, 0] };
        assert(r@ =~= seq![0usize, 0usize, 0usize]);
        r
    }
}

} // verus!

verus! {

/// The overlap test for two equally shaped regions in one flattened address
/// space: `true` unless one block ends before the other starts, or the rows of
/// one fit in the gap of the other's row pitch, or its slices fit in the gap of
/// the other's slice pitch.
pub open spec fn copy_overlaps(
    src_origin: Seq<usize>,
    src_offset: int,
    dst_origin: Seq<usize>,
    dst_offset: int,
    region: Seq<usize>,
    row_pitch: int,
    slice_pitch: int,
) -> bool {
    let slice_size = (region[1] - 1) * row_pitch + region[0];
    let block_size = (region[2] - 1) * slice_pitch + slice_size;
    let src_start = flat(src_origin, row_pitch, slice_pitch) + src_offset;
    let dst_start = flat(dst_origin, row_pitch, slice_pitch) + dst_offset;
    let src_end = src_start + block_size;
    let dst_end = dst_start + block_size;
    let src_dx = (src_origin[0] + src_offset) % row_pitch;
    let dst_dx = (dst_origin[0] + dst_offset) % row_pitch;
    let src_dy = (src_origin[1] * row_pitch + src_origin[0] + src_offset) % slice_pitch;
    let dst_dy = (dst_origin[1] * row_pitch + dst_origin[0] + dst_offset) % slice_pitch;
    if dst_end <= src_start || src_end <= dst_start {
        false
    } else if (dst_dx >= src_dx + region[0] && dst_dx + region[0] <= src_dx + row_pitch) || (
    src_dx >= dst_dx + region[0] && src_dx + region[0] <= dst_dx + row_pitch) {
        false
    } else if (dst_dy >= src_dy + slice_size && dst_dy + slice_size <= src_dy + slice_pitch) || (
    src_dy >= dst_dy + slice_size && src_dy + slice_size <= dst_dy + slice_pitch) {
        false
    } else {
        true
    }
}

/// The byte just past a region at `origin` with `offset` added:
/// `flat(origin + region) + offset`.
pub open spec fn region_end(
    origin: Seq<usize>,
    offset: int,
    region: Seq<usize>,
    row_pitch: int,
    slice_pitch: int,
) -> int {
    (origin[0] + region[0]) + (origin[1] + region[1]) * row_pitch + (origin[2] + region[2])
        * slice_pitch + offset
}

/// Facts about a region whose end fits in `bound`: every partial sum of the
/// flattened start and extent is at most `bound`.
proof fn lemma_region_fits(
    origin: Seq<usize>,
    offset: int,
    region: Seq<usize>,
    row_pitch: int,
    slice_pitch: int,
    bound: int,
)
    requires
        origin.len() == 3,
        region.len() == 3,
        region[0] >= 1,
        region[1] >= 1,
        region[2] >= 1,
        row_pitch >= 1,
        slice_pitch >= 1,
        offset >= 0,
        region_end(origin, offset, region, row_pitch, slice_pitch) <= bound,
    ensures
        origin[1] * row_pitch >= 0,
        origin[2] * slice_pitch >= 0,
        flat(origin, row_pitch, slice_pitch) + offset + (region[2] - 1) * slice_pitch + (region[1]
            - 1) * row_pitch + region[0] <= bound,
        (region[1] - 1) * row_pitch >= 0,
        (region[2] - 1) * slice_pitch >= 0,
        row_pitch <= bound,
        slice_pitch <= bound,
        origin[1] * row_pitch + origin[0] + offset <= bound,
{
    let o0 = origin[0] as int;
    let o1 = origin[1] as int;
    let o2 = origin[2] as int;
    let r0 = region[0] as int;
    let r1 = region[1] as int;
    let r2 = region[2] as int;
    assert(o1 * row_pitch >= 0) by (nonlinear_arith)
        requires o1 >= 0, row_pitch >= 1;
    assert(o2 * slice_pitch >= 0) by (nonlinear_arith)
        requires o2 >= 0, slice_pitch >= 1;
    assert((r1 - 1) * row_pitch >= 0) by (nonlinear_arith)
        requires r1 >= 1, row_pitch >= 1;
    assert((r2 - 1) * slice_pitch >= 0) by (nonlinear_arith)
        requires r2 >= 1, slice_pitch >= 1;
    assert((o1 + r1) * row_pitch == o1 * row_pitch + (r1 - 1) * row_pitch + row_pitch)
        by (nonlinear_arith);
    assert((o2 + r2) * slice_pitch == o2 * slice_pitch + (r2 - 1) * slice_pitch + slice_pitch)
        by (nonlinear_arith);
}

/// Whether copying `region` from `src_origin` to `dst_origin` (each shifted by
/// its object's offset in a shared parent) touches overlapping bytes, for rows
/// `row_pitch` apart and slices `slice_pitch` apart.
pub fn check_copy_overlap(
    src_origin: &CLVec,
    src_offset: usize,
    dst_origin: &CLVec,
    dst_offset: usize,
    region: &CLVec,
    row_pitch: usize,
    slice_pitch: usize,
) -> (r: bool)
    requires
        region@[0] >= 1,
        region@[1] >= 1,
        region@[2] >= 1,
        row_pitch >= 1,
        slice_pitch >= 1,
        region_end(src_origin@, src_offset as int, region@, row_pitch as int, slice_pitch as int)
            <= usize::MAX,
        region_end(dst_origin@, dst_offset as int, region@, row_pitch as int, slice_pitch as int)
            <= usize::MAX,
    ensures
        r == copy_overlaps(
            src_origin@,
            src_offset as int,
            dst_origin@,
            dst_offset as int,
            region@,
            row_pitch as int,
            slice_pitch as int,
        ),
{
    proof {
        lemma_region_fits(
            src_origin@,
            src_offset as int,
            region@,
            row_pitch as int,
            slice_pitch as int,
            usize::MAX as int,
        );
        lemma_region_fits(
            dst_origin@,
            dst_offset as int,
            region@,
            row_pitch as int,
            slice_pitch as int,
            usize::MAX as int,
        );
    }
    let so = src_origin.vals;
    let d = dst_origin.vals;
    let r = region.vals;
    let slice_size = (r[1] - 1) * row_pitch + r[0];
    let block_size = (r[2] - 1) * slice_pitch + slice_size;
    let src_start = so[2] * slice_pitch + so[1] * row_pitch + so[0] + src_offset;
    let dst_start = d[2] * slice_pitch + d[1] * row_pitch + d[0] + dst_offset;
    let src_end = src_start + block_size;
    let dst_end = dst_start + block_size;

    if dst_end <= src_start || src_end <= dst_start {
        return false;
    }
    let src_dx = ((so[0] + src_offset) % row_pitch) as u128;
    let dst_dx = ((d[0] + dst_offset) % row_pitch) as u128;
    let r0 = r[0] as u128;
    let rp = row_pitch as u128;
    if (dst_dx >= src_dx + r0 && dst_dx + r0 <= src_dx + rp) || (src_dx >= dst_dx + r0 && src_dx
        + r0 <= dst_dx + rp) {
        return false;
    }
    let src_dy = ((so[1] * row_pitch + so[0] + src_offset) % slice_pitch) as u128;
    let dst_dy = ((d[1] * row_pitch + d[0] + dst_offset) % slice_pitch) as u128;
    let ss = slice_size as u128;
    let sp = slice_pitch as u128;
    if (dst_dy >= src_dy + ss && dst_dy + ss <= src_dy + sp) || (src_dy >= dst_dy + ss && src_dy
        + ss <= dst_dy + sp) {
        return false;
    }
    true
}

} // verus!

verus! {

/// The row pitch in effect: `region[0]` when zero is given.
pub open spec fn effective_row_pitch(region: Seq<usize>, row_pitch: int) -> int {
    if row_pitch == 0 {
        region[0] as int
    } else {
        row_pitch
    }
}

/// The slice pitch in effect: `region[1] * row_pitch` when zero is given.
pub open spec fn effective_slice_pitch(region: Seq<usize>, row_pitch: int, slice_pitch: int) -> int {
    if slice_pitch == 0 {
        region[1] * row_pitch
    } else {
        slice_pitch
    }
}

/// The pitch rule of rectangular transfers. No region component is zero; a
/// given row pitch is at least `region[0]`; the default slice pitch fits in a
/// `usize`. A given slice pitch that is both below `region[1] * row_pitch` and
/// not a multiple of the row pitch is refused; with `strict`, either of the two
/// is enough to refuse it.
pub open spec fn pitches_valid(region: Seq<usize>, row_pitch: int, slice_pitch: int, strict: bool) -> bool {
    let rp = effective_row_pitch(region, row_pitch);
    let short = slice_pitch < region[1] * rp;
    let unaligned = slice_pitch % rp != 0;
    &&& region[0] != 0 && region[1] != 0 && region[2] != 0
    &&& row_pitch == 0 || row_pitch >= region[0]
    &&& region[1] * rp <= usize::MAX
    &&& slice_pitch == 0 || (if strict { !short && !unaligned } else { !(short && unaligned) })
}

/// Checks the pitches of a rectangular transfer and fills in defaults for the
/// zero ones.
pub fn resolve_pitches(region: &CLVec, row_pitch: usize, slice_pitch: usize, strict: bool) -> (r:
    Result<(usize, usize), i32>)
    ensures
        r.is_ok() <==> pitches_valid(region@, row_pitch as int, slice_pitch as int, strict),
        r.is_ok() ==> r.unwrap().0 == effective_row_pitch(region@, row_pitch as int),
        r.is_ok() ==> r.unwrap().1 == effective_slice_pitch(
            region@,
            r.unwrap().0 as int,
            slice_pitch as int,
        ),
        r.is_err() ==> r == Err::<(usize, usize), i32>(crate::cl::CL_INVALID_VALUE),
{
    let r = region.vals;
    if r[0] == 0 || r[1] == 0 || r[2] == 0 || (row_pitch != 0 && row_pitch < r[0]) {
        return Err(crate::cl::CL_INVALID_VALUE);
    }
    let rp = if row_pitch == 0 {
        r[0]
    } else {
        row_pitch
    };
    let min_slice = match r[1].checked_mul(rp) {
        Some(m) => m,
        None => return Err(crate::cl::CL_INVALID_VALUE),
    };
    if slice_pitch != 0 {
        let short = slice_pitch < min_slice;
        let unaligned = slice_pitch % rp != 0;
        if (strict && (short || unaligned)) || (!strict && short && unaligned) {
            return Err(crate::cl::CL_INVALID_VALUE);
        }
    }
    let sp = if slice_pitch == 0 {
        min_slice
    } else {
        slice_pitch
    };
    Ok((rp, sp))
}

/// Passing zero pitches to a rectangular transfer resolves exactly as passing
/// `region[0]` and `region[1] * region[0]` explicitly.
pub proof fn lemma_zero_pitch_defaults(region: CLVec, strict: bool)
    requires
        region@[1] * region@[0] <= usize::MAX,
    ensures
        pitches_valid(region@, 0, 0, strict) == pitches_valid(
            region@,
            region@[0] as int,
            region@[1] * region@[0],
            strict,
        ),
        effective_row_pitch(region@, 0) == effective_row_pitch(region@, region@[0] as int),
        effective_slice_pitch(region@, region@[0] as int, 0) == effective_slice_pitch(
            region@,
            region@[0] as int,
            region@[1] * region@[0],
        ),
{
    let r0 = region@[0] as int;
    let r1 = region@[1] as int;
    if r0 != 0 {
        vstd::arithmetic::div_mod::lemma_mod_multiples_basic(r1, r0);
    }
}

} // verus!

verus! {

/// A region copied onto itself, at the same origin in the same parent,
/// overlaps.
pub proof fn lemma_same_region_overlaps(
    origin: CLVec,
    offset: usize,
    region: CLVec,
    row_pitch: usize,
    slice_pitch: usize,
)
    requires
        region@[0] >= 1,
        region@[1] >= 1,
        region@[2] >= 1,
        row_pitch >= 1,
        slice_pitch >= 1,
    ensures
        copy_overlaps(
            origin@,
            offset as int,
            origin@,
            offset as int,
            region@,
            row_pitch as int,
            slice_pitch as int,
        ),
{
    let r1 = region@[1] as int;
    let r2 = region@[2] as int;
    assert((r1 - 1) * row_pitch >= 0) by (nonlinear_arith)
        requires r1 >= 1, row_pitch >= 1;
    assert((r2 - 1) * slice_pitch >= 0) by (nonlinear_arith)
        requires r2 >= 1, slice_pitch >= 1;
}

/// Two regions whose origins lie at least a region's extent apart in every
/// dimension, at the same offset, do not overlap.
pub proof fn lemma_separated_regions_disjoint(
    src_origin: CLVec,
    dst_origin: CLVec,
    offset: usize,
    region: CLVec,
    row_pitch: usize,
    slice_pitch: usize,
)
    requires
        region@[0] >= 1,
        region@[1] >= 1,
        region@[2] >= 1,
        row_pitch >= 1,
        slice_pitch >= 1,
        dst_origin@[0] >= src_origin@[0] + region@[0],
        dst_origin@[1] >= src_origin@[1] + region@[1],
        dst_origin@[2] >= src_origin@[2] + region@[2],
    ensures
        !copy_overlaps(
            src_origin@,
            offset as int,
            dst_origin@,
            offset as int,
            region@,
            row_pitch as int,
            slice_pitch as int,
        ),
{
    let s1 = src_origin@[1] as int;
    let s2 = src_origin@[2] as int;
    let d1 = dst_origin@[1] as int;
    let d2 = dst_origin@[2] as int;
    let r1 = region@[1] as int;
    let r2 = region@[2] as int;
    let rp = row_pitch as int;
    let sp = slice_pitch as int;
    assert(d1 * rp - s1 * rp >= (r1 - 1) * rp) by (nonlinear_arith)
        requires d1 >= s1 + r1, rp >= 1;
    assert(d2 * sp - s2 * sp >= (r2 - 1) * sp) by (nonlinear_arith)
        requires d2 >= s2 + r2, sp >= 1;
}

} // verus!

verus! {

/// `dst` with the `n` bytes of `src` starting at `s` written at `d`.
pub open spec fn copy_bytes(dst: Seq<u8>, src: Seq<u8>, s: int, d: int, n: int) -> Seq<u8> {
    dst.take(d) + src.subrange(s, s + n) + dst.skip(d + n)
}

/// The start of row `y` of slice `z` of a region at `origin`.
pub open spec fn row_start(origin: Seq<usize>, y: int, z: int, row_pitch: int, slice_pitch: int) -> int {
    origin[0] + (origin[1] + y) * row_pitch + (origin[2] + z) * slice_pitch
}

/// `dst` after the first `rows` rows of a rectangular copy, rows taken slice
/// by slice and, within a slice, in order.
pub open spec fn rect_copy(
    dst: Seq<u8>,
    src: Seq<u8>,
    region: Seq<usize>,
    src_origin: Seq<usize>,
    src_row_pitch: int,
    src_slice_pitch: int,
    dst_origin: Seq<usize>,
    dst_row_pitch: int,
    dst_slice_pitch: int,
    rows: nat,
) -> Seq<u8>
    decreases rows,
{
    if rows == 0 {
        dst
    } else {
        let j = rows - 1;
        let y = j % (region[1] as int);
        let z = j / (region[1] as int);
        copy_bytes(
            rect_copy(
                dst,
                src,
                region,
                src_origin,
                src_row_pitch,
                src_slice_pitch,
                dst_origin,
                dst_row_pitch,
                dst_slice_pitch,
                (rows - 1) as nat,
            ),
            src,
            row_start(src_origin, y, z, src_row_pitch, src_slice_pitch),
            row_start(dst_origin, y, z, dst_row_pitch, dst_slice_pitch),
            region[0] as int,
        )
    }
}

/// Copies `n` bytes of `src` at `s` to `dst` at `d`.
pub fn copy_row(src: &Vec<u8>, dst: &mut Vec<u8>, s: usize, d: usize, n: usize)
    requires
        s + n <= src@.len(),
        d + n <= old(dst)@.len(),
    ensures
        final(dst)@ == copy_bytes(old(dst)@, src@, s as int, d as int, n as int),
{
    let ghost prev = dst@;
    let src_len = src.len();
    let dst_len = dst.len();
    let mut x: usize = 0;
    while x < n
        invariant
            x <= n,
            src_len == src@.len(),
            dst_len == prev.len(),
            s + n <= src@.len(),
            d + n <= prev.len(),
            dst@ == copy_bytes(prev, src@, s as int, d as int, x as int),
        decreases n - x,
    {
        let b = src[s + x];
        dst.set(d + x, b);
        x = x + 1;
        assert(dst@ =~= copy_bytes(prev, src@, s as int, d as int, x as int));
    }
}

/// Every row of a region whose end fits in `len` lies within `len`.
proof fn lemma_row_in_bounds(
    origin: Seq<usize>,
    region: Seq<usize>,
    row_pitch: int,
    slice_pitch: int,
    y: int,
    z: int,
    len: int,
)
    requires
        origin.len() == 3,
        region.len() == 3,
        row_pitch >= 1,
        slice_pitch >= 1,
        0 <= y < region[1],
        0 <= z < region[2],
        region_end(origin, 0, region, row_pitch, slice_pitch) <= len,
    ensures
        0 <= row_start(origin, y, z, row_pitch, slice_pitch),
        row_start(origin, y, z, row_pitch, slice_pitch) + region[0] <= len,
        origin[1] + y <= (origin[1] + y) * row_pitch <= len,
        origin[2] + z <= (origin[2] + z) * slice_pitch <= len,
{
    let o1 = origin[1] as int;
    let o2 = origin[2] as int;
    let r1 = region[1] as int;
    let r2 = region[2] as int;
    assert(0 <= (o1 + y) * row_pitch <= (o1 + r1) * row_pitch) by (nonlinear_arith)
        requires 0 <= y < r1, o1 >= 0, row_pitch >= 1;
    assert(o1 + y <= (o1 + y) * row_pitch) by (nonlinear_arith)
        requires 0 <= y, o1 >= 0, row_pitch >= 1;
    assert(o2 + z <= (o2 + z) * slice_pitch) by (nonlinear_arith)
        requires 0 <= z, o2 >= 0, slice_pitch >= 1;
    assert(0 <= (o2 + z) * slice_pitch <= (o2 + r2) * slice_pitch) by (nonlinear_arith)
        requires 0 <= z < r2, o2 >= 0, slice_pitch >= 1;
}

/// Copies a rectangular region between two byte stores, row by row.
pub fn sw_copy(
    src: &Vec<u8>,
    dst: &mut Vec<u8>,
    region: &CLVec,
    src_origin: &CLVec,
    src_row_pitch: usize,
    src_slice_pitch: usize,
    dst_origin: &CLVec,
    dst_row_pitch: usize,
    dst_slice_pitch: usize,
)
    requires
        region@[1] >= 1,
        src_row_pitch >= 1,
        src_slice_pitch >= 1,
        dst_row_pitch >= 1,
        dst_slice_pitch >= 1,
        region_end(src_origin@, 0, region@, src_row_pitch as int, src_slice_pitch as int)
            <= src@.len(),
        region_end(dst_origin@, 0, region@, dst_row_pitch as int, dst_slice_pitch as int) <= old(
            dst,
        )@.len(),
    ensures
        final(dst)@.len() == old(dst)@.len(),
        final(dst)@ == rect_copy(
            old(dst)@,
            src@,
            region@,
            src_origin@,
            src_row_pitch as int,
            src_slice_pitch as int,
            dst_origin@,
            dst_row_pitch as int,
            dst_slice_pitch as int,
            (region@[1] * region@[2]) as nat,
        ),
{
    let ghost start = dst@;
    let src_len = src.len();
    let dst_len = dst.len();
    let r = region.vals;
    let so = src_origin.vals;
    let d = dst_origin.vals;
    let mut z: usize = 0;
    while z < r[2]
        invariant
            z <= r[2],
            r@ == region@,
            so@ == src_origin@,
            d@ == dst_origin@,
            region@[1] >= 1,
            src_len == src@.len(),
            dst_len == start.len(),
            src_row_pitch >= 1,
            src_slice_pitch >= 1,
            dst_row_pitch >= 1,
            dst_slice_pitch >= 1,
            dst@.len() == start.len(),
            region_end(src_origin@, 0, region@, src_row_pitch as int, src_slice_pitch as int)
                <= src@.len(),
            region_end(dst_origin@, 0, region@, dst_row_pitch as int, dst_slice_pitch as int)
                <= start.len(),
            dst@ == rect_copy(
                start,
                src@,
                region@,
                src_origin@,
                src_row_pitch as int,
                src_slice_pitch as int,
                dst_origin@,
                dst_row_pitch as int,
                dst_slice_pitch as int,
                (z * region@[1]) as nat,
            ),
        decreases r[2] - z,
    {
        let mut y: usize = 0;
        while y < r[1]
            invariant
                y <= r[1],
                z < r[2],
                r@ == region@,
                so@ == src_origin@,
                d@ == dst_origin@,
                region@[1] >= 1,
                src_len == src@.len(),
                dst_len == start.len(),
                src_row_pitch >= 1,
                src_slice_pitch >= 1,
                dst_row_pitch >= 1,
                dst_slice_pitch >= 1,
                dst@.len() == start.len(),
                region_end(src_origin@, 0, region@, src_row_pitch as int, src_slice_pitch as int)
                    <= src@.len(),
                region_end(dst_origin@, 0, region@, dst_row_pitch as int, dst_slice_pitch as int)
                    <= start.len(),
                dst@ == rect_copy(
                    start,
                    src@,
                    region@,
                    src_origin@,
                    src_row_pitch as int,
                    src_slice_pitch as int,
                    dst_origin@,
                    dst_row_pitch as int,
                    dst_slice_pitch as int,
                    (z * region@[1] + y) as nat,
                ),
            decreases r[1] - y,
        {
            proof {
                lemma_row_in_bounds(
                    src_origin@,
                    region@,
                    src_row_pitch as int,
                    src_slice_pitch as int,
                    y as int,
                    z as int,
                    src@.len() as int,
                );
                lemma_row_in_bounds(
                    dst_origin@,
                    region@,
                    dst_row_pitch as int,
                    dst_slice_pitch as int,
                    y as int,
                    z as int,
                    start.len() as int,
                );
                vstd::arithmetic::div_mod::lemma_fundamental_div_mod_converse(
                    (z * region@[1] + y) as int,
                    region@[1] as int,
                    z as int,
                    y as int,
                );
            }
            let s_at = so[0] + (so[1] + y) * src_row_pitch + (so[2] + z) * src_slice_pitch;
            let d_at = d[0] + (d[1] + y) * dst_row_pitch + (d[2] + z) * dst_slice_pitch;
            copy_row(src, dst, s_at, d_at, r[0]);
            y = y + 1;
        }
        proof {
            assert((z + 1) * region@[1] == z * region@[1] + region@[1]) by (nonlinear_arith);
        }
        z = z + 1;
    }
    proof {
        assert(region@[2] * region@[1] == region@[1] * region@[2]) by (nonlinear_arith);
    }
}

} // verus!

verus! {

/// Whether a region at `origin` with the given pitches ends within `len`
/// bytes.
pub fn rect_fits(origin: &CLVec, region: &CLVec, row_pitch: usize, slice_pitch: usize, len: usize) -> (r: bool)
    requires
        row_pitch >= 1,
        slice_pitch >= 1,
    ensures
        r == (region_end(origin@, 0, region@, row_pitch as int, slice_pitch as int) <= len),
{
    match origin.checked_add(region) {
        None => {
            let ghost a = origin@[1] + region@[1];
            let ghost b = origin@[2] + region@[2];
            assert(a * row_pitch >= a && b * slice_pitch >= b) by (nonlinear_arith)
                requires row_pitch >= 1, slice_pitch >= 1, a >= 0, b >= 0;
            false
        },
        Some(end) => match end.checked_flat(row_pitch, slice_pitch) {
            None => false,
            Some(f) => f <= len,
        },
    }
}

} // verus!
