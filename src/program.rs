//! Programs: per-device build records and the persisted binary format.
use vstd::prelude::*;
use crate::bytes::{from_le, le_bytes, push_le, read_le};
use crate::cl::{
    CL_BUILD_ERROR, CL_BUILD_NONE, CL_BUILD_SUCCESS, CL_INVALID_BINARY,
    CL_PROGRAM_BINARY_TYPE_COMPILED_OBJECT, CL_PROGRAM_BINARY_TYPE_EXECUTABLE,
    CL_PROGRAM_BINARY_TYPE_LIBRARY, CL_PROGRAM_BINARY_TYPE_NONE,
};

verus! {

/// Bytes of the binary header: format version, payload length, binary type.
pub const BIN_HEADER_SIZE: usize = 12;
/// The one defined format version.
pub const BIN_FORMAT_VERSION: u32 = 1;

/// A persisted binary: the header, little endian, then the payload.
pub open spec fn binary_bytes(bin_type: u32, payload: Seq<u8>) -> Seq<u8> {
    le_bytes(BIN_FORMAT_VERSION as nat, 4) + le_bytes(payload.len(), 4) + le_bytes(bin_type as nat, 4)
        + payload
}

/// Serializes a compiled artifact with its binary type.
pub fn encode_binary(bin_type: u32, payload: &Vec<u8>) -> (r: Vec<u8>)
    requires
        payload@.len() <= u32::MAX,
    ensures
        r@ == binary_bytes(bin_type, payload@),
{
    let mut r: Vec<u8> = Vec::new();
    push_le(&mut r, BIN_FORMAT_VERSION as u64, 4);
    push_le(&mut r, payload.len() as u64, 4);
    push_le(&mut r, bin_type as u64, 4);
    let ghost head = r@;
    let mut i: usize = 0;
    while i < payload.len()
        invariant
            i <= payload@.len(),
            r@ == head + payload@.take(i as int),
        decreases payload@.len() - i,
    {
        r.push(payload[i]);
        i = i + 1;
        assert(r@ =~= head + payload@.take(i as int));
    }
    assert(payload@.take(payload@.len() as int) =~= payload@);
    r
}

/// The header fields a byte string claims, when it is long enough to hold
/// them.
pub open spec fn header_field(b: Seq<u8>, i: int) -> nat {
    from_le(b.subrange(4 * i, 4 * i + 4))
}

/// Whether `b` is a well-formed binary: a full header of the defined version
/// whose payload length matches the bytes after it.
pub open spec fn binary_valid(b: Seq<u8>) -> bool {
    &&& b.len() >= BIN_HEADER_SIZE
    &&& header_field(b, 0) == BIN_FORMAT_VERSION
    &&& header_field(b, 1) == b.len() - BIN_HEADER_SIZE
}

/// Reads a persisted binary back: its binary type and payload. Anything but a
/// complete binary of the defined version is refused.
pub fn decode_binary(b: &Vec<u8>) -> (r: Result<(u32, Vec<u8>), i32>)
    ensures
        r.is_ok() <==> binary_valid(b@),
        r.is_err() ==> r == Err::<(u32, Vec<u8>), i32>(CL_INVALID_BINARY),
        r.is_ok() ==> r.unwrap().0 == header_field(b@, 2) && r.unwrap().1@ == b@.skip(
            BIN_HEADER_SIZE as int,
        ),
{
    if b.len() < BIN_HEADER_SIZE {
        return Err(CL_INVALID_BINARY);
    }
    let version = read_le(b, 0, 4);
    let len = read_le(b, 4, 4);
    let bin_type = read_le(b, 8, 4);
    if version != BIN_FORMAT_VERSION as u64 || len != (b.len() - BIN_HEADER_SIZE) as u64 {
        return Err(CL_INVALID_BINARY);
    }
    proof {
        lemma_from_le_bound(b@.subrange(8, 12));
    }
    let mut payload: Vec<u8> = Vec::new();
    let mut i: usize = BIN_HEADER_SIZE;
    while i < b.len()
        invariant
            BIN_HEADER_SIZE <= i <= b@.len(),
            payload@ == b@.subrange(BIN_HEADER_SIZE as int, i as int),
        decreases b@.len() - i,
    {
        payload.push(b[i]);
        i = i + 1;
        assert(payload@ =~= b@.subrange(BIN_HEADER_SIZE as int, i as int));
    }
    assert(payload@ =~= b@.skip(BIN_HEADER_SIZE as int));
    Ok((bin_type as u32, payload))
}

/// Four little-endian bytes hold less than `2^32`.
proof fn lemma_from_le_bound(b: Seq<u8>)
    requires
        b.len() == 4,
    ensures
        from_le(b) <= u32::MAX,
{
    let b1 = b.skip(1);
    let b2 = b1.skip(1);
    let b3 = b2.skip(1);
    let b4 = b3.skip(1);
    assert(b4.len() == 0);
    assert(from_le(b3) == b3[0] as nat + 256 * from_le(b4));
    assert(from_le(b2) == b2[0] as nat + 256 * from_le(b3));
    assert(from_le(b1) == b1[0] as nat + 256 * from_le(b2));
    assert(from_le(b) == b[0] as nat + 256 * from_le(b1));
    assert(b[0] < 256 && b1[0] < 256 && b2[0] < 256 && b3[0] < 256);
}

/// Little-endian bytes read back as the number they encode.
proof fn lemma_le_round_trip(v: nat, n: nat)
    requires
        v < crate::bytes::pow256(n),
    ensures
        from_le(le_bytes(v, n)) == v,
        le_bytes(v, n).len() == n,
    decreases n,
{
    if n > 0 {
        lemma_le_round_trip(v / 256, (n - 1) as nat);
        let s = le_bytes(v, n);
        assert(s.skip(1) =~= le_bytes(v / 256, (n - 1) as nat));
    }
}

/// Decoding an encoded binary gives back its binary type and payload.
pub proof fn lemma_binary_round_trip(bin_type: u32, payload: Seq<u8>)
    requires
        payload.len() <= u32::MAX,
    ensures
        binary_valid(binary_bytes(bin_type, payload)),
        header_field(binary_bytes(bin_type, payload), 2) == bin_type,
        binary_bytes(bin_type, payload).skip(BIN_HEADER_SIZE as int) == payload,
{
    reveal_with_fuel(crate::bytes::pow256, 5);
    let b = binary_bytes(bin_type, payload);
    let v = le_bytes(BIN_FORMAT_VERSION as nat, 4);
    let l = le_bytes(payload.len(), 4);
    let t = le_bytes(bin_type as nat, 4);
    lemma_le_round_trip(BIN_FORMAT_VERSION as nat, 4);
    lemma_le_round_trip(payload.len(), 4);
    lemma_le_round_trip(bin_type as nat, 4);
    assert(b.subrange(0, 4) =~= v);
    assert(b.subrange(4, 8) =~= l);
    assert(b.subrange(8, 12) =~= t);
    assert(b.skip(12) =~= payload);
}

} // verus!

verus! {

/// What one device's build of a program produced.
pub struct ProgramDevBuild {
    /// The compiled artifact, once a build or compile succeeded.
    pub binary: Option<Vec<u8>>,
    pub status: i32,
    pub options: String,
    pub log: String,
    pub bin_type: u32,
}

/// A program: source, one build record per device, and the kernels its
/// builds export.
pub struct Program {
    pub context: u64,
    pub src: Vec<u8>,
    pub builds: Vec<ProgramDevBuild>,
    pub kernels: Vec<String>,
}

impl ProgramDevBuild {
    fn none() -> (r: ProgramDevBuild)
        ensures
            r.binary.is_none(),
            r.status == CL_BUILD_NONE,
            r.bin_type == CL_PROGRAM_BINARY_TYPE_NONE,
            r.log@.len() == 0,
            r.options@.len() == 0,
    {
        ProgramDevBuild {
            binary: None,
            status: CL_BUILD_NONE,
            options: String::new(),
            log: String::new(),
            bin_type: CL_PROGRAM_BINARY_TYPE_NONE,
        }
    }
}

impl Program {
    /// A program from source for `num_devs` devices, none of them built.
    pub fn new(context: u64, num_devs: usize, src: Vec<u8>) -> (r: Program)
        ensures
            r.context == context,
            r.src@ == src@,
            r.builds@.len() == num_devs,
            forall|i: int| 0 <= i < num_devs ==> (#[trigger] r.builds@[i]).status == CL_BUILD_NONE
                && r.builds@[i].binary.is_none() && r.builds@[i].bin_type == CL_PROGRAM_BINARY_TYPE_NONE,
            r.kernels@.len() == 0,
    {
        let mut builds: Vec<ProgramDevBuild> = Vec::new();
        let mut i: usize = 0;
        while i < num_devs
            invariant
                i <= num_devs,
                builds@.len() == i,
                forall|j: int| 0 <= j < i ==> (#[trigger] builds@[j]).status == CL_BUILD_NONE
                    && builds@[j].binary.is_none() && builds@[j].bin_type == CL_PROGRAM_BINARY_TYPE_NONE,
            decreases num_devs - i,
        {
            builds.push(ProgramDevBuild::none());
            i = i + 1;
        }
        Program { context, src, builds, kernels: Vec::new() }
    }

    /// A program from one persisted binary per device, each built. Fails if
    /// any binary is malformed.
    pub fn from_bins(context: u64, bins: &Vec<Vec<u8>>, kernels: Vec<String>) -> (r: Result<Program, i32>)
        ensures
            (exists|i: int| 0 <= i < bins@.len() && !binary_valid(#[trigger] bins@[i]@)) ==> r == Err::<Program, i32>(CL_INVALID_BINARY),
            (forall|i: int| 0 <= i < bins@.len() ==> binary_valid(#[trigger] bins@[i]@)) ==> {
                &&& r.is_ok()
                &&& r.unwrap().context == context
                &&& r.unwrap().src@.len() == 0
                &&& r.unwrap().kernels@ == kernels@
                &&& r.unwrap().builds@.len() == bins@.len()
                &&& forall|i: int| 0 <= i < bins@.len() ==> {
                    let b = #[trigger] r.unwrap().builds@[i];
                    &&& b.status == CL_BUILD_SUCCESS
                    &&& b.bin_type == header_field(bins@[i]@, 2)
                    &&& b.binary.is_some()
                    &&& b.binary.unwrap()@ == bins@[i]@.skip(BIN_HEADER_SIZE as int)
                }
            },
    {
        let mut builds: Vec<ProgramDevBuild> = Vec::new();
        let mut i: usize = 0;
        while i < bins.len()
            invariant
                i <= bins@.len(),
                builds@.len() == i,
                forall|j: int| 0 <= j < i ==> binary_valid(#[trigger] bins@[j]@),
                forall|j: int| 0 <= j < i ==> {
                    let b = #[trigger] builds@[j];
                    &&& b.status == CL_BUILD_SUCCESS
                    &&& b.bin_type == header_field(bins@[j]@, 2)
                    &&& b.binary.is_some()
                    &&& b.binary.unwrap()@ == bins@[j]@.skip(BIN_HEADER_SIZE as int)
                },
            decreases bins@.len() - i,
        {
            let (bin_type, payload) = match decode_binary(&bins[i]) {
                Ok(x) => x,
                Err(e) => return Err(e),
            };
            builds.push(ProgramDevBuild {
                binary: Some(payload),
                status: CL_BUILD_SUCCESS,
                options: String::new(),
                log: String::new(),
                bin_type,
            });
            i = i + 1;
        }
        Ok(Program { context, src: Vec::new(), builds, kernels })
    }

    /// The build status on device `dev`.
    pub fn status(&self, dev: usize) -> (r: i32)
        requires
            dev < self.builds@.len(),
        ensures
            r == self.builds@[dev as int].status,
    {
        self.builds[dev].status
    }

    /// The build log on device `dev`.
    pub fn log(&self, dev: usize) -> (r: String)
        requires
            dev < self.builds@.len(),
        ensures
            r@ == self.builds@[dev as int].log@,
    {
        self.builds[dev].log.clone()
    }

    /// The binary type on device `dev`.
    pub fn bin_type(&self, dev: usize) -> (r: u32)
        requires
            dev < self.builds@.len(),
        ensures
            r == self.builds@[dev as int].bin_type,
    {
        self.builds[dev].bin_type
    }

    /// The options of the last build on device `dev`.
    pub fn options(&self, dev: usize) -> (r: String)
        requires
            dev < self.builds@.len(),
        ensures
            r@ == self.builds@[dev as int].options@,
    {
        self.builds[dev].options.clone()
    }

    /// Per device, the size of its persisted binary, or zero without one.
    pub fn bin_sizes(&self) -> (r: Vec<usize>)
        requires
            forall|i: int| 0 <= i < self.builds@.len() ==> (#[trigger] self.builds@[i]).binary.is_some()
                ==> self.builds@[i].binary.unwrap()@.len() <= u32::MAX - BIN_HEADER_SIZE,
        ensures
            r@.len() == self.builds@.len(),
            forall|i: int| 0 <= i < r@.len() ==> (#[trigger] r@[i]) == match self.builds@[i].binary {
                Some(b) => b@.len() + BIN_HEADER_SIZE,
                None => 0,
            },
    {
        let mut r: Vec<usize> = Vec::new();
        let mut i: usize = 0;
        while i < self.builds.len()
            invariant
                i <= self.builds@.len(),
                r@.len() == i,
                forall|k: int| 0 <= k < self.builds@.len() ==> (#[trigger] self.builds@[k]).binary.is_some()
                    ==> self.builds@[k].binary.unwrap()@.len() <= u32::MAX - BIN_HEADER_SIZE,
                forall|k: int| 0 <= k < i ==> (#[trigger] r@[k]) == match self.builds@[k].binary {
                    Some(b) => b@.len() + BIN_HEADER_SIZE,
                    None => 0,
                },
            decreases self.builds@.len() - i,
        {
            let n = match &self.builds[i].binary {
                Some(b) => b.len() + BIN_HEADER_SIZE,
                None => 0,
            };
            r.push(n);
            i = i + 1;
        }
        r
    }

    /// Per device, its persisted binary, or nothing without one.
    pub fn binaries(&self) -> (r: Vec<Vec<u8>>)
        requires
            forall|i: int| 0 <= i < self.builds@.len() ==> (#[trigger] self.builds@[i]).binary.is_some()
                ==> self.builds@[i].binary.unwrap()@.len() <= u32::MAX,
        ensures
            r@.len() == self.builds@.len(),
            forall|i: int| 0 <= i < r@.len() ==> (#[trigger] r@[i])@ == match self.builds@[i].binary {
                Some(b) => binary_bytes(self.builds@[i].bin_type, b@),
                None => Seq::empty(),
            },
    {
        let mut r: Vec<Vec<u8>> = Vec::new();
        let mut i: usize = 0;
        while i < self.builds.len()
            invariant
                i <= self.builds@.len(),
                r@.len() == i,
                forall|k: int| 0 <= k < self.builds@.len() ==> (#[trigger] self.builds@[k]).binary.is_some()
                    ==> self.builds@[k].binary.unwrap()@.len() <= u32::MAX,
                forall|k: int| 0 <= k < i ==> (#[trigger] r@[k])@ == match self.builds@[k].binary {
                    Some(b) => binary_bytes(self.builds@[k].bin_type, b@),
                    None => Seq::empty(),
                },
            decreases self.builds@.len() - i,
        {
            let v = match &self.builds[i].binary {
                Some(b) => encode_binary(self.builds[i].bin_type, b),
                None => Vec::new(),
            };
            r.push(v);
            i = i + 1;
        }
        r
    }

    /// The kernels the builds export.
    pub fn kernels(&self) -> (r: &Vec<String>)
        ensures
            r@ == self.kernels@,
    {
        &self.kernels
    }
}

} // verus!

verus! {

impl Program {
    /// Records the outcome of building device `dev`'s program from source:
    /// `compiled` is the linked artifact, or nothing when compiling or
    /// linking failed; `exported` are the kernels it defines. A program
    /// without source is left as it is. Returns whether the build succeeded.
    pub fn build(
        &mut self,
        dev: usize,
        options: String,
        compiled: Option<Vec<u8>>,
        exported: Vec<String>,
        log: String,
        lib: bool,
    ) -> (r: bool)
        requires
            dev < old(self).builds@.len(),
        ensures
            final(self).context == old(self).context,
            final(self).src@ == old(self).src@,
            final(self).builds@.len() == old(self).builds@.len(),
            old(self).src@.len() == 0 ==> r && final(self).builds@ == old(self).builds@
                && final(self).kernels@ == old(self).kernels@,
            old(self).src@.len() > 0 ==> {
                let b = final(self).builds@[dev as int];
                &&& forall|i: int| 0 <= i < old(self).builds@.len() && i != dev ==> final(self).builds@[i]
                    == old(self).builds@[i]
                &&& b.log@ == log@
                &&& b.options@ == options@
                &&& r == compiled.is_some()
                &&& b.binary == compiled
                &&& compiled.is_some() ==> b.status == CL_BUILD_SUCCESS && b.bin_type == (if lib {
                    CL_PROGRAM_BINARY_TYPE_LIBRARY
                } else {
                    CL_PROGRAM_BINARY_TYPE_EXECUTABLE
                }) && final(self).kernels@ == old(self).kernels@ + exported@
                &&& compiled.is_none() ==> b.status == CL_BUILD_ERROR && b.bin_type == old(self).builds@[dev as int].bin_type
                    && final(self).kernels@ == old(self).kernels@
            },
    {
        if self.src.len() == 0 {
            return true;
        }
        let ok = compiled.is_some();
        let d = &mut self.builds[dev];
        d.log = log;
        d.options = options;
        d.binary = compiled;
        if ok {
            d.bin_type = if lib {
                CL_PROGRAM_BINARY_TYPE_LIBRARY
            } else {
                CL_PROGRAM_BINARY_TYPE_EXECUTABLE
            };
            d.status = CL_BUILD_SUCCESS;
            let mut exported = exported;
            self.kernels.append(&mut exported);
            true
        } else {
            d.status = CL_BUILD_ERROR;
            false
        }
    }

    /// Records the outcome of compiling device `dev`'s source to an object:
    /// `compiled` is the object, or nothing when compiling failed. A program
    /// without source is left as it is. Returns whether compiling succeeded.
    pub fn compile(&mut self, dev: usize, options: String, compiled: Option<Vec<u8>>, log: String) -> (r: bool)
        requires
            dev < old(self).builds@.len(),
        ensures
            final(self).context == old(self).context,
            final(self).src@ == old(self).src@,
            final(self).kernels@ == old(self).kernels@,
            final(self).builds@.len() == old(self).builds@.len(),
            old(self).src@.len() == 0 ==> r && final(self).builds@ == old(self).builds@,
            old(self).src@.len() > 0 ==> {
                let b = final(self).builds@[dev as int];
                &&& forall|i: int| 0 <= i < old(self).builds@.len() && i != dev ==> final(self).builds@[i]
                    == old(self).builds@[i]
                &&& b.log@ == log@
                &&& b.options@ == options@
                &&& r == compiled.is_some()
                &&& b.binary == compiled
                &&& compiled.is_some() ==> b.status == CL_BUILD_SUCCESS && b.bin_type
                    == CL_PROGRAM_BINARY_TYPE_COMPILED_OBJECT
                &&& compiled.is_none() ==> b.status == CL_BUILD_ERROR && b.bin_type == old(self).builds@[dev as int].bin_type
            },
    {
        if self.src.len() == 0 {
            return true;
        }
        let ok = compiled.is_some();
        let d = &mut self.builds[dev];
        d.binary = compiled;
        d.log = log;
        d.options = options;
        if ok {
            d.status = CL_BUILD_SUCCESS;
            d.bin_type = CL_PROGRAM_BINARY_TYPE_COMPILED_OBJECT;
            true
        } else {
            d.status = CL_BUILD_ERROR;
            false
        }
    }
}

} // verus!

verus! {

impl Program {
    /// A program linked from others: per device, the linked artifact or
    /// nothing when linking failed, with its log; `exported` are the kernels
    /// the linked artifacts define.
    pub fn link(context: u64, outcomes: Vec<(Option<Vec<u8>>, String)>, exported: Vec<String>, lib: bool) -> (r: Program)
        ensures
            r.context == context,
            r.src@.len() == 0,
            r.kernels@ == exported@,
            r.builds@.len() == outcomes@.len(),
            forall|i: int| 0 <= i < outcomes@.len() ==> {
                let b = #[trigger] r.builds@[i];
                &&& b.binary == outcomes@[i].0
                &&& b.log@ == outcomes@[i].1@
                &&& b.options@.len() == 0
                &&& outcomes@[i].0.is_some() ==> b.status == CL_BUILD_SUCCESS && b.bin_type == (if lib {
                    CL_PROGRAM_BINARY_TYPE_LIBRARY
                } else {
                    CL_PROGRAM_BINARY_TYPE_EXECUTABLE
                })
                &&& outcomes@[i].0.is_none() ==> b.status == CL_BUILD_ERROR && b.bin_type
                    == CL_PROGRAM_BINARY_TYPE_NONE
            },
    {
        let ghost outs = outcomes@;
        let mut rest = outcomes;
        let mut builds: Vec<ProgramDevBuild> = Vec::new();
        let n = rest.len();
        let mut i: usize = 0;
        while i < n
            invariant
                n == outs.len(),
                i <= n,
                rest@ == outs.subrange(i as int, n as int),
                builds@.len() == i,
                forall|k: int| 0 <= k < i ==> {
                    let b = #[trigger] builds@[k];
                    &&& b.binary == outs[k].0
                    &&& b.log@ == outs[k].1@
                    &&& b.options@.len() == 0
                    &&& outs[k].0.is_some() ==> b.status == CL_BUILD_SUCCESS && b.bin_type == (if lib {
                        CL_PROGRAM_BINARY_TYPE_LIBRARY
                    } else {
                        CL_PROGRAM_BINARY_TYPE_EXECUTABLE
                    })
                    &&& outs[k].0.is_none() ==> b.status == CL_BUILD_ERROR && b.bin_type
                        == CL_PROGRAM_BINARY_TYPE_NONE
                },
            decreases n - i,
        {
            let (binary, log) = rest.remove(0);
            assert(rest@ =~= outs.subrange(i + 1, n as int));
            let ok = binary.is_some();
            let (status, bin_type) = if ok {
                (CL_BUILD_SUCCESS, if lib {
                    CL_PROGRAM_BINARY_TYPE_LIBRARY
                } else {
                    CL_PROGRAM_BINARY_TYPE_EXECUTABLE
                })
            } else {
                (CL_BUILD_ERROR, CL_PROGRAM_BINARY_TYPE_NONE)
            };
            builds.push(ProgramDevBuild { binary, status, options: String::new(), log, bin_type });
            i = i + 1;
        }
        Program { context, src: Vec::new(), builds, kernels: exported }
    }
}

} // verus!
