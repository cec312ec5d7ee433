//! Kernels: argument metadata, argument values, and the launch payload.
use vstd::prelude::*;
use crate::bytes::{from_le, le_bytes, push_le, read_le};
use crate::cl::{
    CL_INVALID_ARG_INDEX, CL_INVALID_ARG_SIZE, CL_INVALID_ARG_VALUE, CL_INVALID_MEM_OBJECT,
    CL_KERNEL_ARG_ACCESS_NONE, CL_KERNEL_ARG_ACCESS_READ_ONLY, CL_KERNEL_ARG_ACCESS_READ_WRITE,
    CL_KERNEL_ARG_ACCESS_WRITE_ONLY, CL_KERNEL_ARG_ADDRESS_CONSTANT, CL_KERNEL_ARG_ADDRESS_GLOBAL,
    CL_KERNEL_ARG_ADDRESS_LOCAL, CL_KERNEL_ARG_ADDRESS_PRIVATE, CL_KERNEL_ARG_TYPE_CONST,
    CL_KERNEL_ARG_TYPE_NONE, CL_KERNEL_ARG_TYPE_RESTRICT, CL_KERNEL_ARG_TYPE_VOLATILE,
};
use crate::memory::MemStore;

verus! {

/// How an argument is passed.
#[derive(Clone, Copy, PartialEq, Eq, Structural)]
pub enum KernelArgType {
    /// Anything passed by value.
    Constant,
    Sampler,
    MemGlobal,
    MemConstant,
    MemLocal,
}

/// Arguments the runtime adds after the user's.
#[derive(Clone, Copy, PartialEq, Eq, Structural)]
pub enum InternalKernelArgType {
    ConstantBuffer,
    GlobalWorkOffsets,
    PrintfBuffer,
}

/// The address space a parameter is declared in.
#[derive(Clone, Copy, PartialEq, Eq, Structural)]
pub enum AddressQualifier {
    Private,
    Constant,
    Local,
    Global,
}

/// Access qualifier bit of the compiler's parameter record: read.
pub const ACCESS_READ: u32 = 1;
/// Access qualifier bit of the compiler's parameter record: write.
pub const ACCESS_WRITE: u32 = 2;
/// Type qualifier bits of the compiler's parameter record.
pub const TYPE_CONST: u32 = 1;
pub const TYPE_RESTRICT: u32 = 2;
pub const TYPE_VOLATILE: u32 = 4;

/// A parameter as the compiler declares it.
pub struct SPIRVKernelArg {
    pub name: String,
    pub declared_type: String,
    pub access_qualifier: u32,
    pub address_qualifier: AddressQualifier,
    pub type_qualifier: u32,
}

/// What the compiler reports of a parameter's type.
#[derive(Clone, Copy)]
pub struct ArgTypeInfo {
    pub is_sampler: bool,
    pub cl_size: usize,
}

/// A user argument: its declaration, kind, byte size, resolved offset, and
/// whether optimization removed it.
pub struct KernelArg {
    pub spirv: SPIRVKernelArg,
    pub kind: KernelArgType,
    pub size: usize,
    pub offset: usize,
    pub dead: bool,
}

/// An argument the runtime adds, with its size and resolved offset.
#[derive(Clone, Copy, PartialEq, Eq, Structural)]
pub struct InternalKernelArg {
    pub kind: InternalKernelArgType,
    pub size: usize,
    pub offset: usize,
}

/// A value bound to an argument.
pub enum KernelArgValue {
    Empty,
    Constant(Vec<u8>),
    /// A memory object, by handle.
    MemObject(usize),
    /// A sampler, by handle.
    Sampler(usize),
    /// A local allocation of this many bytes.
    LocalMem(usize),
}

/// The argument kind a declaration gives.
pub open spec fn kind_for(q: AddressQualifier, is_sampler: bool) -> KernelArgType {
    match q {
        AddressQualifier::Private => if is_sampler {
            KernelArgType::Sampler
        } else {
            KernelArgType::Constant
        },
        AddressQualifier::Constant => KernelArgType::MemConstant,
        AddressQualifier::Local => KernelArgType::MemLocal,
        AddressQualifier::Global => KernelArgType::MemGlobal,
    }
}

impl KernelArg {
    /// First pass: one argument per declared parameter, its kind from the
    /// address space and type, its size from the type; all start dead at
    /// offset zero until the second pass finds them.
    pub fn from_spirv_nir(spirv: Vec<SPIRVKernelArg>, types: &Vec<ArgTypeInfo>) -> (r: Vec<KernelArg>)
        requires
            types@.len() >= spirv@.len(),
        ensures
            r@.len() == spirv@.len(),
            forall|i: int|
                0 <= i < r@.len() ==> {
                    &&& #[trigger] r@[i].spirv == spirv@[i]
                    &&& r@[i].kind == kind_for(spirv@[i].address_qualifier, types@[i].is_sampler)
                    &&& r@[i].size == types@[i].cl_size
                    &&& r@[i].offset == 0
                    &&& r@[i].dead
                },
    {
        let ghost orig = spirv@;
        let mut rest = spirv;
        let mut res: Vec<KernelArg> = Vec::new();
        let n = rest.len();
        let mut i: usize = 0;
        while i < n
            invariant
                n == orig.len(),
                i <= n,
                types@.len() >= n,
                rest@ == orig.subrange(i as int, n as int),
                res@.len() == i,
                forall|k: int|
                    0 <= k < i ==> {
                        &&& #[trigger] res@[k].spirv == orig[k]
                        &&& res@[k].kind == kind_for(orig[k].address_qualifier, types@[k].is_sampler)
                        &&& res@[k].size == types@[k].cl_size
                        &&& res@[k].offset == 0
                        &&& res@[k].dead
                    },
            decreases n - i,
        {
            let s = rest.remove(0);
            assert(rest@ =~= orig.subrange(i + 1, n as int));
            let t = types[i];
            let kind = match s.address_qualifier {
                AddressQualifier::Private => if t.is_sampler {
                    KernelArgType::Sampler
                } else {
                    KernelArgType::Constant
                },
                AddressQualifier::Constant => KernelArgType::MemConstant,
                AddressQualifier::Local => KernelArgType::MemLocal,
                AddressQualifier::Global => KernelArgType::MemGlobal,
            };
            res.push(KernelArg { spirv: s, kind, size: t.cl_size, offset: 0, dead: true });
            i = i + 1;
        }
        res
    }
}

/// The runtime's arguments, in their fixed order: global work offsets, then
/// the constant buffer if the kernel has constants, then the printf buffer if
/// it prints. Offsets start at zero until the second pass resolves them.
pub fn internal_args_for(has_constant: bool, has_printf: bool) -> (r: Vec<InternalKernelArg>)
    ensures
        r@ == seq![InternalKernelArg { kind: InternalKernelArgType::GlobalWorkOffsets, size: 24, offset: 0 }]
            + (if has_constant {
            seq![InternalKernelArg { kind: InternalKernelArgType::ConstantBuffer, size: 8, offset: 0 }]
        } else {
            Seq::empty()
        }) + (if has_printf {
            seq![InternalKernelArg { kind: InternalKernelArgType::PrintfBuffer, size: 8, offset: 0 }]
        } else {
            Seq::empty()
        }),
{
    let mut r: Vec<InternalKernelArg> = Vec::new();
    r.push(InternalKernelArg { kind: InternalKernelArgType::GlobalWorkOffsets, size: 24, offset: 0 });
    if has_constant {
        r.push(InternalKernelArg { kind: InternalKernelArgType::ConstantBuffer, size: 8, offset: 0 });
    }
    if has_printf {
        r.push(InternalKernelArg { kind: InternalKernelArgType::PrintfBuffer, size: 8, offset: 0 });
    }
    assert(r@ =~= seq![InternalKernelArg { kind: InternalKernelArgType::GlobalWorkOffsets, size: 24, offset: 0 }]
            + (if has_constant {
            seq![InternalKernelArg { kind: InternalKernelArgType::ConstantBuffer, size: 8, offset: 0 }]
        } else {
            Seq::empty()
        }) + (if has_printf {
            seq![InternalKernelArg { kind: InternalKernelArgType::PrintfBuffer, size: 8, offset: 0 }]
        } else {
            Seq::empty()
        }));
    r
}

} // verus!

verus! {

/// The driver location the last surviving variable at `loc` reports, if any.
pub open spec fn last_location(vars: Seq<(usize, usize)>, loc: int) -> Option<usize>
    decreases vars.len(),
{
    if vars.len() == 0 {
        None
    } else if vars.last().0 == loc {
        Some(vars.last().1)
    } else {
        last_location(vars.drop_last(), loc)
    }
}

/// `new` is `old` with the offset and liveness that `vars` give.
pub open spec fn user_args_located(old: Seq<KernelArg>, new: Seq<KernelArg>, vars: Seq<(usize, usize)>) -> bool {
    &&& new.len() == old.len()
    &&& forall|i: int|
        0 <= i < old.len() ==> {
            &&& (#[trigger] new[i]).spirv == old[i].spirv
            &&& new[i].kind == old[i].kind
            &&& new[i].size == old[i].size
            &&& new[i].offset == (match last_location(vars, i) {
                Some(d) => d,
                None => old[i].offset,
            })
            &&& new[i].dead == (old[i].dead && last_location(vars, i).is_none())
        }
}

/// `new` is `old` with the offsets `vars` give to locations past `base`.
pub open spec fn internal_args_located(
    old: Seq<InternalKernelArg>,
    new: Seq<InternalKernelArg>,
    vars: Seq<(usize, usize)>,
    base: int,
) -> bool {
    &&& new.len() == old.len()
    &&& forall|i: int|
        0 <= i < old.len() ==> {
            &&& (#[trigger] new[i]).kind == old[i].kind
            &&& new[i].size == old[i].size
            &&& new[i].offset == (match last_location(vars, base + i) {
                Some(d) => d,
                None => old[i].offset,
            })
        }
}

impl KernelArg {
    /// Second pass: each variable that survived optimization, given as its
    /// declared location and its driver location, marks the user argument at
    /// that location live at that offset, or sets the offset of the internal
    /// argument that follows the user arguments. Locations past both are
    /// ignored.
    pub fn assign_locations(
        args: &mut Vec<KernelArg>,
        internal_args: &mut Vec<InternalKernelArg>,
        vars: &Vec<(usize, usize)>,
    )
        ensures
            user_args_located(old(args)@, final(args)@, vars@),
            internal_args_located(
                old(internal_args)@,
                final(internal_args)@,
                vars@,
                old(args)@.len() as int,
            ),
    {
        let ghost a0 = args@;
        let ghost i0 = internal_args@;
        let n = args.len();
        let m = internal_args.len();
        let mut k: usize = 0;
        while k < vars.len()
            invariant
                k <= vars@.len(),
                n == a0.len(),
                m == i0.len(),
                user_args_located(a0, args@, vars@.take(k as int)),
                internal_args_located(i0, internal_args@, vars@.take(k as int), n as int),
            decreases vars@.len() - k,
        {
            let (loc, driver) = vars[k];
            proof {
                assert(vars@.take(k + 1).drop_last() =~= vars@.take(k as int));
                assert(vars@.take(k + 1).last() == vars@[k as int]);
            }
            if loc < n {
                let a = &mut args[loc];
                a.offset = driver;
                a.dead = false;
            } else if loc - n < m {
                let ia = &mut internal_args[loc - n];
                ia.offset = driver;
            }
            k = k + 1;
            proof {
                let vk = vars@.take(k as int);
                assert forall|i: int| 0 <= i < n implies last_location(vk, i) == (if i == loc {
                    Some(driver)
                } else {
                    last_location(vars@.take(k - 1), i)
                }) by {}
                assert forall|i: int| 0 <= i < m implies #[trigger] last_location(vk, n + i) == (if n + i == loc {
                    Some(driver)
                } else {
                    last_location(vars@.take(k - 1), n + i)
                }) by {}
            }
        }
        assert(vars@.take(vars@.len() as int) =~= vars@);
    }
}

/// A kernel: its name, user arguments with one value cell each, the
/// runtime's arguments, and the work-group size the source fixes (zeros when
/// it fixes none).
pub struct Kernel {
    pub context: u64,
    pub name: String,
    pub args: Vec<KernelArg>,
    pub values: Vec<Option<KernelArgValue>>,
    pub work_group_size: [usize; 3],
    pub internal_args: Vec<InternalKernelArg>,
}

impl Kernel {
    /// One value cell per argument.
    pub open spec fn wf(&self) -> bool {
        self.values@.len() == self.args@.len()
    }

    /// A kernel whose arguments hold no values yet.
    pub fn new(
        context: u64,
        name: String,
        args: Vec<KernelArg>,
        internal_args: Vec<InternalKernelArg>,
        work_group_size: [usize; 3],
    ) -> (r: Kernel)
        ensures
            r.wf(),
            r.context == context,
            r.name@ == name@,
            r.args@ == args@,
            r.internal_args@ == internal_args@,
            r.work_group_size@ == work_group_size@,
            forall|i: int| 0 <= i < r.values@.len() ==> (#[trigger] r.values@[i]).is_none(),
    {
        let mut values: Vec<Option<KernelArgValue>> = Vec::new();
        let mut i: usize = 0;
        while i < args.len()
            invariant
                i <= args@.len(),
                values@.len() == i,
                forall|k: int| 0 <= k < i ==> (#[trigger] values@[k]).is_none(),
            decreases args@.len() - i,
        {
            values.push(None);
            i = i + 1;
        }
        Kernel { context, name, args, values, work_group_size, internal_args }
    }

    /// The API access qualifier of argument `idx`.
    pub fn access_qualifier(&self, idx: usize) -> (r: u32)
        requires
            idx < self.args@.len(),
        ensures
            ({
                let aq = self.args@[idx as int].spirv.access_qualifier;
                r == if aq == ACCESS_READ | ACCESS_WRITE {
                    CL_KERNEL_ARG_ACCESS_READ_WRITE
                } else if aq == ACCESS_READ {
                    CL_KERNEL_ARG_ACCESS_READ_ONLY
                } else if aq == ACCESS_WRITE {
                    CL_KERNEL_ARG_ACCESS_WRITE_ONLY
                } else {
                    CL_KERNEL_ARG_ACCESS_NONE
                }
            }),
    {
        let aq = self.args[idx].spirv.access_qualifier;
        if aq == ACCESS_READ | ACCESS_WRITE {
            CL_KERNEL_ARG_ACCESS_READ_WRITE
        } else if aq == ACCESS_READ {
            CL_KERNEL_ARG_ACCESS_READ_ONLY
        } else if aq == ACCESS_WRITE {
            CL_KERNEL_ARG_ACCESS_WRITE_ONLY
        } else {
            CL_KERNEL_ARG_ACCESS_NONE
        }
    }

    /// The API address qualifier of argument `idx`.
    pub fn address_qualifier(&self, idx: usize) -> (r: u32)
        requires
            idx < self.args@.len(),
        ensures
            r == match self.args@[idx as int].spirv.address_qualifier {
                AddressQualifier::Private => CL_KERNEL_ARG_ADDRESS_PRIVATE,
                AddressQualifier::Constant => CL_KERNEL_ARG_ADDRESS_CONSTANT,
                AddressQualifier::Local => CL_KERNEL_ARG_ADDRESS_LOCAL,
                AddressQualifier::Global => CL_KERNEL_ARG_ADDRESS_GLOBAL,
            },
    {
        match self.args[idx].spirv.address_qualifier {
            AddressQualifier::Private => CL_KERNEL_ARG_ADDRESS_PRIVATE,
            AddressQualifier::Constant => CL_KERNEL_ARG_ADDRESS_CONSTANT,
            AddressQualifier::Local => CL_KERNEL_ARG_ADDRESS_LOCAL,
            AddressQualifier::Global => CL_KERNEL_ARG_ADDRESS_GLOBAL,
        }
    }

    /// The API type qualifier bits of argument `idx`.
    pub fn type_qualifier(&self, idx: usize) -> (r: u64)
        requires
            idx < self.args@.len(),
        ensures
            ({
                let tq = self.args@[idx as int].spirv.type_qualifier;
                r == (if tq & TYPE_CONST != 0 { CL_KERNEL_ARG_TYPE_CONST } else { 0 }) | (if tq
                    & TYPE_RESTRICT != 0 {
                    CL_KERNEL_ARG_TYPE_RESTRICT
                } else {
                    0
                }) | (if tq & TYPE_VOLATILE != 0 {
                    CL_KERNEL_ARG_TYPE_VOLATILE
                } else {
                    0
                })
            }),
    {
        let tq = self.args[idx].spirv.type_qualifier;
        let c = if tq & TYPE_CONST != 0 {
            CL_KERNEL_ARG_TYPE_CONST
        } else {
            CL_KERNEL_ARG_TYPE_NONE
        };
        let r = if tq & TYPE_RESTRICT != 0 {
            CL_KERNEL_ARG_TYPE_RESTRICT
        } else {
            CL_KERNEL_ARG_TYPE_NONE
        };
        let v = if tq & TYPE_VOLATILE != 0 {
            CL_KERNEL_ARG_TYPE_VOLATILE
        } else {
            CL_KERNEL_ARG_TYPE_NONE
        };
        c | r | v
    }

    /// The declared name of argument `idx`.
    pub fn arg_name(&self, idx: usize) -> (r: &String)
        requires
            idx < self.args@.len(),
        ensures
            r@ == self.args@[idx as int].spirv.name@,
    {
        &self.args[idx].spirv.name
    }

    /// The declared type name of argument `idx`.
    pub fn arg_type_name(&self, idx: usize) -> (r: &String)
        requires
            idx < self.args@.len(),
        ensures
            r@ == self.args@[idx as int].spirv.declared_type@,
    {
        &self.args[idx].spirv.declared_type
    }
}

} // verus!

verus! {

/// The error `set_kernel_arg` reports, if any, in the order the checks run.
/// Handles are stored as little-endian numbers, one more than the index, with
/// zero for none.
pub open spec fn set_arg_error(
    args: Seq<KernelArg>,
    index: int,
    size: usize,
    value: Option<Seq<u8>>,
    n_mems: int,
) -> Option<i32> {
    if index >= args.len() {
        Some(CL_INVALID_ARG_INDEX)
    } else {
        let arg = args[index];
        let handle_kind = arg.kind == KernelArgType::MemGlobal || arg.kind
            == KernelArgType::MemConstant || arg.kind == KernelArgType::Sampler;
        if (arg.kind == KernelArgType::MemLocal && size == 0) || (arg.kind
            != KernelArgType::MemLocal && arg.size != size) {
            Some(CL_INVALID_ARG_SIZE)
        } else if (arg.kind == KernelArgType::MemLocal && value.is_some()) || ((arg.kind
            == KernelArgType::Constant || arg.kind == KernelArgType::Sampler) && value.is_none()) {
            Some(CL_INVALID_ARG_VALUE)
        } else if value.is_some() && (value.unwrap().len() != size || (handle_kind && !arg.dead
            && value.unwrap().len() > 8)) {
            Some(CL_INVALID_ARG_VALUE)
        } else if !arg.dead && (arg.kind == KernelArgType::MemGlobal || arg.kind
            == KernelArgType::MemConstant) && value.is_some() && from_le(value.unwrap()) != 0
            && from_le(value.unwrap()) > n_mems {
            Some(CL_INVALID_MEM_OBJECT)
        } else {
            None
        }
    }
}

/// Whether `v` is what `set_kernel_arg` stores for `arg` given `size` and
/// `value`: nothing for a dead argument, else the bytes, the memory object
/// (none for a null handle), the local size or the sampler.
pub open spec fn stored_value(v: KernelArgValue, arg: KernelArg, size: usize, value: Option<Seq<u8>>) -> bool {
    if arg.dead {
        v is Empty
    } else {
        match arg.kind {
            KernelArgType::Constant => v is Constant && v->Constant_0@ == value.unwrap(),
            KernelArgType::MemGlobal | KernelArgType::MemConstant => if value.is_none() || from_le(
                value.unwrap(),
            ) == 0 {
                v is Empty
            } else {
                v == KernelArgValue::MemObject((from_le(value.unwrap()) - 1) as usize)
            },
            KernelArgType::MemLocal => v == KernelArgValue::LocalMem(size),
            KernelArgType::Sampler => v == KernelArgValue::Sampler(from_le(value.unwrap()) as usize),
        }
    }
}

/// Binds a value to argument `arg_index` of kernel `k`. `arg_value` holds the
/// argument's bytes (a handle for memory objects and samplers), or nothing.
pub fn set_kernel_arg(
    k: &mut Kernel,
    arg_index: u32,
    arg_size: usize,
    arg_value: Option<&Vec<u8>>,
    mems: &MemStore,
) -> (r: Result<(), i32>)
    requires
        old(k).wf(),
    ensures
        final(k).wf(),
        final(k).args@ == old(k).args@,
        final(k).context == old(k).context,
        final(k).name@ == old(k).name@,
        final(k).internal_args@ == old(k).internal_args@,
        final(k).work_group_size@ == old(k).work_group_size@,
        ({
            let value = match arg_value {
                Some(v) => Some(v@),
                None => None,
            };
            match set_arg_error(old(k).args@, arg_index as int, arg_size, value, mems@.len() as int) {
                Some(e) => r == Err::<(), i32>(e) && final(k).values@ == old(k).values@,
                None => {
                    &&& r.is_ok()
                    &&& final(k).values@.len() == old(k).values@.len()
                    &&& forall|i: int|
                        0 <= i < old(k).values@.len() && i != arg_index ==> final(k).values@[i]
                            == old(k).values@[i]
                    &&& final(k).values@[arg_index as int].is_some()
                    &&& stored_value(
                        final(k).values@[arg_index as int].unwrap(),
                        old(k).args@[arg_index as int],
                        arg_size,
                        value,
                    )
                },
            }
        }),
{
    let idx = arg_index as usize;
    if idx >= k.args.len() {
        return Err(CL_INVALID_ARG_INDEX);
    }
    let kind = k.args[idx].kind;
    let dead = k.args[idx].dead;
    if kind == KernelArgType::MemLocal {
        if arg_size == 0 {
            return Err(CL_INVALID_ARG_SIZE);
        }
    } else if k.args[idx].size != arg_size {
        return Err(CL_INVALID_ARG_SIZE);
    }
    match kind {
        KernelArgType::MemLocal => {
            if arg_value.is_some() {
                return Err(CL_INVALID_ARG_VALUE);
            }
        },
        KernelArgType::Constant | KernelArgType::Sampler => {
            if arg_value.is_none() {
                return Err(CL_INVALID_ARG_VALUE);
            }
        },
        _ => {},
    }
    let handle_kind = kind == KernelArgType::MemGlobal || kind == KernelArgType::MemConstant
        || kind == KernelArgType::Sampler;
    let handle: u64 = match arg_value {
        Some(v) => {
            if v.len() != arg_size || (handle_kind && !dead && v.len() > 8) {
                return Err(CL_INVALID_ARG_VALUE);
            }
            if handle_kind && !dead {
                read_le(v, 0, v.len())
            } else {
                0
            }
        },
        None => 0,
    };
    proof {
        if arg_value.is_some() && handle_kind && !dead {
            assert(arg_value.unwrap()@.subrange(0, arg_value.unwrap()@.len() as int) =~= arg_value.unwrap()@);
        }
    }
    let value = if dead {
        KernelArgValue::Empty
    } else {
        match kind {
            KernelArgType::Constant => {
                let mut bytes: Vec<u8> = Vec::new();
                match arg_value {
                    Some(v) => {
                        let mut i: usize = 0;
                        while i < v.len()
                            invariant
                                i <= v@.len(),
                                bytes@ == v@.take(i as int),
                            decreases v@.len() - i,
                        {
                            bytes.push(v[i]);
                            i = i + 1;
                            assert(bytes@ =~= v@.take(i as int));
                        }
                        assert(bytes@ =~= v@);
                    },
                    None => {},
                }
                KernelArgValue::Constant(bytes)
            },
            KernelArgType::MemGlobal | KernelArgType::MemConstant => {
                if handle == 0 {
                    KernelArgValue::Empty
                } else {
                    if handle - 1 >= mems.len() as u64 {
                        return Err(CL_INVALID_MEM_OBJECT);
                    }
                    KernelArgValue::MemObject((handle - 1) as usize)
                }
            },
            KernelArgType::MemLocal => KernelArgValue::LocalMem(arg_size),
            KernelArgType::Sampler => KernelArgValue::Sampler(handle as usize),
        }
    };
    k.values.set(idx, Some(value));
    Ok(())
}

} // verus!

verus! {

/// Entry `i` of a work-size array given for fewer than three dimensions, `dflt`
/// past its end.
pub open spec fn arr_entry(vals: Seq<usize>, i: int, dflt: int) -> int {
    if i < vals.len() {
        vals[i] as int
    } else {
        dflt
    }
}

/// A work-size array widened to three dimensions with `val`; `None` when an
/// entry exceeds `max`.
pub fn create_kernel_arr(vals: &Vec<usize>, val: u64, max: u64) -> (r: Option<[u64; 3]>)
    requires
        vals@.len() <= 3,
        val <= max,
    ensures
        r.is_some() <==> forall|i: int| 0 <= i < vals@.len() ==> vals@[i] <= max,
        r.is_some() ==> forall|i: int| 0 <= i < 3 ==> r.unwrap()@[i] == arr_entry(vals@, i, val as int),
{
    let mut res: [u64; 3] = [val, val, val];
    let mut i: usize = 0;
    while i < vals.len()
        invariant
            i <= vals@.len(),
            vals@.len() <= 3,
            forall|k: int| 0 <= k < i ==> vals@[k] <= max,
            forall|k: int| 0 <= k < 3 ==> res@[k] == (if k < i { vals@[k] as int } else { val as int }),
        decreases vals@.len() - i,
    {
        if vals[i] as u64 > max {
            return None;
        }
        res[i] = vals[i] as u64;
        i = i + 1;
    }
    Some(res)
}

/// The work-group size in dimension `i`: the given one, or, where zero is
/// given, the device's largest block when it divides the first grid
/// dimension, else one.
pub open spec fn resolved_block(block: Seq<usize>, grid: Seq<usize>, threads: int, i: int) -> int {
    let b = arr_entry(block, i, 1);
    let g = arr_entry(grid, i, 1);
    if b == 0 {
        if i == 0 && g % threads == 0 {
            threads
        } else {
            1
        }
    } else {
        b
    }
}

/// The number of work-groups in dimension `i`.
pub open spec fn resolved_grid(block: Seq<usize>, grid: Seq<usize>, threads: int, i: int) -> int {
    let b = arr_entry(block, i, 1);
    let g = arr_entry(grid, i, 1);
    if b == 0 {
        if i == 0 && g % threads == 0 {
            g / threads
        } else {
            g
        }
    } else {
        g / b
    }
}

/// Resolves work-group sizes and counts from the requested block and global
/// sizes; `None` when a size does not fit in 32 bits.
pub fn resolve_work_sizes(threads: u32, block: &Vec<usize>, grid: &Vec<usize>) -> (r: Option<([u32; 3], [u32; 3])>)
    requires
        threads >= 1,
        block@.len() <= 3,
        grid@.len() <= 3,
    ensures
        r.is_some() <==> (forall|i: int| 0 <= i < block@.len() ==> block@[i] <= u32::MAX) && (forall|i: int|
            0 <= i < grid@.len() ==> grid@[i] <= u32::MAX),
        r.is_some() ==> forall|i: int|
            0 <= i < 3 ==> r.unwrap().0@[i] == resolved_block(block@, grid@, threads as int, i)
                && r.unwrap().1@[i] == resolved_grid(block@, grid@, threads as int, i),
{
    let b = match create_kernel_arr(block, 1, 0xffff_ffff) {
        Some(b) => b,
        None => return None,
    };
    let g = match create_kernel_arr(grid, 1, 0xffff_ffff) {
        Some(g) => g,
        None => return None,
    };
    let mut rb: [u32; 3] = [1, 1, 1];
    let mut rg: [u32; 3] = [1, 1, 1];
    let mut i: usize = 0;
    while i < 3
        invariant
            i <= 3,
            threads >= 1,
            forall|k: int| 0 <= k < 3 ==> b@[k] == arr_entry(block@, k, 1) && b@[k] <= u32::MAX,
            forall|k: int| 0 <= k < 3 ==> g@[k] == arr_entry(grid@, k, 1) && g@[k] <= u32::MAX,
            forall|k: int|
                0 <= k < i ==> rb@[k] == resolved_block(block@, grid@, threads as int, k)
                    && rg@[k] == resolved_grid(block@, grid@, threads as int, k),
        decreases 3 - i,
    {
        let bi = b[i] as u32;
        let gi = g[i] as u32;
        if bi == 0 {
            if i == 0 && gi % threads == 0 {
                rb[i] = threads;
                rg[i] = gi / threads;
            } else {
                rb[i] = 1;
                rg[i] = gi;
            }
        } else {
            rb[i] = bi;
            rg[i] = gi / bi;
        }
        i = i + 1;
    }
    Some((rb, rg))
}

/// The payload a printf buffer carries: its first four bytes give, little
/// endian, the length written including themselves; the payload is the bytes
/// after them up to that length. An unused buffer gives nothing.
pub open spec fn printf_payload_of(buf: Seq<u8>) -> Seq<u8> {
    if buf.len() < 4 {
        Seq::empty()
    } else {
        let length = from_le(buf.subrange(0, 4));
        if length <= 4 {
            Seq::empty()
        } else if length > buf.len() {
            buf.subrange(4, buf.len() as int)
        } else {
            buf.subrange(4, length as int)
        }
    }
}

/// Extracts the printf payload from a read-back printf buffer.
pub fn printf_payload(buf: &Vec<u8>) -> (r: Vec<u8>)
    ensures
        r@ == printf_payload_of(buf@),
{
    let mut r: Vec<u8> = Vec::new();
    if buf.len() < 4 {
        return r;
    }
    let length = read_le(buf, 0, 4);
    if length <= 4 {
        return r;
    }
    let end: usize = if length > buf.len() as u64 {
        buf.len()
    } else {
        length as usize
    };
    let mut i: usize = 4;
    while i < end
        invariant
            4 <= i <= end,
            end <= buf@.len(),
            r@ == buf@.subrange(4, i as int),
        decreases end - i,
    {
        r.push(buf[i]);
        i = i + 1;
        assert(r@ =~= buf@.subrange(4, i as int));
    }
    r
}

} // verus!

verus! {

/// What a resource binding points at.
#[derive(Clone, Copy, PartialEq, Eq, Structural)]
pub enum Binding {
    /// The root memory object with this handle.
    Mem(usize),
    ConstantBuffer,
    PrintfBuffer,
}

/// `n` zero bytes.
pub open spec fn zeros(n: nat) -> Seq<u8> {
    Seq::new(n, |i: int| 0u8)
}

/// `s` padded with zeros to length `n`.
pub open spec fn pad_to(s: Seq<u8>, n: int) -> Seq<u8> {
    s + zeros((n - s.len()) as nat)
}

/// The bytes a user argument's value contributes: the value's bytes, a memory
/// object's offset in its root, or an eight-byte slot.
pub open spec fn value_payload(v: KernelArgValue, mems: Seq<crate::memory::Mem>) -> Seq<u8> {
    match v {
        KernelArgValue::Constant(c) => c@,
        KernelArgValue::MemObject(h) => le_bytes(mems[h as int].offset as nat, 8),
        _ => zeros(8),
    }
}

/// Input bytes, resource bindings and local memory size after the first `n`
/// user arguments: dead ones are skipped; a live one pads the input to its
/// offset and appends its payload, a memory object records a binding of its
/// root at that offset, a local allocation adds its size.
pub open spec fn user_layout(
    args: Seq<KernelArg>,
    values: Seq<Option<KernelArgValue>>,
    mems: Seq<crate::memory::Mem>,
    shared: int,
    n: nat,
) -> (Seq<u8>, Seq<(Binding, usize)>, int)
    decreases n,
{
    if n == 0 {
        (Seq::empty(), Seq::empty(), shared)
    } else {
        let prev = user_layout(args, values, mems, shared, (n - 1) as nat);
        let a = args[n - 1];
        if a.dead {
            prev
        } else {
            let v = values[n - 1].unwrap();
            let input = pad_to(prev.0, a.offset as int) + value_payload(v, mems);
            let bindings = match v {
                KernelArgValue::MemObject(h) => prev.1.push(
                    (Binding::Mem(mems[h as int].root_of(h as int) as usize), a.offset),
                ),
                _ => prev.1,
            };
            let local = match v {
                KernelArgValue::LocalMem(s) => prev.2 + s,
                _ => prev.2,
            };
            (input, bindings, local)
        }
    }
}

/// Whether the first `n` user arguments can be laid out: every live one has a
/// value other than a sampler, memory handles name objects, no offset lies
/// behind the bytes already placed, and local memory fits in 32 bits.
pub open spec fn user_layout_ok(
    args: Seq<KernelArg>,
    values: Seq<Option<KernelArgValue>>,
    mems: Seq<crate::memory::Mem>,
    shared: int,
    n: nat,
) -> bool
    decreases n,
{
    n == 0 || {
        &&& user_layout_ok(args, values, mems, shared, (n - 1) as nat)
        &&& ({
            let a = args[n - 1];
            let v = values[n - 1];
            a.dead || {
                &&& v.is_some()
                &&& !(v.unwrap() is Sampler)
                &&& (v.unwrap() is MemObject ==> (v.unwrap()->MemObject_0 as int) < mems.len())
                &&& a.offset >= user_layout(args, values, mems, shared, (n - 1) as nat).0.len()
                &&& user_layout(args, values, mems, shared, n).2 <= u32::MAX
            }
        })
    }
}

/// The bytes an internal argument contributes: the three global offsets as
/// 64-bit numbers, or an eight-byte slot for a buffer address.
pub open spec fn internal_payload(kind: InternalKernelArgType, offsets: Seq<u64>) -> Seq<u8> {
    match kind {
        InternalKernelArgType::GlobalWorkOffsets => le_bytes(offsets[0] as nat, 8) + le_bytes(
            offsets[1] as nat,
            8,
        ) + le_bytes(offsets[2] as nat, 8),
        _ => zeros(8),
    }
}

/// Input bytes and bindings after the first `n` internal arguments, starting
/// from `input` and `bindings`.
pub open spec fn internal_layout(
    input: Seq<u8>,
    bindings: Seq<(Binding, usize)>,
    internal: Seq<InternalKernelArg>,
    offsets: Seq<u64>,
    n: nat,
) -> (Seq<u8>, Seq<(Binding, usize)>)
    decreases n,
{
    if n == 0 {
        (input, bindings)
    } else {
        let prev = internal_layout(input, bindings, internal, offsets, (n - 1) as nat);
        let a = internal[n - 1];
        let inp = pad_to(prev.0, a.offset as int) + internal_payload(a.kind, offsets);
        let b = match a.kind {
            InternalKernelArgType::ConstantBuffer => prev.1.push((Binding::ConstantBuffer, a.offset)),
            InternalKernelArgType::PrintfBuffer => prev.1.push((Binding::PrintfBuffer, a.offset)),
            InternalKernelArgType::GlobalWorkOffsets => prev.1,
        };
        (inp, b)
    }
}

/// Whether no internal argument's offset lies behind the bytes before it.
pub open spec fn internal_layout_ok(
    input: Seq<u8>,
    bindings: Seq<(Binding, usize)>,
    internal: Seq<InternalKernelArg>,
    offsets: Seq<u64>,
    n: nat,
) -> bool
    decreases n,
{
    n == 0 || (internal_layout_ok(input, bindings, internal, offsets, (n - 1) as nat)
        && internal[n - 1].offset >= internal_layout(
        input,
        bindings,
        internal,
        offsets,
        (n - 1) as nat,
    ).0.len())
}

fn pad(input: &mut Vec<u8>, n: usize)
    requires
        old(input)@.len() <= n,
    ensures
        final(input)@ == pad_to(old(input)@, n as int),
{
    let ghost start = input@;
    while input.len() < n
        invariant
            start.len() <= input@.len() <= n,
            input@ == start + zeros((input@.len() - start.len()) as nat),
        decreases n - input@.len(),
    {
        input.push(0);
        assert(input@ =~= start + zeros((input@.len() - start.len()) as nat));
    }
}

fn push_zeros(input: &mut Vec<u8>, n: usize)
    ensures
        final(input)@ == old(input)@ + zeros(n as nat),
{
    let ghost start = input@;
    let mut i: usize = 0;
    while i < n
        invariant
            i <= n,
            input@ == start + zeros(i as nat),
        decreases n - i,
    {
        input.push(0);
        i = i + 1;
        assert(input@ =~= start + zeros(i as nat));
    }
}

fn append_bytes(input: &mut Vec<u8>, c: &Vec<u8>)
    ensures
        final(input)@ == old(input)@ + c@,
{
    let ghost start = input@;
    let mut i: usize = 0;
    while i < c.len()
        invariant
            i <= c@.len(),
            input@ == start + c@.take(i as int),
        decreases c@.len() - i,
    {
        input.push(c[i]);
        i = i + 1;
        assert(input@ =~= start + c@.take(i as int));
    }
    assert(c@.take(c@.len() as int) =~= c@);
}

} // verus!

verus! {

proof fn lemma_user_ok_prefix(
    args: Seq<KernelArg>,
    values: Seq<Option<KernelArgValue>>,
    mems: Seq<crate::memory::Mem>,
    shared: int,
    m: nat,
    n: nat,
)
    requires
        m <= n,
        user_layout_ok(args, values, mems, shared, n),
    ensures
        user_layout_ok(args, values, mems, shared, m),
    decreases n - m,
{
    if m < n {
        lemma_user_ok_prefix(args, values, mems, shared, m, (n - 1) as nat);
    }
}

proof fn lemma_internal_ok_prefix(
    input: Seq<u8>,
    bindings: Seq<(Binding, usize)>,
    internal: Seq<InternalKernelArg>,
    offsets: Seq<u64>,
    m: nat,
    n: nat,
)
    requires
        m <= n,
        internal_layout_ok(input, bindings, internal, offsets, n),
    ensures
        internal_layout_ok(input, bindings, internal, offsets, m),
    decreases n - m,
{
    if m < n {
        lemma_internal_ok_prefix(input, bindings, internal, offsets, m, (n - 1) as nat);
    }
}

/// The input bytes, bindings and local memory size of a launch.
pub open spec fn full_layout(
    k: Kernel,
    mems: Seq<crate::memory::Mem>,
    shared: int,
    offsets: Seq<u64>,
) -> (Seq<u8>, Seq<(Binding, usize)>, int) {
    let u = user_layout(k.args@, k.values@, mems, shared, k.args@.len());
    let i = internal_layout(u.0, u.1, k.internal_args@, offsets, k.internal_args@.len());
    (i.0, i.1, u.2)
}

/// Whether a launch of `k` can be laid out.
pub open spec fn full_layout_ok(
    k: Kernel,
    mems: Seq<crate::memory::Mem>,
    shared: int,
    offsets: Seq<u64>,
) -> bool {
    let u = user_layout(k.args@, k.values@, mems, shared, k.args@.len());
    user_layout_ok(k.args@, k.values@, mems, shared, k.args@.len()) && internal_layout_ok(
        u.0,
        u.1,
        k.internal_args@,
        offsets,
        k.internal_args@.len(),
    )
}

impl Kernel {
    /// Serializes the launch input: every live argument's payload at its
    /// offset, then the internal arguments; collects the resource bindings and
    /// the local memory size, starting from the `shared` bytes the kernel
    /// itself uses.
    pub fn build_input(&self, mems: &MemStore, shared: u32, offsets: [u64; 3]) -> (r: Result<
        (Vec<u8>, Vec<(Binding, usize)>, u32),
        i32,
    >)
        requires
            self.wf(),
        ensures
            r.is_ok() <==> full_layout_ok(*self, mems@, shared as int, offsets@),
            r.is_err() ==> r == Err::<(Vec<u8>, Vec<(Binding, usize)>, u32), i32>(
                crate::cl::CL_INVALID_KERNEL_ARGS,
            ),
            r.is_ok() ==> ({
                let l = full_layout(*self, mems@, shared as int, offsets@);
                &&& r.unwrap().0@ == l.0
                &&& r.unwrap().1@ == l.1
                &&& r.unwrap().2 == l.2
            }),
    {
        let ghost args = self.args@;
        let ghost values = self.values@;
        let ghost ms = mems@;
        let n = self.args.len();
        let mut input: Vec<u8> = Vec::new();
        let mut bindings: Vec<(Binding, usize)> = Vec::new();
        let mut local: u32 = shared;
        let mut i: usize = 0;
        while i < n
            invariant
                i <= n,
                n == args.len(),
                values.len() == n,
                args == self.args@,
                values == self.values@,
                ms == mems@,
                user_layout_ok(args, values, ms, shared as int, i as nat),
                input@ == user_layout(args, values, ms, shared as int, i as nat).0,
                bindings@ == user_layout(args, values, ms, shared as int, i as nat).1,
                local == user_layout(args, values, ms, shared as int, i as nat).2,
            decreases n - i,
        {
            let a = &self.args[i];
            if !a.dead {
                proof {
                    if user_layout_ok(args, values, ms, shared as int, n as nat) {
                        lemma_user_ok_prefix(args, values, ms, shared as int, (i + 1) as nat, n as nat);
                    }
                }
                match &self.values[i] {
                    None => return Err(crate::cl::CL_INVALID_KERNEL_ARGS),
                    Some(v) => {
                        if input.len() > a.offset {
                            return Err(crate::cl::CL_INVALID_KERNEL_ARGS);
                        }
                        match v {
                            KernelArgValue::Sampler(_) => return Err(crate::cl::CL_INVALID_KERNEL_ARGS),
                            KernelArgValue::MemObject(h) => {
                                if *h >= mems.len() {
                                    return Err(crate::cl::CL_INVALID_KERNEL_ARGS);
                                }
                            },
                            _ => {},
                        }
                        let ghost before = input@;
                        pad(&mut input, a.offset);
                        match v {
                            KernelArgValue::Constant(c) => append_bytes(&mut input, c),
                            KernelArgValue::MemObject(h) => {
                                let m = mems.get(*h);
                                push_le(&mut input, m.offset as u64, 8);
                                let root = match m.parent {
                                    Some(p) => p,
                                    None => *h,
                                };
                                bindings.push((Binding::Mem(root), a.offset));
                            },
                            KernelArgValue::LocalMem(s) => {
                                push_zeros(&mut input, 8);
                                if *s > (u32::MAX - local) as usize {
                                    return Err(crate::cl::CL_INVALID_KERNEL_ARGS);
                                }
                                local = local + *s as u32;
                            },
                            _ => push_zeros(&mut input, 8),
                        }
                    },
                }
            }
            i = i + 1;
        }
        let ghost u = user_layout(args, values, ms, shared as int, n as nat);
        let ghost internal = self.internal_args@;
        let m = self.internal_args.len();
        let mut j: usize = 0;
        while j < m
            invariant
                j <= m,
                m == internal.len(),
                internal == self.internal_args@,
                ms == mems@,
                args == self.args@,
                values == self.values@,
                n == args.len(),
                u == user_layout(args, values, ms, shared as int, n as nat),
                internal_layout_ok(u.0, u.1, internal, offsets@, j as nat),
                input@ == internal_layout(u.0, u.1, internal, offsets@, j as nat).0,
                bindings@ == internal_layout(u.0, u.1, internal, offsets@, j as nat).1,
            decreases m - j,
        {
            let ia = self.internal_args[j];
            proof {
                if full_layout_ok(*self, mems@, shared as int, offsets@) {
                    assert(internal_layout_ok(u.0, u.1, internal, offsets@, m as nat));
                    lemma_internal_ok_prefix(u.0, u.1, internal, offsets@, (j + 1) as nat, m as nat);
                    assert(internal_layout_ok(u.0, u.1, internal, offsets@, (j + 1) as nat));
                    assert(internal[j as int].offset >= internal_layout(
                        u.0,
                        u.1,
                        internal,
                        offsets@,
                        j as nat,
                    ).0.len());
                }
            }
            if input.len() > ia.offset {
                return Err(crate::cl::CL_INVALID_KERNEL_ARGS);
            }
            pad(&mut input, ia.offset);
            match ia.kind {
                InternalKernelArgType::GlobalWorkOffsets => {
                    let ghost p = input@;
                    push_le(&mut input, offsets[0], 8);
                    push_le(&mut input, offsets[1], 8);
                    push_le(&mut input, offsets[2], 8);
                    assert(input@ =~= p + internal_payload(ia.kind, offsets@));
                },
                InternalKernelArgType::ConstantBuffer => {
                    push_zeros(&mut input, 8);
                    bindings.push((Binding::ConstantBuffer, ia.offset));
                },
                InternalKernelArgType::PrintfBuffer => {
                    push_zeros(&mut input, 8);
                    bindings.push((Binding::PrintfBuffer, ia.offset));
                },
            }
            j = j + 1;
        }
        Ok((input, bindings, local))
    }
}

} // verus!

verus! {

proof fn lemma_user_prefix(
    args: Seq<KernelArg>,
    values: Seq<Option<KernelArgValue>>,
    mems: Seq<crate::memory::Mem>,
    shared: int,
    m: nat,
    n: nat,
)
    requires
        m <= n <= args.len(),
        user_layout_ok(args, values, mems, shared, n),
    ensures
        user_layout(args, values, mems, shared, m).0.len() <= user_layout(
            args,
            values,
            mems,
            shared,
            n,
        ).0.len(),
        user_layout(args, values, mems, shared, n).0.take(
            user_layout(args, values, mems, shared, m).0.len() as int,
        ) == user_layout(args, values, mems, shared, m).0,
    decreases n - m,
{
    let lm = user_layout(args, values, mems, shared, m).0;
    if m < n {
        lemma_user_prefix(args, values, mems, shared, m, (n - 1) as nat);
        let prev = user_layout(args, values, mems, shared, (n - 1) as nat).0;
        let cur = user_layout(args, values, mems, shared, n).0;
        if !args[n - 1].dead {
            assert(cur.take(prev.len() as int) =~= prev);
        }
        assert(cur.take(lm.len() as int) =~= prev.take(lm.len() as int));
    } else {
        assert(lm.take(lm.len() as int) =~= lm);
    }
}

proof fn lemma_internal_prefix(
    input: Seq<u8>,
    bindings: Seq<(Binding, usize)>,
    internal: Seq<InternalKernelArg>,
    offsets: Seq<u64>,
    n: nat,
)
    requires
        n <= internal.len(),
        internal_layout_ok(input, bindings, internal, offsets, n),
    ensures
        input.len() <= internal_layout(input, bindings, internal, offsets, n).0.len(),
        internal_layout(input, bindings, internal, offsets, n).0.take(input.len() as int) == input,
    decreases n,
{
    if n > 0 {
        lemma_internal_prefix(input, bindings, internal, offsets, (n - 1) as nat);
        let prev = internal_layout(input, bindings, internal, offsets, (n - 1) as nat).0;
        let cur = internal_layout(input, bindings, internal, offsets, n).0;
        assert(cur.take(prev.len() as int) =~= prev);
        assert(cur.take(input.len() as int) =~= prev.take(input.len() as int));
    } else {
        assert(input.take(input.len() as int) =~= input);
    }
}

/// A live by-value argument whose cell holds bytes `c` finds exactly those
/// bytes at its resolved offset in the serialized launch input.
pub proof fn lemma_constant_arg_placed(
    k: Kernel,
    mems: Seq<crate::memory::Mem>,
    shared: int,
    offsets: Seq<u64>,
    i: int,
    c: Seq<u8>,
)
    requires
        k.wf(),
        0 <= i < k.args@.len(),
        !k.args@[i].dead,
        k.values@[i].is_some(),
        k.values@[i].unwrap() is Constant,
        k.values@[i].unwrap()->Constant_0@ == c,
        full_layout_ok(k, mems, shared, offsets),
    ensures
        k.args@[i].offset + c.len() <= full_layout(k, mems, shared, offsets).0.len(),
        full_layout(k, mems, shared, offsets).0.subrange(
            k.args@[i].offset as int,
            k.args@[i].offset + c.len(),
        ) == c,
{
    let args = k.args@;
    let values = k.values@;
    let n = args.len();
    let u = user_layout(args, values, mems, shared, n);
    lemma_user_ok_prefix(args, values, mems, shared, (i + 1) as nat, n);
    lemma_user_prefix(args, values, mems, shared, (i + 1) as nat, n);
    lemma_internal_prefix(u.0, u.1, k.internal_args@, offsets, k.internal_args@.len());
    let at = user_layout(args, values, mems, shared, (i + 1) as nat).0;
    let prev = user_layout(args, values, mems, shared, i as nat).0;
    let off = args[i].offset as int;
    assert(at == pad_to(prev, off) + c);
    let full = full_layout(k, mems, shared, offsets).0;
    assert(full.take(u.0.len() as int) == u.0);
    assert(u.0.take(at.len() as int) == at);
    assert(full.subrange(off, off + c.len()) =~= at.subrange(off, off + c.len()));
    assert(at.subrange(off, off + c.len()) =~= c);
}

/// A dead argument's value never reaches the launch: two kernels that differ
/// only in the value cell of a dead argument lay out the same launch.
pub proof fn lemma_dead_arg_ignored(
    k1: Kernel,
    k2: Kernel,
    mems: Seq<crate::memory::Mem>,
    shared: int,
    offsets: Seq<u64>,
    i: int,
)
    requires
        k1.wf(),
        k2.wf(),
        k1.args@ == k2.args@,
        k1.internal_args@ == k2.internal_args@,
        0 <= i < k1.args@.len(),
        k1.args@[i].dead,
        forall|j: int| 0 <= j < k1.values@.len() && j != i ==> k1.values@[j] == k2.values@[j],
    ensures
        full_layout(k1, mems, shared, offsets) == full_layout(k2, mems, shared, offsets),
        full_layout_ok(k1, mems, shared, offsets) == full_layout_ok(k2, mems, shared, offsets),
{
    lemma_dead_user_layout(k1.args@, k1.values@, k2.values@, mems, shared, i, k1.args@.len());
}

proof fn lemma_dead_user_layout(
    args: Seq<KernelArg>,
    v1: Seq<Option<KernelArgValue>>,
    v2: Seq<Option<KernelArgValue>>,
    mems: Seq<crate::memory::Mem>,
    shared: int,
    i: int,
    n: nat,
)
    requires
        n <= args.len(),
        v1.len() == args.len(),
        v2.len() == args.len(),
        0 <= i < args.len(),
        args[i].dead,
        forall|j: int| 0 <= j < v1.len() && j != i ==> v1[j] == v2[j],
    ensures
        user_layout(args, v1, mems, shared, n) == user_layout(args, v2, mems, shared, n),
        user_layout_ok(args, v1, mems, shared, n) == user_layout_ok(args, v2, mems, shared, n),
    decreases n,
{
    if n > 0 {
        lemma_dead_user_layout(args, v1, v2, mems, shared, i, (n - 1) as nat);
        if n - 1 != i {
            assert(v1[n - 1] == v2[n - 1]);
        }
    }
}

} // verus!

verus! {

/// Everything a launch needs once its arguments have been captured.
pub struct LaunchPlan {
    pub work_dim: u32,
    pub block: [u32; 3],
    pub grid: [u32; 3],
    pub input: Vec<u8>,
    pub bindings: Vec<(Binding, usize)>,
    pub local_size: u32,
    /// The kernel's constant data, uploaded when a constant buffer is bound.
    pub constants: Vec<u8>,
    /// The size of the printf buffer, when one is bound.
    pub printf_size: u32,
}

/// The global offsets of a launch as three 64-bit numbers.
pub open spec fn offsets_of(offsets: Seq<usize>) -> Seq<u64> {
    seq![arr_entry(offsets, 0, 0) as u64, arr_entry(offsets, 1, 0) as u64, arr_entry(offsets, 2, 0) as u64]
}

/// The error capturing a launch reports, if any: work sizes must fit in 32
/// bits, and the arguments must lay out.
pub open spec fn launch_error(
    k: Kernel,
    mems: Seq<crate::memory::Mem>,
    block: Seq<usize>,
    grid: Seq<usize>,
    offsets: Seq<usize>,
    shared: u32,
) -> Option<i32> {
    if !((forall|i: int| 0 <= i < block.len() ==> block[i] <= u32::MAX) && (forall|i: int|
        0 <= i < grid.len() ==> grid[i] <= u32::MAX)) {
        Some(crate::cl::CL_INVALID_GLOBAL_WORK_SIZE)
    } else if !full_layout_ok(k, mems, shared as int, offsets_of(offsets)) {
        Some(crate::cl::CL_INVALID_KERNEL_ARGS)
    } else {
        None
    }
}

/// Whether `p` is the launch of `k` captured from these requests.
pub open spec fn plan_for(
    p: LaunchPlan,
    k: Kernel,
    mems: Seq<crate::memory::Mem>,
    threads: u32,
    printf_size: u32,
    work_dim: u32,
    block: Seq<usize>,
    grid: Seq<usize>,
    offsets: Seq<usize>,
    shared: u32,
    constants: Seq<u8>,
) -> bool {
    let l = full_layout(k, mems, shared as int, offsets_of(offsets));
    &&& p.work_dim == work_dim
    &&& forall|i: int|
        0 <= i < 3 ==> p.block@[i] == resolved_block(block, grid, threads as int, i) && p.grid@[i]
            == resolved_grid(block, grid, threads as int, i)
    &&& p.input@ == l.0
    &&& p.bindings@ == l.1
    &&& p.local_size == l.2
    &&& p.constants@ == constants
    &&& p.printf_size == printf_size
}

impl Kernel {
    /// Captures a launch of this kernel on a device whose largest block is
    /// `threads` and whose printf buffer holds `printf_size` bytes: the
    /// resolved work sizes and the serialized input with its bindings.
    pub fn launch(
        &self,
        mems: &MemStore,
        threads: u32,
        printf_size: u32,
        work_dim: u32,
        block: &Vec<usize>,
        grid: &Vec<usize>,
        offsets: &Vec<usize>,
        shared: u32,
        constants: Vec<u8>,
    ) -> (r: Result<LaunchPlan, i32>)
        requires
            self.wf(),
            threads >= 1,
            block@.len() <= 3,
            grid@.len() <= 3,
            offsets@.len() <= 3,
        ensures
            match launch_error(*self, mems@, block@, grid@, offsets@, shared) {
                Some(e) => r == Err::<LaunchPlan, i32>(e),
                None => r.is_ok() && plan_for(r.unwrap(), *self, mems@, threads, printf_size, work_dim,
                    block@, grid@, offsets@, shared, constants@),
            },
    {
        let (b, g) = match resolve_work_sizes(threads, block, grid) {
            Some(s) => s,
            None => return Err(crate::cl::CL_INVALID_GLOBAL_WORK_SIZE),
        };
        let o = match create_kernel_arr(offsets, 0, u64::MAX) {
            Some(o) => o,
            None => return Err(crate::cl::CL_INVALID_GLOBAL_WORK_SIZE),
        };
        assert(o@ =~= offsets_of(offsets@));
        let (input, bindings, local_size) = match self.build_input(mems, shared, o) {
            Ok(x) => x,
            Err(e) => return Err(e),
        };
        Ok(LaunchPlan { work_dim, block: b, grid: g, input, bindings, local_size, constants, printf_size })
    }
}

/// The backend calls a launch makes, after creating and filling its constant
/// and printf buffers.
pub open spec fn launch_calls() -> Seq<crate::pipe::PipeCall> {
    seq![
        crate::pipe::PipeCall::CreateComputeState,
        crate::pipe::PipeCall::BindComputeState,
        crate::pipe::PipeCall::SetGlobalBinding,
        crate::pipe::PipeCall::LaunchGrid,
        crate::pipe::PipeCall::ClearGlobalBinding,
        crate::pipe::PipeCall::DeleteComputeState,
        crate::pipe::PipeCall::MemoryBarrier,
    ]
}

/// Whether a launch binds a printf buffer.
pub open spec fn binds_printf(bindings: Seq<(Binding, usize)>) -> bool {
    exists|i: int| 0 <= i < bindings.len() && (#[trigger] bindings[i]).0 == Binding::PrintfBuffer
}

proof fn lemma_binds_printf_push(b: Seq<(Binding, usize)>, x: (Binding, usize))
    ensures
        binds_printf(b.push(x)) == (binds_printf(b) || x.0 == Binding::PrintfBuffer),
{
    if binds_printf(b) {
        let i = choose|i: int| 0 <= i < b.len() && (#[trigger] b[i]).0 == Binding::PrintfBuffer;
        assert(b.push(x)[i] == b[i]);
    }
    if x.0 == Binding::PrintfBuffer {
        assert(b.push(x)[b.len() as int] == x);
    }
    if binds_printf(b.push(x)) {
        let i = choose|i: int| 0 <= i < b.push(x).len() && (#[trigger] b.push(x)[i]).0 == Binding::PrintfBuffer;
        if i < b.len() {
            assert(b[i] == b.push(x)[i]);
        }
    }
}

/// A printf buffer of `n` bytes as the launch leaves it for the kernel: its
/// length word says that only the word itself is written.
pub open spec fn printf_initial(n: nat) -> Seq<u8> {
    if n >= 1 {
        seq![4u8] + zeros((n - 1) as nat)
    } else {
        Seq::empty()
    }
}

/// A printf buffer the kernel never wrote to gives an empty payload.
pub proof fn lemma_unused_printf_buffer_is_empty(n: nat)
    ensures
        printf_payload_of(printf_initial(n)).len() == 0,
{
    let b = printf_initial(n);
    if b.len() >= 4 {
        let w = b.subrange(0, 4);
        assert(w =~= seq![4u8, 0u8, 0u8, 0u8]);
        let w3 = w.skip(1).skip(1).skip(1);
        assert(w3 =~= seq![0u8]);
        assert(w3.skip(1) =~= Seq::<u8>::empty());
        assert(from_le(w3.skip(1)) == 0);
        assert(from_le(w3) == 0);
        assert(from_le(w.skip(1).skip(1)) == 0);
        assert(from_le(w.skip(1)) == 0);
        assert(from_le(w) == 4);
    }
}

/// Runs a captured launch on `ctx`: creates the constant and printf buffers it
/// binds, issues the grid, and reads the printf buffer back. Returns the
/// printf payload.
pub fn execute_launch(plan: &LaunchPlan, ctx: &mut crate::pipe::PipeContext) -> (r: Vec<u8>)
    ensures
        final(ctx).launches@.len() == old(ctx).launches@.len() + 1,
        final(ctx).launches@.take(old(ctx).launches@.len() as int) == old(ctx).launches@,
        final(ctx).launches@.last().work_dim == plan.work_dim,
        final(ctx).launches@.last().block@ == plan.block@,
        final(ctx).launches@.last().grid@ == plan.grid@,
        final(ctx).launches@.last().input@ == plan.input@,
        final(ctx).launches@.last().local_size == plan.local_size,
        exists|setup: Seq<crate::pipe::PipeCall>, tail: Seq<crate::pipe::PipeCall>|
            final(ctx).calls@ == old(ctx).calls@ + setup + launch_calls() + tail && !setup.contains(
                crate::pipe::PipeCall::LaunchGrid,
            ) && !tail.contains(crate::pipe::PipeCall::LaunchGrid),
        binds_printf(plan.bindings@) ==> r@ == printf_payload_of(printf_initial(plan.printf_size as nat)),
        !binds_printf(plan.bindings@) ==> r@.len() == 0,
{
    let ghost c0 = ctx.calls@;
    let mut printf_buf: usize = 0;
    let mut i: usize = 0;
    while i < plan.bindings.len()
        invariant
            i <= plan.bindings@.len(),
            ctx.launches@ == old(ctx).launches@,
            c0 == old(ctx).calls@,
            ctx.calls@.len() >= c0.len(),
            ctx.calls@.take(c0.len() as int) == c0,
            !ctx.calls@.skip(c0.len() as int).contains(crate::pipe::PipeCall::LaunchGrid),
            (printf_buf != 0) == binds_printf(plan.bindings@.take(i as int)),
            printf_buf != 0 ==> 1 <= printf_buf <= ctx.buffers@.len() && ctx.buffers@[printf_buf - 1]@
                == printf_initial(plan.printf_size as nat),
        decreases plan.bindings@.len() - i,
    {
        let ghost before = ctx.calls@;
        proof {
            assert(plan.bindings@.take(i + 1) =~= plan.bindings@.take(i as int).push(plan.bindings@[i as int]));
            lemma_binds_printf_push(plan.bindings@.take(i as int), plan.bindings@[i as int]);
        }
        match plan.bindings[i].0 {
            Binding::ConstantBuffer => {
                let res = ctx.resource_create_buffer(plan.constants.len() as u32);
                ctx.buffer_subdata(res, 0, &plan.constants);
            },
            Binding::PrintfBuffer => {
                let res = ctx.resource_create_buffer(plan.printf_size);
                let mut init: Vec<u8> = Vec::new();
                init.push(4);
                ctx.buffer_subdata(res, 0, &init);
                printf_buf = res;
                assert(ctx.buffers@[printf_buf - 1]@ =~= printf_initial(plan.printf_size as nat));
            },
            Binding::Mem(_) => {},
        }
        proof {
            let added = ctx.calls@.skip(before.len() as int);
            assert(ctx.calls@ =~= before + added);
            assert(!added.contains(crate::pipe::PipeCall::LaunchGrid));
            assert(ctx.calls@.skip(c0.len() as int) =~= before.skip(c0.len() as int) + added);
            assert(ctx.calls@.take(c0.len() as int) =~= before.take(c0.len() as int));
        }
        i = i + 1;
    }
    let ghost setup = ctx.calls@.skip(c0.len() as int);
    assert(ctx.calls@ =~= c0 + setup);
    ctx.create_compute_state();
    ctx.bind_compute_state();
    ctx.set_global_binding();
    ctx.launch_grid(plan.work_dim, plan.block, plan.grid, &plan.input, plan.local_size);
    ctx.clear_global_binding();
    ctx.delete_compute_state();
    ctx.memory_barrier();
    let ghost mid = ctx.calls@;
    assert(mid =~= c0 + setup + launch_calls());
    let ghost l = ctx.launches@;
    assert(plan.bindings@.take(plan.bindings@.len() as int) =~= plan.bindings@);
    let r = if printf_buf != 0 {
        let buf = ctx.buffer_map(printf_buf, 0, plan.printf_size as usize);
        assert(buf@ =~= printf_initial(plan.printf_size as nat));
        printf_payload(&buf)
    } else {
        Vec::new()
    };
    proof {
        let tail = ctx.calls@.skip(mid.len() as int);
        assert(ctx.calls@ =~= c0 + setup + launch_calls() + tail);
        assert(!tail.contains(crate::pipe::PipeCall::LaunchGrid)) by {
            if printf_buf != 0 {
                assert(tail =~= seq![crate::pipe::PipeCall::BufferMap]);
                assert(tail[0] != crate::pipe::PipeCall::LaunchGrid);
            } else {
                assert(tail =~= Seq::<crate::pipe::PipeCall>::empty());
            }
        }
    }
    r
}

} // verus!

verus! {

use crate::program::Program;

/// Two declarations of a parameter agree.
pub open spec fn spirv_arg_eq(a: SPIRVKernelArg, b: SPIRVKernelArg) -> bool {
    &&& a.name@ == b.name@
    &&& a.declared_type@ == b.declared_type@
    &&& a.access_qualifier == b.access_qualifier
    &&& a.address_qualifier == b.address_qualifier
    &&& a.type_qualifier == b.type_qualifier
}

/// Two parameter lists agree.
pub open spec fn signature_eq(a: Seq<SPIRVKernelArg>, b: Seq<SPIRVKernelArg>) -> bool {
    a.len() == b.len() && forall|k: int| 0 <= k < a.len() ==> spirv_arg_eq(#[trigger] a[k], b[k])
}

fn same_signature(a: &Vec<SPIRVKernelArg>, b: &Vec<SPIRVKernelArg>) -> (r: bool)
    ensures
        r == signature_eq(a@, b@),
{
    if a.len() != b.len() {
        return false;
    }
    let mut k: usize = 0;
    while k < a.len()
        invariant
            k <= a@.len(),
            a@.len() == b@.len(),
            forall|j: int| 0 <= j < k ==> spirv_arg_eq(#[trigger] a@[j], b@[j]),
        decreases a@.len() - k,
    {
        let x = &a[k];
        let y = &b[k];
        if !(x.name == y.name && x.declared_type == y.declared_type && x.access_qualifier
            == y.access_qualifier && x.address_qualifier == y.address_qualifier && x.type_qualifier
            == y.type_qualifier) {
            return false;
        }
        k = k + 1;
    }
    true
}

/// The first device from `i` on whose build succeeded, if any.
pub open spec fn first_built_from(b: Seq<crate::program::ProgramDevBuild>, i: nat) -> Option<int>
    decreases b.len() - i,
{
    if i >= b.len() {
        None
    } else if b[i as int].status == crate::cl::CL_BUILD_SUCCESS {
        Some(i as int)
    } else {
        first_built_from(b, i + 1)
    }
}

proof fn lemma_first_built_range(b: Seq<crate::program::ProgramDevBuild>, i: nat)
    ensures
        first_built_from(b, i).is_some() ==> i <= first_built_from(b, i).unwrap() < b.len(),
    decreases b.len() - i,
{
    if i < b.len() && b[i as int].status != crate::cl::CL_BUILD_SUCCESS {
        lemma_first_built_range(b, i + 1);
    }
}

fn first_built_index(p: &Program) -> (r: Option<usize>)
    ensures
        r.is_some() == first_built_from(p.builds@, 0).is_some(),
        r.is_some() ==> r.unwrap() as int == first_built_from(p.builds@, 0).unwrap(),
        r.is_some() ==> r.unwrap() < p.builds@.len(),
{
    proof {
        lemma_first_built_range(p.builds@, 0);
    }
    let mut i: usize = 0;
    while i < p.builds.len()
        invariant
            i <= p.builds@.len(),
            first_built_from(p.builds@, 0) == first_built_from(p.builds@, i as nat),
        decreases p.builds@.len() - i,
    {
        if p.builds[i].status == crate::cl::CL_BUILD_SUCCESS {
            return Some(i);
        }
        i = i + 1;
    }
    None
}

fn exports(p: &Program, name: &String) -> (r: bool)
    ensures
        r == exists|k: int| 0 <= k < p.kernels@.len() && (#[trigger] p.kernels@[k])@ == name@,
{
    let mut k: usize = 0;
    while k < p.kernels.len()
        invariant
            k <= p.kernels@.len(),
            forall|j: int| 0 <= j < k ==> (#[trigger] p.kernels@[j])@ != name@,
        decreases p.kernels@.len() - k,
    {
        if p.kernels[k] == *name {
            return true;
        }
        k = k + 1;
    }
    false
}

fn built_signatures_match(p: &Program, sigs: &Vec<Vec<SPIRVKernelArg>>, first: usize) -> (r: bool)
    requires
        sigs@.len() == p.builds@.len(),
        first < sigs@.len(),
    ensures
        r == forall|i: int| 0 <= i < p.builds@.len() && (#[trigger] p.builds@[i]).status
            == crate::cl::CL_BUILD_SUCCESS ==> signature_eq(sigs@[i]@, sigs@[first as int]@),
{
    let mut i: usize = 0;
    while i < p.builds.len()
        invariant
            i <= p.builds@.len(),
            first < p.builds@.len(),
            sigs@.len() == p.builds@.len(),
            forall|j: int| 0 <= j < i && (#[trigger] p.builds@[j]).status == crate::cl::CL_BUILD_SUCCESS
                ==> signature_eq(sigs@[j]@, sigs@[first as int]@),
        decreases p.builds@.len() - i,
    {
        if p.builds[i].status == crate::cl::CL_BUILD_SUCCESS && !same_signature(&sigs[i], &sigs[first]) {
            return false;
        }
        i = i + 1;
    }
    true
}

/// Checks that kernel `name` can be created from `p`, given its parameter
/// list `sigs[i]` on each device `i`: the program exports the name, some
/// device built, and every device that built declares the same parameters.
/// Returns the first device that built.
pub fn create_kernel(p: &Program, name: &String, sigs: &Vec<Vec<SPIRVKernelArg>>) -> (r: Result<usize, i32>)
    requires
        sigs@.len() == p.builds@.len(),
    ensures
        !(exists|k: int| 0 <= k < p.kernels@.len() && (#[trigger] p.kernels@[k])@ == name@) ==> r == Err::<usize, i32>(
            crate::cl::CL_INVALID_KERNEL_NAME,
        ),
        (exists|k: int| 0 <= k < p.kernels@.len() && (#[trigger] p.kernels@[k])@ == name@) ==> {
            match first_built_from(p.builds@, 0) {
                None => r == Err::<usize, i32>(crate::cl::CL_INVALID_PROGRAM_EXECUTABLE),
                Some(f) => {
                    if forall|i: int| 0 <= i < p.builds@.len() && (#[trigger] p.builds@[i]).status
                        == crate::cl::CL_BUILD_SUCCESS ==> signature_eq(sigs@[i]@, sigs@[f]@) {
                        r == Ok::<usize, i32>(f as usize)
                    } else {
                        r == Err::<usize, i32>(crate::cl::CL_INVALID_KERNEL_DEFINITION)
                    }
                },
            }
        },
{
    if !exports(p, name) {
        return Err(crate::cl::CL_INVALID_KERNEL_NAME);
    }
    let first = match first_built_index(p) {
        Some(f) => f,
        None => return Err(crate::cl::CL_INVALID_PROGRAM_EXECUTABLE),
    };
    if !built_signatures_match(p, sigs, first) {
        return Err(crate::cl::CL_INVALID_KERNEL_DEFINITION);
    }
    Ok(first)
}

} // verus!

verus! {

fn copy_bytes_vec(v: &Vec<u8>) -> (r: Vec<u8>)
    ensures
        r@ == v@,
{
    let mut r: Vec<u8> = Vec::new();
    let mut i: usize = 0;
    while i < v.len()
        invariant
            i <= v@.len(),
            r@ == v@.take(i as int),
        decreases v@.len() - i,
    {
        r.push(v[i]);
        i = i + 1;
        assert(r@ =~= v@.take(i as int));
    }
    assert(r@ =~= v@);
    r
}

/// Two argument values hold the same thing.
pub open spec fn value_eq(a: KernelArgValue, b: KernelArgValue) -> bool {
    match (a, b) {
        (KernelArgValue::Empty, KernelArgValue::Empty) => true,
        (KernelArgValue::Constant(x), KernelArgValue::Constant(y)) => x@ == y@,
        (KernelArgValue::MemObject(x), KernelArgValue::MemObject(y)) => x == y,
        (KernelArgValue::Sampler(x), KernelArgValue::Sampler(y)) => x == y,
        (KernelArgValue::LocalMem(x), KernelArgValue::LocalMem(y)) => x == y,
        _ => false,
    }
}

/// Two arguments agree in declaration, kind, size, offset and liveness.
pub open spec fn arg_eq(a: KernelArg, b: KernelArg) -> bool {
    spirv_arg_eq(a.spirv, b.spirv) && a.kind == b.kind && a.size == b.size && a.offset == b.offset
        && a.dead == b.dead
}

impl KernelArgValue {
    pub fn duplicate(&self) -> (r: KernelArgValue)
        ensures
            value_eq(*self, r),
    {
        match self {
            KernelArgValue::Empty => KernelArgValue::Empty,
            KernelArgValue::Constant(c) => KernelArgValue::Constant(copy_bytes_vec(c)),
            KernelArgValue::MemObject(h) => KernelArgValue::MemObject(*h),
            KernelArgValue::Sampler(h) => KernelArgValue::Sampler(*h),
            KernelArgValue::LocalMem(s) => KernelArgValue::LocalMem(*s),
        }
    }
}

impl KernelArg {
    pub fn duplicate(&self) -> (r: KernelArg)
        ensures
            arg_eq(*self, r),
    {
        KernelArg {
            spirv: SPIRVKernelArg {
                name: self.spirv.name.clone(),
                declared_type: self.spirv.declared_type.clone(),
                access_qualifier: self.spirv.access_qualifier,
                address_qualifier: self.spirv.address_qualifier,
                type_qualifier: self.spirv.type_qualifier,
            },
            kind: self.kind,
            size: self.size,
            offset: self.offset,
            dead: self.dead,
        }
    }
}

impl Kernel {
    /// A new kernel object with the same arguments and its own copy of the
    /// argument values: binding a value to one leaves the other alone.
    pub fn duplicate(&self) -> (r: Kernel)
        ensures
            r.context == self.context,
            r.name@ == self.name@,
            r.work_group_size@ == self.work_group_size@,
            r.internal_args@ == self.internal_args@,
            r.args@.len() == self.args@.len(),
            forall|i: int| 0 <= i < self.args@.len() ==> arg_eq(self.args@[i], #[trigger] r.args@[i]),
            r.values@.len() == self.values@.len(),
            forall|i: int|
                0 <= i < self.values@.len() ==> (#[trigger] r.values@[i]).is_some()
                    == self.values@[i].is_some() && (self.values@[i].is_some() ==> value_eq(
                    self.values@[i].unwrap(),
                    r.values@[i].unwrap(),
                )),
    {
        let mut args: Vec<KernelArg> = Vec::new();
        let mut i: usize = 0;
        while i < self.args.len()
            invariant
                i <= self.args@.len(),
                args@.len() == i,
                forall|k: int| 0 <= k < i ==> arg_eq(self.args@[k], #[trigger] args@[k]),
            decreases self.args@.len() - i,
        {
            args.push(self.args[i].duplicate());
            i = i + 1;
        }
        let mut values: Vec<Option<KernelArgValue>> = Vec::new();
        let mut j: usize = 0;
        while j < self.values.len()
            invariant
                j <= self.values@.len(),
                values@.len() == j,
                forall|k: int|
                    0 <= k < j ==> (#[trigger] values@[k]).is_some() == self.values@[k].is_some() && (
                    self.values@[k].is_some() ==> value_eq(self.values@[k].unwrap(), values@[k].unwrap())),
            decreases self.values@.len() - j,
        {
            let v = match &self.values[j] {
                Some(v) => Some(v.duplicate()),
                None => None,
            };
            values.push(v);
            j = j + 1;
        }
        let mut internal: Vec<InternalKernelArg> = Vec::new();
        let mut x: usize = 0;
        while x < self.internal_args.len()
            invariant
                x <= self.internal_args@.len(),
                internal@ == self.internal_args@.take(x as int),
            decreases self.internal_args@.len() - x,
        {
            internal.push(self.internal_args[x]);
            x = x + 1;
            assert(internal@ =~= self.internal_args@.take(x as int));
        }
        assert(internal@ =~= self.internal_args@);
        Kernel {
            context: self.context,
            name: self.name.clone(),
            args,
            values,
            work_group_size: self.work_group_size,
            internal_args: internal,
        }
    }
}

/// Every device of `p` that built declares the parameters that device `f`
/// declares.
pub open spec fn signatures_agree(p: Program, sigs: Seq<Vec<SPIRVKernelArg>>, f: int) -> bool {
    forall|i: int|
        0 <= i < p.builds@.len() && (#[trigger] p.builds@[i]).status == crate::cl::CL_BUILD_SUCCESS
            ==> signature_eq(sigs[i]@, sigs[f]@)
}

/// For each kernel the program exports, whether it can be created: every
/// device that built declares the same parameters. `sigs[k][d]` is kernel
/// `k`'s parameter list on device `d`. With `capacity`, fewer slots than
/// exported kernels are refused.
pub fn create_kernels_in_program(p: &Program, sigs: &Vec<Vec<Vec<SPIRVKernelArg>>>, capacity: Option<usize>) -> (r: Result<Vec<usize>, i32>)
    requires
        sigs@.len() == p.kernels@.len(),
        forall|k: int| 0 <= k < sigs@.len() ==> (#[trigger] sigs@[k])@.len() == p.builds@.len(),
    ensures
        first_built_from(p.builds@, 0).is_none() ==> r == Err::<Vec<usize>, i32>(crate::cl::CL_INVALID_PROGRAM_EXECUTABLE),
        first_built_from(p.builds@, 0).is_some() && capacity.is_some() && p.kernels@.len() > capacity.unwrap()
            ==> r == Err::<Vec<usize>, i32>(crate::cl::CL_INVALID_VALUE),
        first_built_from(p.builds@, 0).is_some() && !(capacity.is_some() && p.kernels@.len() > capacity.unwrap())
            ==> r.is_ok() && ({
                let f = first_built_from(p.builds@, 0).unwrap();
                let out = r.unwrap()@;
                &&& forall|j: int| 0 <= j < out.len() ==> (#[trigger] out[j]) < p.kernels@.len()
                &&& forall|a: int, b: int| 0 <= a < b < out.len() ==> out[a] < out[b]
                &&& forall|k: int| 0 <= k < p.kernels@.len() ==> (out.contains(k as usize) <==> signatures_agree(
                    *p,
                    #[trigger] sigs@[k]@,
                    f,
                ))
            }),
{
    let first = match first_built_index(p) {
        Some(f) => f,
        None => return Err(crate::cl::CL_INVALID_PROGRAM_EXECUTABLE),
    };
    if let Some(n) = capacity {
        if p.kernels.len() > n {
            return Err(crate::cl::CL_INVALID_VALUE);
        }
    }
    let ghost f = first as int;
    let mut out: Vec<usize> = Vec::new();
    let mut k: usize = 0;
    while k < sigs.len()
        invariant
            k <= sigs@.len(),
            sigs@.len() == p.kernels@.len(),
            forall|q: int| 0 <= q < sigs@.len() ==> (#[trigger] sigs@[q])@.len() == p.builds@.len(),
            first < p.builds@.len(),
            first as int == first_built_from(p.builds@, 0).unwrap(),
            forall|j: int| 0 <= j < out@.len() ==> (#[trigger] out@[j]) < k,
            forall|a: int, b: int| 0 <= a < b < out@.len() ==> out@[a] < out@[b],
            forall|q: int| 0 <= q < k ==> (out@.contains(q as usize) <==> signatures_agree(
                *p,
                #[trigger] sigs@[q]@,
                first as int,
            )),
        decreases sigs@.len() - k,
    {
        let ok = built_signatures_match(p, &sigs[k], first);
        let ghost before = out@;
        if ok {
            out.push(k);
        }
        proof {
            assert forall|q: int| 0 <= q < k + 1 implies (out@.contains(q as usize) <==> signatures_agree(
                *p,
                #[trigger] sigs@[q]@,
                first as int,
            )) by {
                if q < k {
                    if out@.contains(q as usize) {
                        let j = choose|j: int| 0 <= j < out@.len() && out@[j] == q as usize;
                        if ok && j == before.len() {
                        } else {
                            assert(before[j] == q as usize);
                            assert(before.contains(q as usize));
                        }
                    }
                    if before.contains(q as usize) {
                        let j = choose|j: int| 0 <= j < before.len() && before[j] == q as usize;
                        assert(out@[j] == q as usize);
                    }
                } else {
                    if ok {
                        assert(out@[before.len() as int] == k);
                    } else {
                        if out@.contains(q as usize) {
                            let j = choose|j: int| 0 <= j < out@.len() && out@[j] == q as usize;
                            assert(before[j] < k);
                        }
                    }
                }
            }
        }
        k = k + 1;
    }
    Ok(out)
}

} // verus!
