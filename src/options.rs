//! Compiler options: the flags the runtime adds, split into arguments.
use vstd::prelude::*;
use vstd::string::StringSliceAdditionalSpecFns;

verus! {

/// Whitespace bytes: space, tab, line feed, vertical tab, form feed,
/// carriage return.
pub open spec fn is_space(b: u8) -> bool {
    b == 32 || b == 9 || b == 10 || b == 11 || b == 12 || b == 13
}

/// Words finished so far and the word being read, after the bytes of `s`.
pub open spec fn split_state(s: Seq<u8>) -> (Seq<Seq<u8>>, Seq<u8>)
    decreases s.len(),
{
    if s.len() == 0 {
        (Seq::empty(), Seq::empty())
    } else {
        let (done, cur) = split_state(s.drop_last());
        let b = s.last();
        if is_space(b) {
            if cur.len() > 0 {
                (done.push(cur), Seq::empty())
            } else {
                (done, cur)
            }
        } else {
            (done, cur.push(b))
        }
    }
}

/// The words of `s`: its maximal runs of non-whitespace bytes, in order.
pub open spec fn words(s: Seq<u8>) -> Seq<Seq<u8>> {
    let (done, cur) = split_state(s);
    if cur.len() > 0 {
        done.push(cur)
    } else {
        done
    }
}

/// Whether `pat` occurs in `s`.
pub open spec fn occurs(s: Seq<u8>, pat: Seq<u8>) -> bool {
    exists|i: int| 0 <= i && i + pat.len() <= s.len() && #[trigger] s.subrange(i, i + pat.len()) == pat
}

fn matches_at(s: &Vec<u8>, i: usize, pat: &[u8]) -> (r: bool)
    requires
        i + pat@.len() <= s@.len(),
    ensures
        r == (s@.subrange(i as int, i + pat@.len()) == pat@),
{
    let slen = s.len();
    let mut k: usize = 0;
    while k < pat.len()
        invariant
            k <= pat@.len(),
            slen == s@.len(),
            i + pat@.len() <= s@.len(),
            forall|j: int| 0 <= j < k ==> s@[i + j] == pat@[j],
        decreases pat@.len() - k,
    {
        if s[i + k] != pat[k] {
            assert(s@.subrange(i as int, i + pat@.len())[k as int] != pat@[k as int]);
            return false;
        }
        k = k + 1;
    }
    assert(s@.subrange(i as int, i + pat@.len()) =~= pat@);
    true
}

/// Whether `pat` occurs in `s`.
pub fn contains_bytes(s: &Vec<u8>, pat: &[u8]) -> (r: bool)
    ensures
        r == occurs(s@, pat@),
{
    if pat.len() > s.len() {
        return false;
    }
    let last = s.len() - pat.len();
    let mut i: usize = 0;
    while i <= last
        invariant
            pat@.len() <= s@.len(),
            last == s@.len() - pat@.len(),
            i <= last + 1,
            forall|j: int| 0 <= j < i ==> #[trigger] s@.subrange(j, j + pat@.len()) != pat@,
        decreases last + 1 - i,
    {
        if matches_at(s, i, pat) {
            return true;
        }
        if i == last {
            return false;
        }
        i = i + 1;
    }
    false
}

fn push_all(out: &mut Vec<u8>, b: &[u8])
    ensures
        final(out)@ == old(out)@ + b@,
{
    let ghost start = out@;
    let mut i: usize = 0;
    while i < b.len()
        invariant
            i <= b@.len(),
            out@ == start + b@.take(i as int),
        decreases b@.len() - i,
    {
        out.push(b[i]);
        i = i + 1;
        assert(out@ =~= start + b@.take(i as int));
    }
    assert(b@.take(b@.len() as int) =~= b@);
}

/// Splits `s` into its words.
pub fn split_whitespace(s: &Vec<u8>) -> (r: Vec<Vec<u8>>)
    ensures
        r@.len() == words(s@).len(),
        forall|i: int| 0 <= i < r@.len() ==> (#[trigger] r@[i])@ == words(s@)[i],
{
    let mut done: Vec<Vec<u8>> = Vec::new();
    let mut cur: Vec<u8> = Vec::new();
    let mut i: usize = 0;
    while i < s.len()
        invariant
            i <= s@.len(),
            done@.len() == split_state(s@.take(i as int)).0.len(),
            forall|k: int| 0 <= k < done@.len() ==> (#[trigger] done@[k])@ == split_state(s@.take(i as int)).0[k],
            cur@ == split_state(s@.take(i as int)).1,
        decreases s@.len() - i,
    {
        proof {
            assert(s@.take(i + 1).drop_last() =~= s@.take(i as int));
            assert(s@.take(i + 1).last() == s@[i as int]);
        }
        let b = s[i];
        if b == 32 || b == 9 || b == 10 || b == 11 || b == 12 || b == 13 {
            if cur.len() > 0 {
                let mut w: Vec<u8> = Vec::new();
                core::mem::swap(&mut w, &mut cur);
                done.push(w);
            }
        } else {
            cur.push(b);
        }
        i = i + 1;
    }
    assert(s@.take(s@.len() as int) =~= s@);
    if cur.len() > 0 {
        done.push(cur);
    }
    done
}

} // verus!

verus! {

/// The option that names a language version.
pub open spec fn std_prefix() -> Seq<u8> {
    "-cl-std=CL".spec_bytes()
}

/// The option that asks for denormals flushed to zero.
pub open spec fn denorms_flag() -> Seq<u8> {
    "-cl-denorms-are-zero".spec_bytes()
}

/// What the compiler takes for that option.
pub open spec fn denorms_replacement() -> Seq<u8> {
    "-fdenormal-fp-math=positive-zero".spec_bytes()
}

/// The option string handed to the compiler: the given options, a language
/// version unless one is named, the image-support undefine where a device
/// lacks images, and the API version define.
pub open spec fn full_options(options: Seq<u8>, clc_version: Seq<u8>, image_supported: bool, cl_version: Seq<u8>) -> Seq<u8> {
    let a = if occurs(options, std_prefix()) {
        options
    } else {
        options + " -cl-std=CL".spec_bytes() + clc_version
    };
    let b = if image_supported {
        a
    } else {
        a + " -U__IMAGE_SUPPORT__".spec_bytes()
    };
    b + " -D__OPENCL_VERSION__=".spec_bytes() + cl_version
}

/// One compiler argument for one option word.
pub open spec fn compiler_arg(w: Seq<u8>) -> Seq<u8> {
    if w == denorms_flag() {
        denorms_replacement()
    } else {
        w
    }
}

fn bytes_eq(w: &Vec<u8>, pat: &[u8]) -> (r: bool)
    ensures
        r == (w@ == pat@),
{
    if w.len() != pat.len() {
        return false;
    }
    let r = matches_at(w, 0, pat);
    assert(w@.subrange(0, pat@.len() as int) =~= w@);
    r
}

/// The compiler arguments for a build on a device: the options completed as
/// `full_options` says, split into words, with the denormals option renamed.
pub fn prepare_options(options: &Vec<u8>, clc_version: &Vec<u8>, image_supported: bool, cl_version: &Vec<u8>) -> (r: Vec<Vec<u8>>)
    ensures
        r@.len() == words(full_options(options@, clc_version@, image_supported, cl_version@)).len(),
        forall|i: int|
            0 <= i < r@.len() ==> (#[trigger] r@[i])@ == compiler_arg(
                words(full_options(options@, clc_version@, image_supported, cl_version@))[i],
            ),
{
    let mut opts: Vec<u8> = Vec::new();
    push_all(&mut opts, options.as_slice());
    assert(opts@ =~= options@);
    if !contains_bytes(options, "-cl-std=CL".as_bytes()) {
        push_all(&mut opts, " -cl-std=CL".as_bytes());
        push_all(&mut opts, clc_version.as_slice());
    }
    if !image_supported {
        push_all(&mut opts, " -U__IMAGE_SUPPORT__".as_bytes());
    }
    push_all(&mut opts, " -D__OPENCL_VERSION__=".as_bytes());
    push_all(&mut opts, cl_version.as_slice());
    let ws = split_whitespace(&opts);
    let mut r: Vec<Vec<u8>> = Vec::new();
    let mut i: usize = 0;
    while i < ws.len()
        invariant
            i <= ws@.len(),
            r@.len() == i,
            forall|k: int| 0 <= k < i ==> (#[trigger] r@[k])@ == compiler_arg(ws@[k]@),
        decreases ws@.len() - i,
    {
        let w = &ws[i];
        if bytes_eq(w, "-cl-denorms-are-zero".as_bytes()) {
            let mut rep: Vec<u8> = Vec::new();
            push_all(&mut rep, "-fdenormal-fp-math=positive-zero".as_bytes());
            r.push(rep);
        } else {
            let mut c: Vec<u8> = Vec::new();
            push_all(&mut c, w.as_slice());
            r.push(c);
        }
        i = i + 1;
    }
    r
}

} // verus!
