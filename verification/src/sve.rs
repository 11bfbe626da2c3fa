//! Scalable vector state: element access to the byte-addressed Z registers,
//! per-byte predicates, predicate-count patterns and predicate flag tests.
use vstd::prelude::*;
use crate::cpu::{Armv8Cpu, CpuState, PREG_COUNT, SVE_MAX_VL_BYTES, VREG_COUNT};
use crate::le_bytes::{le_value, read_le, write_le, write_le_bytes};

verus! {

/// Element sizes in bytes.
pub open spec fn valid_esize(es: nat) -> bool {
    es == 1 || es == 2 || es == 4 || es == 8
}

/// Element `e` of `es` bytes of the vector `z`.
pub open spec fn elem(z: Seq<u8>, e: nat, es: nat) -> u64 {
    le_value(z, (e * es) as int, es) as u64
}

/// `z` with element `e` of `es` bytes replaced by the low bytes of `v`.
pub open spec fn with_elem(z: Seq<u8>, e: nat, es: nat, v: u64) -> Seq<u8> {
    write_le(z, (e * es) as int, es, v as nat)
}

/// Whether element `e` of `es` bytes is active in the per-byte predicate
/// `p`: the bit of its lowest byte decides.
pub open spec fn pred_elem(p: Seq<bool>, e: nat, es: nat) -> bool {
    p[(e * es) as int]
}

/// `base` with each element `e < n` for which `sel(e)` holds replaced by
/// `f(e)`.
pub open spec fn fill(
    base: Seq<u8>,
    es: nat,
    n: nat,
    sel: spec_fn(nat) -> bool,
    f: spec_fn(nat) -> u64,
) -> Seq<u8>
    decreases n,
{
    if n == 0 {
        base
    } else {
        let prev = fill(base, es, (n - 1) as nat, sel, f);
        if sel((n - 1) as nat) {
            with_elem(prev, (n - 1) as nat, es, f((n - 1) as nat))
        } else {
            prev
        }
    }
}

/// A vector register's worth of zero bytes.
pub open spec fn zero_vector() -> Seq<u8> {
    Seq::new(SVE_MAX_VL_BYTES as nat, |k: int| 0u8)
}

/// A predicate register with every bit clear.
pub open spec fn zero_pred() -> Seq<bool> {
    Seq::new(SVE_MAX_VL_BYTES as nat, |k: int| false)
}

/// `base` with the bit of element `e` of `es` bytes set to `b`.
pub open spec fn with_pred(p: Seq<bool>, e: nat, es: nat, b: bool) -> Seq<bool> {
    p.update((e * es) as int, b)
}

/// `base` with the bit of each element `e < n` set to `g(e)`.
pub open spec fn fill_pred(base: Seq<bool>, es: nat, n: nat, g: spec_fn(nat) -> bool) -> Seq<bool>
    decreases n,
{
    if n == 0 {
        base
    } else {
        with_pred(fill_pred(base, es, (n - 1) as nat, g), (n - 1) as nat, es, g((n - 1) as nat))
    }
}

/// The largest power of two not above `n` (0 for 0).
pub open spec fn pow2_floor(n: nat) -> nat
    decreases n,
{
    if n < 2 {
        n
    } else {
        2 * pow2_floor(n / 2)
    }
}

/// How many of `elements` elements a predicate-count pattern selects:
/// POW2, VL1..VL8, VL16..VL256, MUL4, MUL3 and ALL; other patterns select
/// none.
pub open spec fn pred_count(pattern: u8, elements: nat) -> nat {
    let fixed: nat = if 1 <= pattern <= 8 {
        pattern as nat
    } else if pattern == 9 {
        16
    } else if pattern == 10 {
        32
    } else if pattern == 11 {
        64
    } else if pattern == 12 {
        128
    } else {
        256
    };
    if pattern == 0 {
        pow2_floor(elements)
    } else if 1 <= pattern <= 13 {
        if elements >= fixed {
            fixed
        } else {
            0
        }
    } else if pattern == 29 {
        (elements - elements % 4) as nat
    } else if pattern == 30 {
        (elements - elements % 3) as nat
    } else if pattern == 31 {
        elements
    } else {
        0
    }
}

/// The value of `res` at the first element of the first `n` that `mask`
/// makes active, if any.
pub open spec fn first_active(mask: Seq<bool>, res: Seq<bool>, es: nat, n: nat) -> Option<bool>
    decreases n,
{
    if n == 0 {
        None
    } else {
        match first_active(mask, res, es, (n - 1) as nat) {
            Some(b) => Some(b),
            None => if pred_elem(mask, (n - 1) as nat, es) {
                Some(pred_elem(res, (n - 1) as nat, es))
            } else {
                None
            },
        }
    }
}

/// The value of `res` at the last active element of the first `n`, if any.
pub open spec fn last_active(mask: Seq<bool>, res: Seq<bool>, es: nat, n: nat) -> Option<bool>
    decreases n,
{
    if n == 0 {
        None
    } else if pred_elem(mask, (n - 1) as nat, es) {
        Some(pred_elem(res, (n - 1) as nat, es))
    } else {
        last_active(mask, res, es, (n - 1) as nat)
    }
}

/// Whether some active element of the first `n` is true in `res`.
pub open spec fn any_active(mask: Seq<bool>, res: Seq<bool>, es: nat, n: nat) -> bool
    decreases n,
{
    if n == 0 {
        false
    } else {
        any_active(mask, res, es, (n - 1) as nat) || (pred_elem(mask, (n - 1) as nat, es)
            && pred_elem(res, (n - 1) as nat, es))
    }
}

/// The N, Z and C flags of a predicate test: the first active element is
/// true; no active element is true; the last active element is not true.
pub open spec fn pred_test_flags(mask: Seq<bool>, res: Seq<bool>, es: nat, n: nat) -> (
    bool,
    bool,
    bool,
) {
    (
        first_active(mask, res, es, n) == Some(true),
        !any_active(mask, res, es, n),
        last_active(mask, res, es, n) != Some(true),
    )
}

/// A predicate with every bit set.
pub open spec fn all_true_pred() -> Seq<bool> {
    Seq::new(SVE_MAX_VL_BYTES as nat, |k: int| true)
}

pub proof fn lemma_elem_in_vector(e: nat, es: nat, n: nat, vl: nat)
    requires
        valid_esize(es),
        n == vl / es,
        vl <= 256,
        e < n,
    ensures
        e * es + es <= vl,
        e * es + es <= 256,
{
    assert(e * es + es <= vl) by (nonlinear_arith)
        requires
            e < n,
            n == vl / es,
            es >= 1,
    {
        assert(n * es <= vl);
        assert((e + 1) * es <= n * es);
    }
}

pub proof fn lemma_count_fits(es: nat, vl: nat)
    requires
        es >= 1,
    ensures
        (vl / es) * es <= vl,
{
    assert((vl / es) * es <= vl) by (nonlinear_arith)
        requires
            es >= 1,
    ;
}

/// Element `e` of `es` bytes of `z`.
pub fn get_elem(z: &Vec<u8>, e: usize, es: usize) -> (r: u64)
    requires
        valid_esize(es as nat),
        e * es + es <= SVE_MAX_VL_BYTES,
        z@.len() == SVE_MAX_VL_BYTES,
    ensures
        r == elem(z@, e as nat, es as nat),
{
    read_le(z, e * es, es)
}

/// Replace element `e` of `es` bytes of `z` by the low bytes of `v`.
pub fn set_elem(z: &mut Vec<u8>, e: usize, es: usize, v: u64)
    requires
        valid_esize(es as nat),
        e * es + es <= SVE_MAX_VL_BYTES,
        old(z)@.len() == SVE_MAX_VL_BYTES,
    ensures
        final(z)@.len() == SVE_MAX_VL_BYTES,
        final(z)@ == with_elem(old(z)@, e as nat, es as nat, v),
{
    write_le_bytes(z, e * es, es, v);
}

pub fn zero_vector_exec() -> (r: Vec<u8>)
    ensures
        r@ == zero_vector(),
{
    let r = vec![0u8; SVE_MAX_VL_BYTES];
    assert(r@ =~= zero_vector());
    r
}

pub fn zero_pred_exec() -> (r: Vec<bool>)
    ensures
        r@ == zero_pred(),
{
    let r = vec![false; SVE_MAX_VL_BYTES];
    assert(r@ =~= zero_pred());
    r
}

/// A copy of vector register `n`.
pub fn copy_z(cpu: &Armv8Cpu, n: usize) -> (r: Vec<u8>)
    requires
        cpu.wf(),
        n < VREG_COUNT,
    ensures
        r@ == cpu@.z[n as int],
        r@.len() == SVE_MAX_VL_BYTES,
{
    let src = &cpu.sve_z[n];
    assert(src@ == cpu@.z[n as int]);
    let mut r: Vec<u8> = Vec::new();
    let mut k: usize = 0;
    while k < SVE_MAX_VL_BYTES
        invariant
            k <= SVE_MAX_VL_BYTES,
            src@.len() == SVE_MAX_VL_BYTES,
            r@ =~= src@.subrange(0, k as int),
        decreases SVE_MAX_VL_BYTES - k,
    {
        r.push(src[k]);
        k = k + 1;
    }
    r
}

/// Whether element `e` of `es` bytes is active in predicate register `p`.
pub fn pred_at(cpu: &Armv8Cpu, p: usize, e: usize, es: usize) -> (r: bool)
    requires
        cpu.wf(),
        p < PREG_COUNT,
        e * es < SVE_MAX_VL_BYTES,
    ensures
        r == pred_elem(cpu@.p[p as int], e as nat, es as nat),
{
    let pv = &cpu.sve_pred[p];
    assert(pv@ == cpu@.p[p as int]);
    pv[e * es]
}

/// Replace vector register `n`.
pub fn write_z(cpu: &mut Armv8Cpu, n: usize, v: Vec<u8>)
    requires
        old(cpu).wf(),
        n < VREG_COUNT,
        v@.len() == SVE_MAX_VL_BYTES,
    ensures
        final(cpu).wf(),
        final(cpu)@ == old(cpu)@.set_z(n as int, v@),
{
    let ghost vv = v@;
    cpu.sve_z.set(n, v);
    proof {
        assert(cpu@.z =~= old(cpu)@.z.update(n as int, vv));
        assert forall|i: int| 0 <= i < VREG_COUNT implies #[trigger] cpu@.z[i].len()
            == SVE_MAX_VL_BYTES by {
            if i != n {
                assert(cpu@.z[i] == old(cpu)@.z[i]);
            }
        }
    }
}

/// Replace predicate register `n`.
pub fn write_p(cpu: &mut Armv8Cpu, n: usize, v: Vec<bool>)
    requires
        old(cpu).wf(),
        n < PREG_COUNT,
        v@.len() == SVE_MAX_VL_BYTES,
    ensures
        final(cpu).wf(),
        final(cpu)@ == old(cpu)@.set_p(n as int, v@),
{
    let ghost vv = v@;
    cpu.sve_pred.set(n, v);
    proof {
        assert(cpu@.p =~= old(cpu)@.p.update(n as int, vv));
        assert forall|i: int| 0 <= i < PREG_COUNT implies #[trigger] cpu@.p[i].len()
            == SVE_MAX_VL_BYTES by {
            if i != n {
                assert(cpu@.p[i] == old(cpu)@.p[i]);
            }
        }
    }
}

fn pow2_floor_exec(n: u64) -> (r: u64)
    requires
        n <= 256,
    ensures
        r == pow2_floor(n as nat),
        r <= n,
    decreases n,
{
    if n < 2 {
        n
    } else {
        2 * pow2_floor_exec(n / 2)
    }
}

/// The number of elements a predicate-count pattern selects.
pub fn pred_count_exec(pattern: u8, elements: u64) -> (r: u64)
    requires
        elements <= 256,
    ensures
        r == pred_count(pattern, elements as nat),
{
    let fixed: u64 = if 1 <= pattern && pattern <= 8 {
        pattern as u64
    } else if pattern == 9 {
        16
    } else if pattern == 10 {
        32
    } else if pattern == 11 {
        64
    } else if pattern == 12 {
        128
    } else {
        256
    };
    if pattern == 0 {
        pow2_floor_exec(elements)
    } else if 1 <= pattern && pattern <= 13 {
        if elements >= fixed {
            fixed
        } else {
            0
        }
    } else if pattern == 29 {
        elements - elements % 4
    } else if pattern == 30 {
        elements - elements % 3
    } else if pattern == 31 {
        elements
    } else {
        0
    }
}

/// The N, Z and C flags of testing `res` under the governing `mask`, over
/// the first `n` elements of `es` bytes.
pub fn pred_test(mask: &Vec<bool>, res: &Vec<bool>, es: usize, n: usize) -> (r: (bool, bool, bool))
    requires
        n * es <= SVE_MAX_VL_BYTES,
        mask@.len() == SVE_MAX_VL_BYTES,
        res@.len() == SVE_MAX_VL_BYTES,
        es >= 1,
    ensures
        r == pred_test_flags(mask@, res@, es as nat, n as nat),
{
    let mut first: Option<bool> = None;
    let mut last: Option<bool> = None;
    let mut any = false;
    let mut e: usize = 0;
    while e < n
        invariant
            e <= n,
            es >= 1,
            n * es <= SVE_MAX_VL_BYTES,
            mask@.len() == SVE_MAX_VL_BYTES,
            res@.len() == SVE_MAX_VL_BYTES,
            first == first_active(mask@, res@, es as nat, e as nat),
            last == last_active(mask@, res@, es as nat, e as nat),
            any == any_active(mask@, res@, es as nat, e as nat),
        decreases n - e,
    {
        assert(e * es < n * es) by (nonlinear_arith)
            requires
                e < n,
                es >= 1,
        ;
        if mask[e * es] {
            let b = res[e * es];
            if first.is_none() {
                first = Some(b);
            }
            last = Some(b);
            any = any || b;
        }
        e = e + 1;
    }
    (first == Some(true), !any, last != Some(true))
}

/// Element `e` of `es` bytes of vector register `r`.
pub fn z_elem(cpu: &Armv8Cpu, r: usize, e: usize, es: usize) -> (v: u64)
    requires
        cpu.wf(),
        r < VREG_COUNT,
        valid_esize(es as nat),
        e * es + es <= SVE_MAX_VL_BYTES,
    ensures
        v == elem(cpu@.z[r as int], e as nat, es as nat),
{
    let z = &cpu.sve_z[r];
    assert(z@ == cpu@.z[r as int]);
    get_elem(z, e, es)
}

} // verus!
