//! Reading a printable string out of guest memory, for diagnostics.
use vstd::prelude::*;
use crate::cpu::{Armv8Cpu, CpuState};
use crate::memory::{mem_read, SystemBus};
use crate::mmu::{translate, translate_spec};

verus! {

/// The longest string read.
pub const MAX_STRING_BYTES: u64 = 128;

/// An ASCII graphic character or a space.
pub open spec fn is_printable(b: u8) -> bool {
    (0x21 <= b && b <= 0x7E) || b == 0x20
}

/// The printable bytes at `addr + k`, `addr + k + 1`, ... up to offset 128:
/// a NUL, an unprintable byte, an address that does not translate or is not
/// backed by RAM ends the string.
pub open spec fn string_from(s: CpuState, mem: Seq<u8>, addr: u64, k: nat) -> Seq<u8>
    decreases MAX_STRING_BYTES - k,
{
    if k >= MAX_STRING_BYTES {
        Seq::empty()
    } else {
        match translate_spec(s, mem, addr.wrapping_add(k as u64), false) {
            Err(_) => Seq::empty(),
            Ok(pa) => match mem_read(mem, pa, 1) {
                None => Seq::empty(),
                Some(v) => if is_printable(v as u8) {
                    seq![v as u8] + string_from(s, mem, addr, k + 1)
                } else {
                    Seq::empty()
                },
            },
        }
    }
}

/// The printable string at guest address `addr`, if it is not empty.
pub fn try_read_string_at(cpu: &Armv8Cpu, bus: &SystemBus, addr: u64) -> (r: Option<Vec<u8>>)
    requires
        cpu.wf(),
        bus.wf(),
    ensures
        string_from(cpu@, bus@, addr, 0).len() == 0 ==> r is None,
        string_from(cpu@, bus@, addr, 0).len() > 0 ==> (r is Some && r->0@ == string_from(
            cpu@,
            bus@,
            addr,
            0,
        )),
{
    let mut out: Vec<u8> = Vec::new();
    let mut off: u64 = 0;
    let ghost whole = string_from(cpu@, bus@, addr, 0);
    while off < MAX_STRING_BYTES
        invariant
            cpu.wf(),
            bus.wf(),
            off <= MAX_STRING_BYTES,
            whole == string_from(cpu@, bus@, addr, 0),
            whole == out@ + string_from(cpu@, bus@, addr, off as nat),
        ensures
            whole == out@,
        decreases MAX_STRING_BYTES - off,
    {
        let va = addr.wrapping_add(off);
        let pa = match translate(cpu, &bus.mem, va, false) {
            Ok(pa) => pa,
            Err(_) => {
                assert(out@ + Seq::<u8>::empty() =~= out@);
                break;
            },
        };
        let byte = match bus.read(pa, 1) {
            Some(v) => v as u8,
            None => {
                assert(out@ + Seq::<u8>::empty() =~= out@);
                break;
            },
        };
        if byte == 0x20 || (0x21 <= byte && byte <= 0x7E) {
            let ghost rest = string_from(cpu@, bus@, addr, (off + 1) as nat);
            out.push(byte);
            assert(whole =~= out@ + rest);
        } else {
            assert(out@ + Seq::<u8>::empty() =~= out@);
            break;
        }
        off = off + 1;
    }
    if out.len() == 0 {
        None
    } else {
        Some(out)
    }
}

} // verus!
