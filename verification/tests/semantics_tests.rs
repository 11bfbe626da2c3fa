//! Scenarios beyond the instruction tests: the laws on concrete values,
//! every error the engine reports, and the vector extension.
use emulator::constants::{
    RAM_BASE, SYSREG_CNTP_TVAL_EL0, SYSREG_TPIDR_EL0, TIMER_CTL_ENABLE, VBAR_IRQ_CURRENT_EL,
};
use emulator::cpu::Armv8Cpu;
use emulator::execute::execute;
use emulator::instr::{Instr, Opcode};
use emulator::memory::SystemBus;
use emulator::mmu::{
    ExecError, DESC_ADDR_MASK, DESC_AF_BIT, DESC_AP_EL0, DESC_AP_RO, DESC_TABLE, DESC_VALID,
    SCTLR_MMU_ENABLE,
};

const NO_OFFSET: u8 = 0xFF;
const ALL: u8 = 31;

fn setup() -> (Armv8Cpu, SystemBus) {
    (Armv8Cpu::new(), SystemBus::new())
}

fn ins(op: Opcode, rd: u8, rn: u8, rm: u8, imm: u64, sf: bool, cond: u8, size: u8) -> Instr {
    Instr { op, rd, rn, rm, imm, sf, cond, size }
}

/// Map one user page at `va_page` to `pa` with the given extra descriptor bits.
fn map_page(cpu: &mut Armv8Cpu, bus: &mut SystemBus, va_page: u64, pa: u64, bits: u64) {
    let l1 = RAM_BASE;
    let l2 = RAM_BASE + 0x1000;
    let l3 = RAM_BASE + 0x2000;
    bus.mem.write(l1 + ((va_page >> 30) & 0x1ff) * 8, 8, (l2 & DESC_ADDR_MASK) | DESC_TABLE);
    bus.mem.write(l2 + ((va_page >> 21) & 0x1ff) * 8, 8, (l3 & DESC_ADDR_MASK) | DESC_TABLE);
    bus.mem.write(l3 + ((va_page >> 12) & 0x1ff) * 8, 8, (pa & DESC_ADDR_MASK) | bits);
    cpu.sys.ttbr0_el1 = l1;
    cpu.sys.tcr_el1 = (25 << 16) | 25;
    cpu.sys.sctlr_el1 = SCTLR_MMU_ENABLE;
}

fn z_bytes(cpu: &Armv8Cpu, r: usize) -> Vec<u8> {
    cpu.sve_z[r].clone()
}

fn set_z(cpu: &mut Armv8Cpu, r: usize, f: impl Fn(usize) -> u8) {
    for k in 0..256 {
        cpu.sve_z[r][k] = f(k);
    }
}

fn z_elem(cpu: &Armv8Cpu, r: usize, e: usize, es: usize) -> u64 {
    let mut v = 0u64;
    for b in 0..es {
        v |= (cpu.sve_z[r][e * es + b] as u64) << (8 * b);
    }
    v
}

fn set_z_elem(cpu: &mut Armv8Cpu, r: usize, e: usize, es: usize, v: u64) {
    for b in 0..es {
        cpu.sve_z[r][e * es + b] = (v >> (8 * b)) as u8;
    }
}

fn all_true(cpu: &mut Armv8Cpu, p: usize) {
    cpu.sve_pred[p] = vec![true; 256];
}

// --- laws on concrete values ---

#[test]
fn svc_then_eret_resumes_after_the_call() {
    let (mut cpu, mut bus) = setup();
    cpu.regs.pc = 0x4000_1000;
    cpu.regs.sp = 0x7000_0000;
    cpu.sys.sp_el1 = 0x8000_0000;
    cpu.sys.vbar_el1 = 0x4008_0000;
    cpu.pstate = cpu.pstate.with_el(0).with_irq_masked(false);
    cpu.pstate.set_nzcv(true, false, true, false);
    let before = cpu.pstate;

    execute(&mut cpu, &mut bus, ins(Opcode::Svc, 0, 0, 0, 7, true, 0, 0)).unwrap();
    assert_eq!(cpu.pstate.el(), 1);
    execute(&mut cpu, &mut bus, ins(Opcode::Eret, 0, 0, 0, 0, true, 0, 0)).unwrap();

    assert_eq!(cpu.regs.pc, 0x4000_1004);
    assert_eq!(cpu.pstate, before);
    assert_eq!(cpu.regs.sp, 0x7000_0000);
}

#[test]
fn timer_interrupt_then_eret_resumes_interrupted_code() {
    let (mut cpu, mut bus) = setup();
    cpu.regs.pc = 0x4000_0000;
    cpu.sys.vbar_el1 = 0x4008_0000;
    cpu.sys.cycle_count = 500;
    cpu.sys.cntp_ctl_el0 = TIMER_CTL_ENABLE;
    cpu.sys.cntp_cval_el0 = 400;
    cpu.pstate = cpu.pstate.with_el(1).with_irq_masked(false);

    execute(&mut cpu, &mut bus, ins(Opcode::Nop, 0, 0, 0, 0, false, 0, 0)).unwrap();
    assert_eq!(cpu.regs.pc, 0x4008_0000 + VBAR_IRQ_CURRENT_EL);
    assert!(cpu.pstate.irq_masked());

    execute(&mut cpu, &mut bus, ins(Opcode::Eret, 0, 0, 0, 0, true, 0, 0)).unwrap();
    assert_eq!(cpu.regs.pc, 0x4000_0004);
    assert!(!cpu.pstate.irq_masked());
}

#[test]
fn masked_interrupt_is_not_taken() {
    let (mut cpu, mut bus) = setup();
    cpu.regs.pc = 0x4000_0000;
    cpu.sys.vbar_el1 = 0x4008_0000;
    cpu.sys.cycle_count = 500;
    cpu.sys.cntp_ctl_el0 = TIMER_CTL_ENABLE;
    cpu.sys.cntp_cval_el0 = 400;
    cpu.pstate = cpu.pstate.with_el(1).with_irq_masked(true);

    execute(&mut cpu, &mut bus, ins(Opcode::Nop, 0, 0, 0, 0, false, 0, 0)).unwrap();
    assert_eq!(cpu.regs.pc, 0x4000_0004);
    assert!(cpu.sys.irq_pending);
}

#[test]
fn unaligned_store_then_load_returns_value() {
    let (mut cpu, mut bus) = setup();
    cpu.regs.set_x(1, RAM_BASE + 0x103);
    cpu.regs.set_x(0, 0x1122_3344_5566_7788);
    execute(&mut cpu, &mut bus, ins(Opcode::Str, 0, 1, NO_OFFSET, 0, false, 0, 4)).unwrap();
    execute(&mut cpu, &mut bus, ins(Opcode::Ldr, 2, 1, NO_OFFSET, 0, false, 0, 4)).unwrap();
    assert_eq!(cpu.regs.x(2), 0x5566_7788);
    assert_eq!(bus.read(RAM_BASE + 0x103, 4), Some(0x5566_7788));
    assert_eq!(bus.read(RAM_BASE + 0x107, 1), Some(0));
}

#[test]
fn store_and_load_across_a_page_boundary_with_translation_off() {
    let (mut cpu, mut bus) = setup();
    cpu.regs.set_x(1, RAM_BASE + 0xffd);
    cpu.regs.set_x(0, 0x0102_0304_0506_0708);
    execute(&mut cpu, &mut bus, ins(Opcode::Str, 0, 1, NO_OFFSET, 0, true, 0, 8)).unwrap();
    execute(&mut cpu, &mut bus, ins(Opcode::Ldr, 3, 1, NO_OFFSET, 0, true, 0, 8)).unwrap();
    assert_eq!(cpu.regs.x(3), 0x0102_0304_0506_0708);
    assert_eq!(bus.read(RAM_BASE + 0x1000, 1), Some(0x05));
}

#[test]
fn load_exclusive_then_store_exclusive_succeeds() {
    let (mut cpu, mut bus) = setup();
    cpu.regs.set_x(1, RAM_BASE + 0x40);
    bus.write(RAM_BASE + 0x40, 8, 99);
    cpu.regs.set_x(2, 0xABCD);
    // ldxr x0, [x1]
    execute(&mut cpu, &mut bus, ins(Opcode::Ldxr, 0, 1, 0, 0, true, 0, 8)).unwrap();
    assert_eq!(cpu.regs.x(0), 99);
    // stxr w3, x2, [x1]
    execute(&mut cpu, &mut bus, ins(Opcode::Stxr, 2, 1, 0, 3, true, 0, 8)).unwrap();
    assert_eq!(cpu.regs.x(3), 0);
    assert_eq!(bus.read(RAM_BASE + 0x40, 8), Some(0xABCD));
    assert_eq!(cpu.exclusive, None);
    // the same store-exclusive again fails and writes nothing
    cpu.regs.set_x(2, 0x5555);
    execute(&mut cpu, &mut bus, ins(Opcode::Stxr, 2, 1, 0, 3, true, 0, 8)).unwrap();
    assert_eq!(cpu.regs.x(3), 1);
    assert_eq!(bus.read(RAM_BASE + 0x40, 8), Some(0xABCD));
}

#[test]
fn store_exclusive_without_reservation_fails() {
    let (mut cpu, mut bus) = setup();
    cpu.regs.set_x(1, RAM_BASE + 0x40);
    bus.write(RAM_BASE + 0x40, 8, 99);
    cpu.regs.set_x(2, 0xABCD);
    // stxr w3, x2, [x1]
    execute(&mut cpu, &mut bus, ins(Opcode::Stxr, 2, 1, 0, 3, true, 0, 8)).unwrap();
    assert_eq!(cpu.regs.x(3), 1);
    assert_eq!(bus.read(RAM_BASE + 0x40, 8), Some(99));
}

#[test]
fn store_to_reserved_range_clears_reservation() {
    let (mut cpu, mut bus) = setup();
    cpu.regs.set_x(1, RAM_BASE + 0x40);
    execute(&mut cpu, &mut bus, ins(Opcode::Ldxr, 0, 1, 0, 0, true, 0, 8)).unwrap();
    assert!(cpu.exclusive.is_some());
    cpu.regs.set_x(4, RAM_BASE + 0x44);
    // stlr w5, [x4]
    execute(&mut cpu, &mut bus, ins(Opcode::Stlr, 5, 4, 0, 0, false, 0, 4)).unwrap();
    assert_eq!(cpu.exclusive, None);
}

#[test]
fn msr_then_mrs_round_trips_storage_register() {
    let (mut cpu, mut bus) = setup();
    cpu.regs.set_x(4, 0xDEAD_BEEF_F00D);
    execute(&mut cpu, &mut bus, ins(Opcode::Msr, 4, 0, 0, SYSREG_TPIDR_EL0 as u64, true, 0, 0)).unwrap();
    execute(&mut cpu, &mut bus, ins(Opcode::Mrs, 5, 0, 0, SYSREG_TPIDR_EL0 as u64, true, 0, 0)).unwrap();
    assert_eq!(cpu.regs.x(5), 0xDEAD_BEEF_F00D);
}

#[test]
fn tval_write_reads_back_low_word() {
    let (mut cpu, _) = setup();
    cpu.sys.cycle_count = 1000;
    cpu.sys.write_sys_reg(SYSREG_CNTP_TVAL_EL0, 0x1_0000_0010);
    assert_eq!(cpu.sys.read_sys_reg(SYSREG_CNTP_TVAL_EL0, 1), 0x10);
    assert_eq!(cpu.sys.cntp_cval_el0, 1016);
}

#[test]
fn failed_load_keeps_pc_and_reports_bus_fault() {
    let (mut cpu, mut bus) = setup();
    cpu.regs.pc = 0x4000_0100;
    cpu.regs.set_x(1, 0x1000);
    let r = execute(&mut cpu, &mut bus, ins(Opcode::Ldr, 0, 1, NO_OFFSET, 0, true, 0, 8));
    assert_eq!(r, Err(ExecError::BusFault));
    assert_eq!(cpu.regs.pc, 0x4000_0100);
    assert_eq!(cpu.sys.cycle_count, 0);
}

// --- errors ---

#[test]
fn unmapped_address_is_a_translation_fault_recorded_in_far() {
    let (mut cpu, mut bus) = setup();
    map_page(&mut cpu, &mut bus, 0x5000, RAM_BASE + 0x10_0000, DESC_VALID | DESC_AF_BIT | DESC_AP_EL0);
    cpu.regs.set_x(1, 0x9000);
    let r = execute(&mut cpu, &mut bus, ins(Opcode::Ldr, 0, 1, NO_OFFSET, 0, true, 0, 8));
    assert_eq!(r, Err(ExecError::TranslationFault));
    assert_eq!(cpu.sys.far_el1, 0x9000);
}

#[test]
fn mapped_page_translates_loads() {
    let (mut cpu, mut bus) = setup();
    map_page(&mut cpu, &mut bus, 0x5000, RAM_BASE + 0x10_0000, DESC_VALID | DESC_AF_BIT | DESC_AP_EL0);
    bus.write(RAM_BASE + 0x10_0010, 8, 0x55);
    cpu.regs.set_x(1, 0x5010);
    execute(&mut cpu, &mut bus, ins(Opcode::Ldr, 0, 1, NO_OFFSET, 0, true, 0, 8)).unwrap();
    assert_eq!(cpu.regs.x(0), 0x55);
}

#[test]
fn missing_access_flag_is_reported() {
    let (mut cpu, mut bus) = setup();
    map_page(&mut cpu, &mut bus, 0x5000, RAM_BASE + 0x10_0000, DESC_VALID | DESC_AP_EL0);
    cpu.regs.set_x(1, 0x5000);
    let r = execute(&mut cpu, &mut bus, ins(Opcode::Ldr, 0, 1, NO_OFFSET, 0, true, 0, 8));
    assert_eq!(r, Err(ExecError::AccessFlagFault));
}

#[test]
fn store_to_read_only_page_is_a_permission_fault() {
    let (mut cpu, mut bus) = setup();
    map_page(
        &mut cpu,
        &mut bus,
        0x5000,
        RAM_BASE + 0x10_0000,
        DESC_VALID | DESC_AF_BIT | DESC_AP_EL0 | DESC_AP_RO,
    );
    cpu.regs.set_x(1, 0x5000);
    let r = execute(&mut cpu, &mut bus, ins(Opcode::Str, 0, 1, NO_OFFSET, 0, true, 0, 8));
    assert_eq!(r, Err(ExecError::PermissionFault));
    execute(&mut cpu, &mut bus, ins(Opcode::Ldr, 0, 1, NO_OFFSET, 0, true, 0, 8)).unwrap();
}

#[test]
fn structure_load_with_bad_element_size_is_refused() {
    let (mut cpu, mut bus) = setup();
    cpu.regs.set_x(1, RAM_BASE);
    let r = execute(&mut cpu, &mut bus, ins(Opcode::SimdLd2, 0, 1, NO_OFFSET, 0, false, 5, 16));
    assert_eq!(r, Err(ExecError::UnsupportedSize));
}

#[test]
fn unknown_atomic_operation_is_refused() {
    let (mut cpu, mut bus) = setup();
    cpu.regs.set_x(0, RAM_BASE);
    let r = execute(&mut cpu, &mut bus, ins(Opcode::Atomic, 1, 0, 2, 9, true, 0, 8));
    assert_eq!(r, Err(ExecError::UnsupportedAtomic));
}

// --- atomics ---

#[test]
fn atomic_signed_max_compares_as_signed() {
    let (mut cpu, mut bus) = setup();
    cpu.regs.set_x(0, RAM_BASE);
    bus.write(RAM_BASE, 1, 0xF0); // -16
    cpu.regs.set_x(1, 5);
    // ldsmaxb w1, w2, [x0]
    execute(&mut cpu, &mut bus, ins(Opcode::Atomic, 2, 0, 1, 4, false, 0, 1)).unwrap();
    assert_eq!(bus.read(RAM_BASE, 1), Some(5));
    assert_eq!(cpu.regs.x(2), 0xF0);
    // ldumaxb: unsigned, 0x05 vs 0xF0
    cpu.regs.set_x(1, 0xF0);
    execute(&mut cpu, &mut bus, ins(Opcode::Atomic, 2, 0, 1, 6, false, 0, 1)).unwrap();
    assert_eq!(bus.read(RAM_BASE, 1), Some(0xF0));
}

#[test]
fn compare_and_swap_mismatch_leaves_memory() {
    let (mut cpu, mut bus) = setup();
    cpu.regs.set_x(0, RAM_BASE);
    bus.write(RAM_BASE, 8, 7);
    cpu.regs.set_x(1, 8);
    cpu.regs.set_x(2, 100);
    execute(&mut cpu, &mut bus, ins(Opcode::Cas, 1, 0, 2, 0, true, 0, 8)).unwrap();
    assert_eq!(bus.read(RAM_BASE, 8), Some(7));
    assert_eq!(cpu.regs.x(1), 7);
}

// --- bit operations ---

#[test]
fn byte_and_bit_reversals() {
    let (mut cpu, mut bus) = setup();
    cpu.regs.set_x(1, 0x0102_0304_0506_0708);
    execute(&mut cpu, &mut bus, ins(Opcode::Rev, 0, 1, 0, 0, true, 0, 0)).unwrap();
    assert_eq!(cpu.regs.x(0), 0x0807_0605_0403_0201);
    execute(&mut cpu, &mut bus, ins(Opcode::Rev, 0, 1, 0, 0, false, 0, 0)).unwrap();
    assert_eq!(cpu.regs.x(0), 0x0807_0605);
    execute(&mut cpu, &mut bus, ins(Opcode::Rev16, 0, 1, 0, 0, true, 0, 0)).unwrap();
    assert_eq!(cpu.regs.x(0), 0x0201_0403_0605_0807);
    execute(&mut cpu, &mut bus, ins(Opcode::Rev32, 0, 1, 0, 0, true, 0, 0)).unwrap();
    assert_eq!(cpu.regs.x(0), 0x0403_0201_0807_0605);
    cpu.regs.set_x(1, 1);
    execute(&mut cpu, &mut bus, ins(Opcode::Rbit, 0, 1, 0, 0, false, 0, 0)).unwrap();
    assert_eq!(cpu.regs.x(0), 0x8000_0000);
    execute(&mut cpu, &mut bus, ins(Opcode::Rbit, 0, 1, 0, 0, true, 0, 0)).unwrap();
    assert_eq!(cpu.regs.x(0), 1 << 63);
}

#[test]
fn crc32c_byte_matches_castagnoli() {
    let (mut cpu, mut bus) = setup();
    cpu.regs.set_x(1, 0xFFFF_FFFF);
    cpu.regs.set_x(2, 0x61);
    execute(&mut cpu, &mut bus, ins(Opcode::Crc32c, 0, 1, 2, 0, false, 0, 1)).unwrap();
    assert_eq!(!cpu.regs.x(0) as u32, 0xC1D0_4330);
}

#[test]
fn dc_zva_beyond_ram_is_dropped_and_gva_writes_nothing() {
    let (mut cpu, mut bus) = setup();
    bus.write(RAM_BASE + 0x20, 8, 0x77);
    cpu.regs.set_x(3, RAM_BASE + 0x25);
    execute(&mut cpu, &mut bus, ins(Opcode::DcGva, 3, 0, 0, 0, true, 0, 0)).unwrap();
    assert_eq!(bus.read(RAM_BASE + 0x20, 8), Some(0x77));
    cpu.regs.set_x(3, 0x10);
    execute(&mut cpu, &mut bus, ins(Opcode::DcZva, 3, 0, 0, 0, true, 0, 0)).unwrap();
}

// --- vector extension ---

#[test]
fn sve_element_counts_follow_the_pattern() {
    let (mut cpu, mut bus) = setup();
    // cntw x0 (ALL)
    execute(&mut cpu, &mut bus, ins(Opcode::SveCnt, 0, 0, 0, 1, true, ALL, 4)).unwrap();
    assert_eq!(cpu.regs.x(0), 8);
    // cntb x0, vl7, mul #3
    execute(&mut cpu, &mut bus, ins(Opcode::SveCnt, 0, 0, 0, 3, true, 7, 1)).unwrap();
    assert_eq!(cpu.regs.x(0), 21);
    // cntd x0, mul3 pattern: 4 elements -> 3
    execute(&mut cpu, &mut bus, ins(Opcode::SveCnt, 0, 0, 0, 1, true, 30, 8)).unwrap();
    assert_eq!(cpu.regs.x(0), 3);
    // cnth x0, pow2: 16 elements
    execute(&mut cpu, &mut bus, ins(Opcode::SveCnt, 0, 0, 0, 1, true, 0, 2)).unwrap();
    assert_eq!(cpu.regs.x(0), 16);
    // vl64 with only 32 byte elements selects none
    execute(&mut cpu, &mut bus, ins(Opcode::SveCnt, 0, 0, 0, 1, true, 11, 1)).unwrap();
    assert_eq!(cpu.regs.x(0), 0);
}

#[test]
fn sve_vector_length_arithmetic() {
    let (mut cpu, mut bus) = setup();
    // rdvl x0, #2
    execute(&mut cpu, &mut bus, ins(Opcode::SveRdvl, 0, 0, 0, 2, true, 0, 0)).unwrap();
    assert_eq!(cpu.regs.x(0), 64);
    // rdvl x0, #-1
    execute(&mut cpu, &mut bus, ins(Opcode::SveRdvl, 0, 0, 0, u64::MAX, true, 0, 0)).unwrap();
    assert_eq!(cpu.regs.x(0), (-32i64) as u64);
    cpu.regs.sp = 0x8000;
    // addvl sp, sp, #-2
    execute(&mut cpu, &mut bus, ins(Opcode::SveAddvl, 31, 31, 0, (-2i64) as u64, true, 0, 0)).unwrap();
    assert_eq!(cpu.regs.sp, 0x8000 - 64);
    // addpl x1, sp, #3
    execute(&mut cpu, &mut bus, ins(Opcode::SveAddpl, 1, 31, 0, 3, true, 0, 0)).unwrap();
    assert_eq!(cpu.regs.x(1), 0x8000 - 64 + 12);
    cpu.regs.set_x(2, 100);
    // incd x2
    execute(&mut cpu, &mut bus, ins(Opcode::SveIncScalar, 2, 0, 0, 1, true, ALL, 8)).unwrap();
    assert_eq!(cpu.regs.x(2), 104);
    // decw x2, all, mul #2
    execute(&mut cpu, &mut bus, ins(Opcode::SveDecScalar, 2, 0, 0, 2, true, ALL, 4)).unwrap();
    assert_eq!(cpu.regs.x(2), 88);
}

#[test]
fn sve_add_immediate_wraps_each_element_and_clears_the_rest() {
    let (mut cpu, mut bus) = setup();
    set_z(&mut cpu, 1, |k| (k as u8).wrapping_mul(8));
    set_z(&mut cpu, 0, |_| 0xEE);
    // add z0.b, z1.b, #16
    execute(&mut cpu, &mut bus, ins(Opcode::SveAddImm, 0, 1, 0, 16, false, 0, 1)).unwrap();
    let z = z_bytes(&cpu, 0);
    for k in 0..32 {
        assert_eq!(z[k], (k as u8).wrapping_mul(8).wrapping_add(16));
    }
    for k in 32..256 {
        assert_eq!(z[k], 0);
    }
}

#[test]
fn sve_predicated_subtract_merges_inactive_elements() {
    let (mut cpu, mut bus) = setup();
    for e in 0..8 {
        set_z_elem(&mut cpu, 1, e, 4, 100 + e as u64);
        set_z_elem(&mut cpu, 2, e, 4, 1);
    }
    cpu.sve_pred[3] = vec![false; 256];
    cpu.sve_pred[3][0] = true;
    cpu.sve_pred[3][8] = true;
    // sub z0.s, p3/m, z1.s, z2.s (destination holds z1)
    execute(&mut cpu, &mut bus, ins(Opcode::SveSubPred, 0, 1, 2, 0, false, 3, 4)).unwrap();
    assert_eq!(z_elem(&cpu, 0, 0, 4), 99);
    assert_eq!(z_elem(&cpu, 0, 1, 4), 101);
    assert_eq!(z_elem(&cpu, 0, 2, 4), 101);
    assert_eq!(z_elem(&cpu, 0, 3, 4), 103);
}

#[test]
fn sve_shifts_by_immediate() {
    let (mut cpu, mut bus) = setup();
    for e in 0..16 {
        set_z_elem(&mut cpu, 1, e, 2, 0x8010);
    }
    execute(&mut cpu, &mut bus, ins(Opcode::SveLsrImm, 0, 1, 0, 4, false, 0xFF, 2)).unwrap();
    assert_eq!(z_elem(&cpu, 0, 5, 2), 0x0801);
    execute(&mut cpu, &mut bus, ins(Opcode::SveAsrImm, 0, 1, 0, 4, false, 0xFF, 2)).unwrap();
    assert_eq!(z_elem(&cpu, 0, 5, 2), 0xF801);
    execute(&mut cpu, &mut bus, ins(Opcode::SveAsrImm, 0, 1, 0, 20, false, 0xFF, 2)).unwrap();
    assert_eq!(z_elem(&cpu, 0, 5, 2), 0xFFFF);
    execute(&mut cpu, &mut bus, ins(Opcode::SveLslImm, 0, 1, 0, 4, false, 0xFF, 2)).unwrap();
    assert_eq!(z_elem(&cpu, 0, 5, 2), 0x0100);
}

#[test]
fn sve_moves_selects_and_bitwise_vectors() {
    let (mut cpu, mut bus) = setup();
    cpu.regs.set_x(4, 0x1234_5678);
    // dup z0.h, w4
    execute(&mut cpu, &mut bus, ins(Opcode::SveDupGpr, 0, 4, 0, 0, false, 0, 2)).unwrap();
    assert_eq!(z_elem(&cpu, 0, 15, 2), 0x5678);
    set_z(&mut cpu, 1, |k| k as u8);
    cpu.sve_pred[1] = vec![false; 256];
    for k in (0..256).step_by(4) {
        cpu.sve_pred[1][k] = k % 8 == 0;
    }
    // sel z2.s, p1, z1.s, z0.s
    execute(&mut cpu, &mut bus, ins(Opcode::SveSel, 2, 1, 0, 0, false, 1, 4)).unwrap();
    assert_eq!(z_elem(&cpu, 2, 0, 4), 0x0302_0100);
    assert_eq!(z_elem(&cpu, 2, 1, 4), 0x5678_5678);
    // eor z3.d, z1.d, z1.d
    execute(&mut cpu, &mut bus, ins(Opcode::SveEorVec, 3, 1, 1, 0, false, 0, 8)).unwrap();
    assert!(z_bytes(&cpu, 3).iter().all(|b| *b == 0));
    // movprfx z5, z1
    execute(&mut cpu, &mut bus, ins(Opcode::SveMovprfx, 5, 1, 0, 0, false, 0xFF, 1)).unwrap();
    assert_eq!(z_bytes(&cpu, 5)[31], 31);
    assert_eq!(z_bytes(&cpu, 5)[32], 0);
}

#[test]
fn sve_floating_point_sign_and_exponential_helpers() {
    let (mut cpu, mut bus) = setup();
    all_true(&mut cpu, 0);
    set_z_elem(&mut cpu, 1, 0, 4, 0xBF80_0000);
    // fabs z1.s, p0/m, z1.s
    execute(&mut cpu, &mut bus, ins(Opcode::SveFpAbs, 1, 1, 0, 0, false, 0, 4)).unwrap();
    assert_eq!(z_elem(&cpu, 1, 0, 4), 0x3F80_0000);
    execute(&mut cpu, &mut bus, ins(Opcode::SveFpNeg, 1, 1, 0, 0, false, 0, 4)).unwrap();
    assert_eq!(z_elem(&cpu, 1, 0, 4), 0xBF80_0000);
    set_z_elem(&mut cpu, 2, 0, 4, 127 << 6);
    set_z_elem(&mut cpu, 2, 1, 4, (127 << 6) | 32);
    // fexpa z3.s, z2.s
    execute(&mut cpu, &mut bus, ins(Opcode::SveFpFexpa, 3, 2, 0, 0, false, 0, 4)).unwrap();
    assert_eq!(z_elem(&cpu, 3, 0, 4), 0x3F80_0000);
    assert_eq!(z_elem(&cpu, 3, 1, 4), 0x3FB5_04F3);
}

#[test]
fn sve_whilelo_builds_prefix_predicate_and_flags() {
    let (mut cpu, mut bus) = setup();
    cpu.regs.set_x(0, 5);
    cpu.regs.set_x(1, 8);
    // whilelo p2.b, x0, x1
    execute(&mut cpu, &mut bus, ins(Opcode::SveWhileLo, 2, 0, 1, 0, true, 0, 1)).unwrap();
    for k in 0..32 {
        assert_eq!(cpu.sve_pred[2][k], k < 3);
    }
    assert!(cpu.pstate.n());
    assert!(!cpu.pstate.z());
    assert!(cpu.pstate.c());
    cpu.regs.set_x(0, 9);
    execute(&mut cpu, &mut bus, ins(Opcode::SveWhileLo, 2, 0, 1, 0, true, 0, 1)).unwrap();
    assert!(!cpu.pstate.n());
    assert!(cpu.pstate.z());
}

#[test]
fn sve_compares_set_predicate_and_flags() {
    let (mut cpu, mut bus) = setup();
    all_true(&mut cpu, 0);
    for e in 0..8 {
        set_z_elem(&mut cpu, 1, e, 4, e as u64);
    }
    // cmphs p1.s, p0/z, z1.s, #3
    execute(&mut cpu, &mut bus, ins(Opcode::SveCompareHsImm, 1, 1, 0, 3, false, 0, 4)).unwrap();
    for e in 0..8 {
        assert_eq!(cpu.sve_pred[1][e * 4], e >= 3);
    }
    assert!(!cpu.pstate.n());
    assert!(!cpu.pstate.z());
    assert!(!cpu.pstate.c());
    // cmpeq p1.s, p0/z, z1.s, #-1: no element equals -1
    execute(&mut cpu, &mut bus, ins(Opcode::SveCompareEqImm, 1, 1, 0, u64::MAX, false, 0, 4)).unwrap();
    assert!(cpu.pstate.z());
}

#[test]
fn sve_unpacks_zip_table_and_index() {
    let (mut cpu, mut bus) = setup();
    set_z(&mut cpu, 1, |k| (k as u8).wrapping_mul(0x11));
    set_z(&mut cpu, 2, |k| 100 + k as u8);
    // sunpklo z0.h, z1.b
    execute(&mut cpu, &mut bus, ins(Opcode::SveSunpklo, 0, 1, 0, 0, false, 0, 2)).unwrap();
    assert_eq!(z_elem(&cpu, 0, 8, 2), 0xFF88);
    assert_eq!(z_elem(&cpu, 0, 1, 2), 0x0011);
    // uunpkhi z0.h, z1.b
    execute(&mut cpu, &mut bus, ins(Opcode::SveUunpkhi, 0, 1, 0, 0, false, 0, 2)).unwrap();
    assert_eq!(z_elem(&cpu, 0, 0, 2), 16u64 * 0x11 % 256);
    // zip1 z3.b, z1.b, z2.b
    execute(&mut cpu, &mut bus, ins(Opcode::SveZip1, 3, 1, 2, 0, false, 0, 1)).unwrap();
    assert_eq!(z_bytes(&cpu, 3)[..4], [0x00, 100, 0x11, 101]);
    // zip2 z3.b, z1.b, z2.b
    execute(&mut cpu, &mut bus, ins(Opcode::SveZip2, 3, 1, 2, 0, false, 0, 1)).unwrap();
    assert_eq!(z_bytes(&cpu, 3)[..2], [16u8.wrapping_mul(0x11), 116]);
    // tbl z4.b, {z2.b}, z5.b
    set_z(&mut cpu, 5, |k| [0u8, 31, 32, 5][k % 4]);
    execute(&mut cpu, &mut bus, ins(Opcode::SveTbl, 4, 2, 5, 1, false, 0, 1)).unwrap();
    assert_eq!(z_bytes(&cpu, 4)[..4], [100, 131, 0, 105]);
    // index z6.s, #3, #-2
    let imm = (((-2i32) as u32 as u64) << 32) | 3;
    execute(&mut cpu, &mut bus, ins(Opcode::SveIndex, 6, 0, 0, imm, false, 3, 4)).unwrap();
    assert_eq!(z_elem(&cpu, 6, 0, 4), 3);
    assert_eq!(z_elem(&cpu, 6, 3, 4), (-3i32) as u32 as u64);
    // punpklo p5.h, p4.b
    cpu.sve_pred[4] = vec![false; 256];
    cpu.sve_pred[4][1] = true;
    cpu.sve_pred[4][20] = true;
    execute(&mut cpu, &mut bus, ins(Opcode::SvePunpklo, 5, 4, 0, 0, false, 0, 0)).unwrap();
    assert!(cpu.sve_pred[5][2]);
    assert!(!cpu.sve_pred[5][0]);
    assert!(!cpu.sve_pred[5][40]);
}

#[test]
fn sve_stores_and_loads_move_predicated_elements() {
    let (mut cpu, mut bus) = setup();
    all_true(&mut cpu, 0);
    let base = RAM_BASE + 0x2000;
    cpu.regs.set_x(1, base);
    for e in 0..8 {
        set_z_elem(&mut cpu, 0, e, 4, 0x1111_1111 * (e as u64 + 1));
    }
    // st1w z0.s, p0, [x1]
    execute(&mut cpu, &mut bus, ins(Opcode::SveSt1w, 0, 1, NO_OFFSET, 0, false, 0, 4)).unwrap();
    assert_eq!(bus.read(base + 4, 4), Some(0x2222_2222));
    // st1b z0.s, p0, [x1, #1, mul vl]: 8 bytes after the first 8
    execute(&mut cpu, &mut bus, ins(Opcode::SveSt1b, 0, 1, NO_OFFSET, 1, false, 0, 4)).unwrap();
    assert_eq!(bus.read(base + 8, 1), Some(0x11));
    assert_eq!(bus.read(base + 9, 1), Some(0x22));
    // ld1w z7.s, p0/z, [x1]
    execute(&mut cpu, &mut bus, ins(Opcode::SveLd1w, 7, 1, NO_OFFSET, 0, false, 0, 4)).unwrap();
    assert_eq!(z_elem(&cpu, 7, 0, 4), 0x1111_1111);
    assert_eq!(z_elem(&cpu, 7, 2, 4), 0x4433_2211);
    // st1h z0.s, p0, [x1, x2, lsl #1]
    cpu.regs.set_x(2, 0x40);
    execute(&mut cpu, &mut bus, ins(Opcode::SveSt1h, 0, 1, 2, 0, false, 0, 4)).unwrap();
    assert_eq!(bus.read(base + 0x80, 2), Some(0x1111));
    assert_eq!(bus.read(base + 0x82, 2), Some(0x2222));
    // ld1h z8.s, p0/z, [x1, #8, mul vl]: halfwords at base + 8 * 16
    execute(&mut cpu, &mut bus, ins(Opcode::SveLd1h, 8, 1, NO_OFFSET, 8, false, 0, 4)).unwrap();
    assert_eq!(z_elem(&cpu, 8, 1, 4), 0x2222);
    // ldnt1sh z9.s, p0/z, [z10.s, x3]
    bus.write(base + 0x100, 2, 0x8001);
    set_z_elem(&mut cpu, 10, 0, 4, base + 0x100 - 0x10);
    cpu.regs.set_x(3, 0x10);
    cpu.sve_pred[6] = vec![false; 256];
    cpu.sve_pred[6][0] = true;
    execute(&mut cpu, &mut bus, ins(Opcode::SveLdnt1sh, 9, 10, 3, 0, false, 6, 4)).unwrap();
    assert_eq!(z_elem(&cpu, 9, 0, 4), 0xFFFF_8001);
    assert_eq!(z_elem(&cpu, 9, 1, 4), 0);
    // st1h z0.s, p6, [x1, z11.s, uxtw #1]
    set_z_elem(&mut cpu, 11, 0, 4, 0x90);
    execute(&mut cpu, &mut bus, ins(Opcode::SveSt1hScatter, 0, 1, 11, 3, false, 6, 4)).unwrap();
    assert_eq!(bus.read(base + 0x120, 2), Some(0x1111));
}

#[test]
fn sve_load_fault_leaves_destination() {
    let (mut cpu, mut bus) = setup();
    all_true(&mut cpu, 0);
    set_z(&mut cpu, 7, |_| 0x5A);
    cpu.regs.set_x(1, RAM_BASE + 0x0400_0000 - 8);
    let r = execute(&mut cpu, &mut bus, ins(Opcode::SveLd1w, 7, 1, NO_OFFSET, 0, false, 0, 4));
    assert_eq!(r, Err(ExecError::BusFault));
    assert_eq!(z_bytes(&cpu, 7)[0], 0x5A);
}

#[test]
fn well_formedness_checks_report_broken_state() {
    let (mut cpu, mut bus) = setup();
    assert!(cpu.check_wf());
    assert!(bus.check_wf());
    cpu.sve_vl_bytes = 24;
    assert!(!cpu.check_wf());
    cpu.sve_vl_bytes = 32;
    cpu.sve_z[5].pop();
    assert!(!cpu.check_wf());
    cpu.sve_z[5].push(0);
    assert!(cpu.check_wf());
    bus.mem.ram.pop();
    assert!(!bus.check_wf());
}

#[test]
fn simd_64bit_form_clears_upper_half_but_insert_keeps_it() {
    let (mut cpu, mut bus) = setup();
    cpu.simd[1] = 0xffff_ffff_ffff_ffff_0102_0304_0506_0708;
    cpu.simd[2] = 0xeeee_eeee_eeee_eeee_1010_1010_1010_1010;
    cpu.simd[3] = u128::MAX;
    // add v3.8b, v1.8b, v2.8b
    execute(&mut cpu, &mut bus, ins(Opcode::SimdAdd, 3, 1, 2, 0, false, 0, 1)).unwrap();
    assert_eq!(cpu.simd[3], 0x1112_1314_1516_1718);

    cpu.simd[3] = u128::MAX;
    // ins v3.b[0], v1.b[0]
    execute(&mut cpu, &mut bus, ins(Opcode::SimdIns, 3, 1, 0, 0, false, 0, 1)).unwrap();
    assert_eq!(cpu.simd[3], (u128::MAX << 8) | 0x08);
}

#[test]
fn mapped_store_then_load_returns_value() {
    let (mut cpu, mut bus) = setup();
    map_page(&mut cpu, &mut bus, 0x5000, RAM_BASE + 0x10_0000, DESC_VALID | DESC_AF_BIT | DESC_AP_EL0);
    cpu.regs.set_x(1, 0x5020);
    cpu.regs.set_x(2, 0x1122_3344_5566_7788);
    // str w2, [x1]
    execute(&mut cpu, &mut bus, ins(Opcode::Str, 2, 1, NO_OFFSET, 0, false, 0, 4)).unwrap();
    assert_eq!(bus.read(RAM_BASE + 0x10_0020, 4), Some(0x5566_7788));
    // ldr x3, [x1]
    execute(&mut cpu, &mut bus, ins(Opcode::Ldr, 3, 1, NO_OFFSET, 0, true, 0, 4)).unwrap();
    assert_eq!(cpu.regs.x(3), 0x5566_7788);
}

#[test]
fn every_completed_instruction_counts_one_cycle() {
    let (mut cpu, mut bus) = setup();
    cpu.regs.pc = 0x4000_0000;
    cpu.sys.cycle_count = 41;
    cpu.regs.set_x(1, 3);
    // add x0, x1, x1
    execute(&mut cpu, &mut bus, ins(Opcode::Add, 0, 1, 1, 0, true, 0, 0)).unwrap();
    assert_eq!(cpu.sys.cycle_count, 42);
    // b #8
    execute(&mut cpu, &mut bus, ins(Opcode::B, 0, 0, 0, 8, true, 0, 0)).unwrap();
    assert_eq!(cpu.sys.cycle_count, 43);
    assert_eq!(cpu.regs.pc, 0x4000_000c);
    // a failed load counts nothing
    cpu.regs.set_x(2, 0);
    let r = execute(&mut cpu, &mut bus, ins(Opcode::Ldr, 0, 2, NO_OFFSET, 0, true, 0, 8));
    assert_eq!(r, Err(ExecError::BusFault));
    assert_eq!(cpu.sys.cycle_count, 43);
}

#[test]
fn sve_fdup_broadcasts_expanded_immediate() {
    let (mut cpu, mut bus) = setup();
    set_z(&mut cpu, 4, |_| 0xAA);
    // fdup z4.s, #1.0 (imm8 0x70)
    execute(&mut cpu, &mut bus, ins(Opcode::SveFpDupImm, 4, 0, 0, 0x70, false, 0, 4)).unwrap();
    let vl = cpu.sve_vl_bytes;
    for e in 0..vl / 4 {
        assert_eq!(z_elem(&cpu, 4, e, 4), 0x3F80_0000);
    }
    assert!(z_bytes(&cpu, 4)[vl..].iter().all(|&b| b == 0));
    // fdup z5.h, #1.0 and z6.d, #1.0
    execute(&mut cpu, &mut bus, ins(Opcode::SveFpDupImm, 5, 0, 0, 0x70, false, 0, 2)).unwrap();
    assert_eq!(z_elem(&cpu, 5, 3, 2), 0x3C00);
    execute(&mut cpu, &mut bus, ins(Opcode::SveFpCpyImm, 6, 0, 0, 0x70, false, 0, 8)).unwrap();
    assert_eq!(z_elem(&cpu, 6, 1, 8), 0x3FF0_0000_0000_0000);
    // fdup z7.s, #-2.0 (imm8 0x80) and #0.125 (imm8 0x40)
    execute(&mut cpu, &mut bus, ins(Opcode::SveFpDupImm, 7, 0, 0, 0x80, false, 0, 4)).unwrap();
    assert_eq!(z_elem(&cpu, 7, 0, 4), 0xC000_0000);
    execute(&mut cpu, &mut bus, ins(Opcode::SveFpDupImm, 7, 0, 0, 0x40, false, 0, 4)).unwrap();
    assert_eq!(z_elem(&cpu, 7, 0, 4), 0x3E00_0000);
}

#[test]
fn hint_instructions_run_as_nop() {
    let (mut cpu, mut bus) = setup();
    cpu.regs.pc = 0x4000_0000;
    cpu.regs.set_x(30, 0x1234);
    let regs_before = cpu.regs.x(30);
    for op in [Opcode::Paciasp, Opcode::Autiasp, Opcode::Bti, Opcode::Dmb, Opcode::Isb, Opcode::Prfm] {
        let pc = cpu.regs.pc;
        execute(&mut cpu, &mut bus, ins(op, 0, 0, 0, 0, true, 0, 0)).unwrap();
        assert_eq!(cpu.regs.pc, pc + 4);
    }
    assert_eq!(cpu.regs.x(30), regs_before);
    // clrex clears a reservation
    cpu.regs.set_x(1, RAM_BASE + 0x100);
    execute(&mut cpu, &mut bus, ins(Opcode::Ldxr, 0, 1, 0, 0, true, 0, 8)).unwrap();
    assert!(cpu.exclusive.is_some());
    execute(&mut cpu, &mut bus, ins(Opcode::Clrex, 0, 0, 0, 0, true, 3, 0)).unwrap();
    assert!(cpu.exclusive.is_none());
}

#[test]
fn plain_instructions_and_untaken_branches_step_to_next() {
    let (mut cpu, mut bus) = setup();
    cpu.regs.pc = 0x4000_0000;
    cpu.sys.cycle_count = 7;
    // nop
    execute(&mut cpu, &mut bus, ins(Opcode::Nop, 0, 0, 0, 0, true, 0, 0)).unwrap();
    assert_eq!(cpu.regs.pc, 0x4000_0004);
    assert_eq!(cpu.sys.cycle_count, 8);
    // cbz x0, #8 with x0 == 1 falls through
    cpu.regs.set_x(0, 1);
    execute(&mut cpu, &mut bus, ins(Opcode::Cbz, 0, 0, 0, 8, true, 0, 0)).unwrap();
    assert_eq!(cpu.regs.pc, 0x4000_0008);
    assert_eq!(cpu.sys.cycle_count, 9);
    // str x0, [x1]
    cpu.regs.set_x(1, RAM_BASE + 0x200);
    execute(&mut cpu, &mut bus, ins(Opcode::Str, 0, 1, NO_OFFSET, 0, true, 0, 8)).unwrap();
    assert_eq!(cpu.regs.pc, 0x4000_000c);
    assert_eq!(cpu.sys.cycle_count, 10);
}

#[test]
fn failed_instruction_is_not_retired() {
    let (mut cpu, mut bus) = setup();
    cpu.regs.pc = 0x4000_0100;
    cpu.sys.cycle_count = 500;
    cpu.sys.elr_el1 = 0x4000_0abc;
    cpu.sys.vbar_el1 = 0x4008_0000;
    // a physical timer that has already fired
    cpu.sys.cntp_cval_el0 = 10;
    cpu.sys.cntp_ctl_el0 = TIMER_CTL_ENABLE;
    cpu.pstate = cpu.pstate.with_irq_masked(false);
    cpu.regs.set_x(2, 0);
    // ldr x0, [x2] faults: x2 is outside RAM
    let r = execute(&mut cpu, &mut bus, ins(Opcode::Ldr, 0, 2, NO_OFFSET, 0, true, 0, 8));
    assert_eq!(r, Err(ExecError::BusFault));
    assert_eq!(cpu.regs.pc, 0x4000_0100);
    assert_eq!(cpu.sys.cycle_count, 500);
    assert!(!cpu.sys.irq_pending);
    assert_eq!(cpu.sys.elr_el1, 0x4000_0abc);
}

#[test]
fn st4_after_ld4_restores_memory() {
    let (mut cpu, mut bus) = setup();
    let base = RAM_BASE + 0x300;
    for k in 0..64u64 {
        bus.write(base + k, 1, (k * 7 + 3) & 0xff);
    }
    cpu.regs.set_x(1, base);
    // ld4 {v4.4s-v7.4s}, [x1]
    execute(&mut cpu, &mut bus, ins(Opcode::SimdLd4, 4, 1, NO_OFFSET, 0, false, 2, 16)).unwrap();
    assert_eq!(cpu.simd[5] & 0xFFFF_FFFF, u32::from_le_bytes([31, 38, 45, 52]) as u128);
    for k in 0..64u64 {
        bus.write(base + k, 1, 0);
    }
    let regs_after_load = cpu.simd.clone();
    // st4 {v4.4s-v7.4s}, [x1]
    execute(&mut cpu, &mut bus, ins(Opcode::SimdSt4, 4, 1, NO_OFFSET, 0, false, 2, 16)).unwrap();
    for k in 0..64u64 {
        assert_eq!(bus.read(base + k, 1), Some((k * 7 + 3) & 0xff));
    }
    assert_eq!(cpu.simd, regs_after_load);
}

#[test]
fn sve_st1w_of_byte_elements_stores_words_from_each_element() {
    let (mut cpu, mut bus) = setup();
    all_true(&mut cpu, 0);
    let base = RAM_BASE + 0x3000;
    cpu.regs.set_x(1, base);
    set_z(&mut cpu, 0, |k| k as u8);
    // st1w with byte elements: element e writes bytes e..e+4 at base + 4 * e
    execute(&mut cpu, &mut bus, ins(Opcode::SveSt1w, 0, 1, NO_OFFSET, 0, false, 0, 1)).unwrap();
    assert_eq!(bus.read(base, 4), Some(0x0302_0100));
    assert_eq!(bus.read(base + 20, 4), Some(0x0807_0605));
    let last = (cpu.sve_vl_bytes - 1) as u64;
    assert_eq!(bus.read(base + 4 * last, 1), Some(last));
}

#[test]
fn sve_bytewise_forms_ignore_element_size() {
    let (mut cpu, mut bus) = setup();
    set_z(&mut cpu, 1, |k| k as u8);
    set_z(&mut cpu, 2, |_| 0xF0);
    // orr z3.d, z1.d, z2.d with a size field the byte-wise form does not use
    execute(&mut cpu, &mut bus, ins(Opcode::SveOrrVec, 3, 1, 2, 0, false, 0xFF, 0)).unwrap();
    assert_eq!(z_bytes(&cpu, 3)[5], 0xF5);
    assert_eq!(z_bytes(&cpu, 3)[cpu.sve_vl_bytes], 0);
}

#[test]
fn load_exclusive_pair_then_store_exclusive_pair_succeeds_once() {
    let (mut cpu, mut bus) = setup();
    cpu.regs.set_x(2, RAM_BASE + 0x80);
    cpu.regs.set_x(4, 0x1234);
    cpu.regs.set_x(5, 0x5678);
    // ldxp x0, x1, [x2]
    execute(&mut cpu, &mut bus, ins(Opcode::Ldxp, 0, 2, 1, 0, true, 0, 0)).unwrap();
    // stxp w3, x4, x5, [x2]
    execute(&mut cpu, &mut bus, ins(Opcode::Stxp, 4, 2, 5, 3, true, 0, 0)).unwrap();
    assert_eq!(cpu.regs.x(3), 0);
    assert_eq!(bus.read(RAM_BASE + 0x80, 8), Some(0x1234));
    assert_eq!(bus.read(RAM_BASE + 0x88, 8), Some(0x5678));
    assert_eq!(cpu.exclusive, None);
    // the same store-exclusive pair again fails and writes nothing
    cpu.regs.set_x(4, 0x9999);
    execute(&mut cpu, &mut bus, ins(Opcode::Stxp, 4, 2, 5, 3, true, 0, 0)).unwrap();
    assert_eq!(cpu.regs.x(3), 1);
    assert_eq!(bus.read(RAM_BASE + 0x80, 8), Some(0x1234));
}

#[test]
fn store_with_writeback_then_load_from_sp_returns_value() {
    let (mut cpu, mut bus) = setup();
    cpu.regs.sp = RAM_BASE + 0x1000;
    cpu.regs.set_x(0, 0x0102_0304_0506_0708);
    // str x0, [sp, #-16]!
    execute(&mut cpu, &mut bus, ins(Opcode::Str, 0, 31, NO_OFFSET, (-16i64) as u64, true, 3, 8)).unwrap();
    assert_eq!(cpu.regs.sp, RAM_BASE + 0xff0);
    // ldr x2, [sp]
    execute(&mut cpu, &mut bus, ins(Opcode::Ldr, 2, 31, NO_OFFSET, 0, true, 0, 8)).unwrap();
    assert_eq!(cpu.regs.x(2), 0x0102_0304_0506_0708);
    // ldr w3, [sp]: the value cut to the W register
    execute(&mut cpu, &mut bus, ins(Opcode::Ldr, 3, 31, NO_OFFSET, 0, false, 0, 4)).unwrap();
    assert_eq!(cpu.regs.x(3), 0x0506_0708);
}

#[test]
fn st4_after_ld4_restores_mapped_memory() {
    let (mut cpu, mut bus) = setup();
    map_page(&mut cpu, &mut bus, 0x7000, RAM_BASE + 0x20_0000, DESC_VALID | DESC_AF_BIT | DESC_AP_EL0);
    let pa = RAM_BASE + 0x20_0100;
    for k in 0..64u64 {
        bus.write(pa + k, 1, (k * 5 + 1) & 0xff);
    }
    cpu.regs.set_x(1, 0x7100);
    // ld4 {v8.8h-v11.8h}, [x1]
    execute(&mut cpu, &mut bus, ins(Opcode::SimdLd4, 8, 1, NO_OFFSET, 0, false, 1, 16)).unwrap();
    for k in 0..64u64 {
        bus.write(pa + k, 1, 0);
    }
    // st4 {v8.8h-v11.8h}, [x1]
    execute(&mut cpu, &mut bus, ins(Opcode::SimdSt4, 8, 1, NO_OFFSET, 0, false, 1, 16)).unwrap();
    for k in 0..64u64 {
        assert_eq!(bus.read(pa + k, 1), Some((k * 5 + 1) & 0xff));
    }
}
