//! Instruction-level scenarios. Each instruction is written out as the
//! decoder would produce it; the assembly is given beside it.
use emulator::constants::{
    ESR_EC_SVC64, PAGE_SIZE, PHYSICAL_TIMER_IRQ_ID, PSTATE_DAIF_MASK, PSTATE_EL_MASK, PSTATE_I_BIT,
    RAM_BASE, SYSREG_CNTKCTL_EL1, SYSREG_CNTP_TVAL_EL0, SYSREG_CNTV_CTL_EL0, SYSREG_CNTV_TVAL_EL0,
    SYSREG_DAIF, TIMER_CTL_ENABLE, TIMER_CTL_IMASK, VBAR_IRQ_CURRENT_EL, VBAR_IRQ_LOWER_EL_AARCH64,
    VBAR_SYNC_LOWER_EL_AARCH64, VIRTUAL_TIMER_IRQ_ID,
};
use emulator::cpu::Armv8Cpu;
use emulator::execute::execute;
use emulator::instr::{Instr, Opcode};
use emulator::memory::SystemBus;
use emulator::mmu::{DESC_ADDR_MASK, DESC_AF_BIT, DESC_AP_EL0, DESC_TABLE, DESC_VALID, SCTLR_MMU_ENABLE};

const NO_OFFSET: u8 = 0xFF;
const POST_INDEX: u8 = 0xFE;

fn setup() -> (Armv8Cpu, SystemBus) {
    (Armv8Cpu::new(), SystemBus::new())
}

fn ins(op: Opcode, rd: u8, rn: u8, rm: u8, imm: u64, sf: bool, cond: u8, size: u8) -> Instr {
    Instr { op, rd, rn, rm, imm, sf, cond, size }
}

fn nop() -> Instr {
    ins(Opcode::Nop, 0, 0, 0, 0, false, 0, 0)
}

fn map_two_user_pages(
    cpu: &mut Armv8Cpu,
    bus: &mut SystemBus,
    va_page: u64,
    first_pa: u64,
    second_pa: u64,
) {
    let l1 = RAM_BASE;
    let l2 = RAM_BASE + PAGE_SIZE;
    let l3 = RAM_BASE + 2 * PAGE_SIZE;
    let l1_idx = (va_page >> 30) & 0x1ff;
    let l2_idx = (va_page >> 21) & 0x1ff;
    let l3_idx = (va_page >> 12) & 0x1ff;
    let table_desc = |pa: u64| (pa & DESC_ADDR_MASK) | DESC_TABLE;
    let page_desc = |pa: u64| (pa & DESC_ADDR_MASK) | DESC_VALID | DESC_AF_BIT | DESC_AP_EL0;

    bus.mem.write(l1 + l1_idx * 8, 8, table_desc(l2));
    bus.mem.write(l2 + l2_idx * 8, 8, table_desc(l3));
    bus.mem.write(l3 + l3_idx * 8, 8, page_desc(first_pa));
    bus.mem.write(l3 + (l3_idx + 1) * 8, 8, page_desc(second_pa));

    cpu.sys.ttbr0_el1 = l1;
    cpu.sys.tcr_el1 = (25 << 16) | 25;
    cpu.sys.sctlr_el1 = SCTLR_MMU_ENABLE;
}

#[test]
fn add_x0_x1_x2() {
    let (mut cpu, mut bus) = setup();
    cpu.regs.set_x(1, 10);
    cpu.regs.set_x(2, 32);
    // add x0, x1, x2
    execute(&mut cpu, &mut bus, ins(Opcode::Add, 0, 1, 2, 0, true, 0, 0)).unwrap();
    assert_eq!(cpu.regs.x(0), 42);
}

#[test]
fn sub_x0_x1_x2() {
    let (mut cpu, mut bus) = setup();
    cpu.regs.set_x(1, 50);
    cpu.regs.set_x(2, 8);
    // sub x0, x1, x2
    execute(&mut cpu, &mut bus, ins(Opcode::Sub, 0, 1, 2, 0, true, 0, 0)).unwrap();
    assert_eq!(cpu.regs.x(0), 42);
}

#[test]
fn sbc_xzr_xzr_builds_unsigned_borrow_mask() {
    let (mut cpu, mut bus) = setup();
    // sbc x0, xzr, xzr
    let sbc = ins(Opcode::Sbc, 0, 31, 31, 0, true, 0, 0);

    cpu.pstate.set_nzcv(true, false, false, false);
    execute(&mut cpu, &mut bus, sbc).unwrap();
    assert_eq!(cpu.regs.x(0), u64::MAX);

    cpu.pstate.set_nzcv(false, false, true, false);
    execute(&mut cpu, &mut bus, sbc).unwrap();
    assert_eq!(cpu.regs.x(0), 0);
}

#[test]
fn crc32_scalar_forms_update_w_destination() {
    let (mut cpu, mut bus) = setup();

    cpu.regs.set_x(2, 0xffff_ffff_1234_5678);
    cpu.regs.set_x(5, 0xffff_ffff_ffff_00ab);
    // crc32b w2, w2, w5
    execute(&mut cpu, &mut bus, ins(Opcode::Crc32, 2, 2, 5, 0, false, 0, 1)).unwrap();
    assert_eq!(cpu.regs.x(2), 0x1fc8_b738);

    cpu.regs.set_x(2, 0xffff_ffff_1234_5678);
    cpu.regs.set_x(5, 0xffff_ffff_0000_cdef);
    // crc32h w2, w2, w5
    execute(&mut cpu, &mut bus, ins(Opcode::Crc32, 2, 2, 5, 0, false, 0, 2)).unwrap();
    assert_eq!(cpu.regs.x(2), 0x59dd_4425);

    cpu.regs.set_x(2, 0xffff_ffff_1234_5678);
    cpu.regs.set_x(3, 0xffff_ffff_89ab_cdef);
    // crc32w w2, w2, w3
    execute(&mut cpu, &mut bus, ins(Opcode::Crc32, 2, 2, 3, 0, false, 0, 4)).unwrap();
    assert_eq!(cpu.regs.x(2), 0x40d5_5215);

    cpu.regs.set_x(2, 0xffff_ffff_1234_5678);
    cpu.regs.set_x(4, 0x0123_4567_89ab_cdef);
    // crc32x w2, w2, x4
    execute(&mut cpu, &mut bus, ins(Opcode::Crc32, 2, 2, 4, 0, true, 0, 8)).unwrap();
    assert_eq!(cpu.regs.x(2), 0x9b62_eadf);
}

#[test]
fn nop_advances_pc() {
    let (mut cpu, mut bus) = setup();
    cpu.regs.pc = 0x4000_0000;
    execute(&mut cpu, &mut bus, nop()).unwrap();
    assert_eq!(cpu.regs.pc, 0x4000_0004);
}

#[test]
fn simd_ld1r_replicates_loaded_doubleword() {
    let (mut cpu, mut bus) = setup();
    let base = RAM_BASE + 0x3000;
    cpu.regs.set_x(0, base);
    bus.write(base, 8, 0x1122_3344_5566_7788);

    // ld1r {v31.2d}, [x0]
    execute(&mut cpu, &mut bus, ins(Opcode::SimdLd1r, 31, 0, NO_OFFSET, 0, false, 8, 16)).unwrap();

    assert_eq!(cpu.simd[31], 0x1122_3344_5566_7788_1122_3344_5566_7788);
}

#[test]
fn simd_scalar_byte_halfword_load_store_forms() {
    let (mut cpu, mut bus) = setup();
    let base = RAM_BASE + 0x3800;

    cpu.regs.set_x(19, base);
    cpu.simd[31] = 0x1234_5678_9abc_def0;
    // str b31, [x19, #0x6d]
    execute(&mut cpu, &mut bus, ins(Opcode::SimdStr, 31, 19, NO_OFFSET, 0x6d, false, 0, 1)).unwrap();
    assert_eq!(bus.read(base + 0x6d, 1), Some(0xf0));

    bus.write(base + 0x80, 1, 0x5a);
    cpu.regs.set_x(2, base + 0x80);
    cpu.simd[31] = u128::MAX;
    // ldr b31, [x2]
    execute(&mut cpu, &mut bus, ins(Opcode::SimdLdr, 31, 2, NO_OFFSET, 0, false, 0, 1)).unwrap();
    assert_eq!(cpu.simd[31], 0x5a);

    bus.write(base + 0x90, 2, 0xbeef);
    cpu.regs.set_x(0, base + 0x90);
    // ldr h30, [x0]
    execute(&mut cpu, &mut bus, ins(Opcode::SimdLdr, 30, 0, NO_OFFSET, 0, false, 0, 2)).unwrap();
    assert_eq!(cpu.simd[30], 0xbeef);

    cpu.regs.set_x(0, base + 0xa0);
    cpu.simd[30] = 0xabcd;
    // str h30, [x0], #2
    execute(&mut cpu, &mut bus, ins(Opcode::SimdStr, 30, 0, NO_OFFSET, 2, false, 1, 2)).unwrap();
    assert_eq!(bus.read(base + 0xa0, 2), Some(0xabcd));
    assert_eq!(cpu.regs.x(0), base + 0xa2);

    bus.write(base + 0xc0, 1, 0x5a);
    cpu.regs.set_x(3, base + 0xc0);
    cpu.simd[30] = 0x1122_3344_5566_7788;
    // ld1 {v30.b}[3], [x3]
    execute(&mut cpu, &mut bus, ins(Opcode::SimdLd1Lane, 30, 3, NO_OFFSET, 3, false, 1, 0)).unwrap();
    assert_eq!(cpu.simd[30], 0x1122_3344_5a66_7788);

    cpu.regs.set_x(19, base + 0xc8);
    cpu.simd[28] = (0xbeefu128 << 32) | 0x5555_4444;
    // st1 {v28.h}[2], [x19]
    execute(&mut cpu, &mut bus, ins(Opcode::SimdSt1Lane, 28, 19, NO_OFFSET, 2, false, 2, 0)).unwrap();
    assert_eq!(bus.read(base + 0xc8, 2), Some(0xbeef));

    cpu.regs.set_x(8, base + 0xd0);
    cpu.simd[30] = 0x8070_6050_4030_2010;
    // st1 {v30.b}[7], [x8]
    execute(&mut cpu, &mut bus, ins(Opcode::SimdSt1Lane, 30, 8, NO_OFFSET, 7, false, 1, 0)).unwrap();
    assert_eq!(bus.read(base + 0xd0, 1), Some(0x80));

    cpu.regs.set_x(7, base + 0xe0);
    cpu.simd[6] = 0x1122_3344_5566_7788;
    // st1 {v6.s}[0], [x7], #4
    execute(&mut cpu, &mut bus, ins(Opcode::SimdSt1Lane, 6, 7, POST_INDEX, 0, false, 4, 0)).unwrap();
    assert_eq!(bus.read(base + 0xe0, 4), Some(0x5566_7788));
    assert_eq!(cpu.regs.x(7), base + 0xe4);

    cpu.regs.set_x(7, base + 0xe8);
    cpu.regs.set_x(4, 12);
    cpu.simd[6] = 0xaabb_ccdd_0102_0304;
    // st1 {v6.s}[0], [x7], x4
    execute(&mut cpu, &mut bus, ins(Opcode::SimdSt1Lane, 6, 7, 4, 0, false, 4, 0)).unwrap();
    assert_eq!(bus.read(base + 0xe8, 4), Some(0x0102_0304));
    assert_eq!(cpu.regs.x(7), base + 0xf4);

    bus.write(base + 0x100, 4, 0xc001_d00d);
    cpu.regs.set_x(7, base + 0x100);
    cpu.regs.set_x(4, 20);
    cpu.simd[6] = 0xfeed_face_1122_3344;
    // ld1 {v6.s}[0], [x7], x4
    execute(&mut cpu, &mut bus, ins(Opcode::SimdLd1Lane, 6, 7, 4, 0, false, 4, 0)).unwrap();
    assert_eq!(cpu.simd[6], 0xfeed_face_c001_d00d);
    assert_eq!(cpu.regs.x(7), base + 0x114);

    cpu.regs.set_x(1, base + 0xb0);
    cpu.regs.set_x(0, 3);
    bus.write(base + 0xb6, 2, 0xcafe);
    // ldr h28, [x1, x0, lsl #1]
    execute(&mut cpu, &mut bus, ins(Opcode::SimdLdr, 28, 1, 0, 1, false, 3, 2)).unwrap();
    assert_eq!(cpu.simd[28], 0xcafe);

    cpu.simd[28] = 0xface;
    // str h28, [x1, x0, lsl #1]
    execute(&mut cpu, &mut bus, ins(Opcode::SimdStr, 28, 1, 0, 1, false, 3, 2)).unwrap();
    assert_eq!(bus.read(base + 0xb6, 2), Some(0xface));
}

#[test]
fn branch_forward_4_bytes() {
    let (mut cpu, mut bus) = setup();
    cpu.regs.pc = 0x4000_0000;
    // b #8
    execute(&mut cpu, &mut bus, ins(Opcode::B, 0, 0, 0, 8, true, 0, 0)).unwrap();
    assert_eq!(cpu.regs.pc, 0x4000_0008);
}

#[test]
fn bl_sets_lr_and_jumps() {
    let (mut cpu, mut bus) = setup();
    cpu.regs.pc = 0x4000_0000;
    // bl #8
    execute(&mut cpu, &mut bus, ins(Opcode::Bl, 0, 0, 0, 8, true, 0, 0)).unwrap();
    assert_eq!(cpu.regs.x(30), 0x4000_0004);
    assert_eq!(cpu.regs.pc, 0x4000_0008);
}

#[test]
fn ret_returns_to_lr() {
    let (mut cpu, mut bus) = setup();
    cpu.regs.set_x(30, 0x4000_0100);
    // ret
    execute(&mut cpu, &mut bus, ins(Opcode::Ret, 0, 30, 0, 0, true, 0, 0)).unwrap();
    assert_eq!(cpu.regs.pc, 0x4000_0100);
}

#[test]
fn bfm_branch_immediate_insert_preserves_opcode_bits() {
    let (mut cpu, mut bus) = setup();
    cpu.regs.set_w(0, 0x1400_0000);
    cpu.regs.set_w(1, 0x3c);

    // bfxil w0, w1, #2, #26 (bfm w0, w1, #2, #27)
    execute(&mut cpu, &mut bus, ins(Opcode::Bfm, 0, 1, 2, 27, false, 0, 0)).unwrap();

    assert_eq!(cpu.regs.w(0), 0x1400_000f);
}

#[test]
fn cbz_branches_when_zero() {
    let (mut cpu, mut bus) = setup();
    cpu.regs.pc = 0x4000_0000;
    cpu.regs.set_x(0, 0);
    // cbz x0, #8
    execute(&mut cpu, &mut bus, ins(Opcode::Cbz, 0, 0, 0, 8, true, 0, 0)).unwrap();
    assert_eq!(cpu.regs.pc, 0x4000_0008);
}

#[test]
fn cbz_falls_through_when_nonzero() {
    let (mut cpu, mut bus) = setup();
    cpu.regs.pc = 0x4000_0000;
    cpu.regs.set_x(0, 1);
    // cbz x0, #8
    execute(&mut cpu, &mut bus, ins(Opcode::Cbz, 0, 0, 0, 8, true, 0, 0)).unwrap();
    assert_eq!(cpu.regs.pc, 0x4000_0004);
}

#[test]
fn ldp_loads_pair() {
    let (mut cpu, mut bus) = setup();
    cpu.regs.set_x(1, 0x4000_0000);
    bus.mem.write(0x4000_0000, 8, 0xDEAD_BEEF);
    bus.mem.write(0x4000_0008, 8, 0xCAFE_BABE);
    // ldp x2, x3, [x1]
    execute(&mut cpu, &mut bus, ins(Opcode::Ldp, 2, 1, 3, 0, true, 2, 0)).unwrap();
    assert_eq!(cpu.regs.x(2), 0xDEAD_BEEF);
    assert_eq!(cpu.regs.x(3), 0xCAFE_BABE);
}

#[test]
fn scalar_load_store_translate_each_page_when_crossing_boundary() {
    let (mut cpu, mut bus) = setup();
    let va = 0x1ffc;
    let first_pa = RAM_BASE + 0x0100_0000;
    let second_pa = RAM_BASE + 0x0200_0000;
    map_two_user_pages(&mut cpu, &mut bus, 0x1000, first_pa, second_pa);

    bus.mem.write(first_pa + 0xffc, 4, 0x5566_7788);
    bus.mem.write(second_pa, 4, 0x1122_3344);
    cpu.regs.set_x(1, va);
    // ldr x2, [x1]
    execute(&mut cpu, &mut bus, ins(Opcode::Ldr, 2, 1, NO_OFFSET, 0, true, 0, 8)).unwrap();
    assert_eq!(cpu.regs.x(2), 0x1122_3344_5566_7788);

    bus.mem.write(first_pa + PAGE_SIZE, 4, 0xDEAD_BEEF);
    cpu.regs.set_x(0, 0xAABB_CCDD_EEFF_0011);
    // str x0, [x1]
    execute(&mut cpu, &mut bus, ins(Opcode::Str, 0, 1, NO_OFFSET, 0, true, 0, 8)).unwrap();

    assert_eq!(bus.mem.read(first_pa + 0xffc, 4), Some(0xEEFF_0011));
    assert_eq!(bus.mem.read(second_pa, 4), Some(0xAABB_CCDD));
    assert_eq!(bus.mem.read(first_pa + PAGE_SIZE, 4), Some(0xDEAD_BEEF));
}

#[test]
fn ldpsw_loads_and_sign_extends_pair() {
    let (mut cpu, mut bus) = setup();
    cpu.regs.set_x(19, 0x4000_0000);
    bus.mem.write(0x4000_0064, 4, 0xffff_fffc);
    bus.mem.write(0x4000_0068, 4, 0x7fff_fffe);

    // ldpsw x2, x4, [x19, #100]
    execute(&mut cpu, &mut bus, ins(Opcode::Ldpsw, 2, 19, 4, 0x64, true, 2, 0)).unwrap();

    assert_eq!(cpu.regs.x(2), 0xffff_ffff_ffff_fffc);
    assert_eq!(cpu.regs.x(4), 0x7fff_fffe);
}

#[test]
fn mov_reg_copies_value() {
    let (mut cpu, mut bus) = setup();
    cpu.regs.set_x(1, 0x1234_5678);
    // mov x0, x1
    execute(&mut cpu, &mut bus, ins(Opcode::MovReg, 0, 31, 1, 0, true, 0, 0)).unwrap();
    assert_eq!(cpu.regs.x(0), 0x1234_5678);
}

#[test]
fn add_imm_adds_constant() {
    let (mut cpu, mut bus) = setup();
    cpu.regs.set_x(1, 10);
    // add x0, x1, #1
    execute(&mut cpu, &mut bus, ins(Opcode::AddImm, 0, 1, 0, 1, true, 0, 0)).unwrap();
    assert_eq!(cpu.regs.x(0), 11);
}

#[test]
fn movk_merges_value() {
    let (mut cpu, mut bus) = setup();
    cpu.regs.set_x(0, 0xDEAD_BEEF_0000_0000);
    // movk x0, #0x1234
    execute(&mut cpu, &mut bus, ins(Opcode::Movk, 0, 0, 0, 0x1234, true, 0, 0)).unwrap();
    assert_eq!(cpu.regs.x(0), 0xDEAD_BEEF_0000_1234);
}

#[test]
fn adrp_sets_page_relative() {
    let (mut cpu, mut bus) = setup();
    cpu.regs.pc = 0x4000_0400;
    // adrp x0, #0
    execute(&mut cpu, &mut bus, ins(Opcode::Adrp, 0, 0, 0, 0, true, 0, 0)).unwrap();
    assert_eq!(cpu.regs.x(0), 0x4000_0000);
}

#[test]
fn tbz_branches_when_bit_clear() {
    let (mut cpu, mut bus) = setup();
    cpu.regs.pc = 0x4000_0000;
    cpu.regs.set_x(0, 0b110);
    // tbz w0, #0, #4
    execute(&mut cpu, &mut bus, ins(Opcode::Tbz, 0, 0, 0, 4, false, 0, 0)).unwrap();
    assert_eq!(cpu.regs.pc, 0x4000_0004);
}

#[test]
fn cmp_sets_flags() {
    let (mut cpu, mut bus) = setup();
    cpu.regs.set_x(2, 10);
    cpu.regs.set_x(3, 5);
    // cmp x3, x2
    execute(&mut cpu, &mut bus, ins(Opcode::Compare, 31, 3, 2, 0, true, 0, 0)).unwrap();
    assert!(!cpu.pstate.z());
    assert!(cpu.pstate.n());
}

#[test]
fn cmp_equal_sets_z() {
    let (mut cpu, mut bus) = setup();
    cpu.regs.set_x(2, 5);
    cpu.regs.set_x(3, 5);
    // cmp x3, x2
    execute(&mut cpu, &mut bus, ins(Opcode::Compare, 31, 3, 2, 0, true, 0, 0)).unwrap();
    assert!(cpu.pstate.z());
    assert!(!cpu.pstate.n());
}

#[test]
fn cmp_less_than_sets_n() {
    let (mut cpu, mut bus) = setup();
    cpu.regs.set_x(2, 3);
    cpu.regs.set_x(3, 10);
    // cmp x3, x2
    execute(&mut cpu, &mut bus, ins(Opcode::Compare, 31, 3, 2, 0, true, 0, 0)).unwrap();
    assert!(!cpu.pstate.n());
    assert!(!cpu.pstate.z());
}

#[test]
fn cmp_extended_uses_sp_base() {
    let (mut cpu, mut bus) = setup();
    cpu.regs.sp = 0x4000_0000;
    cpu.regs.set_x(2, 0x4000_0000);

    // cmp sp, x2, uxtx
    execute(&mut cpu, &mut bus, ins(Opcode::Compare, 31, 31, 2, 0, true, 0x8 | 3, 0)).unwrap();

    assert!(cpu.pstate.z());
}

#[test]
fn cmp_immediate_uses_sp_base() {
    let (mut cpu, mut bus) = setup();
    cpu.regs.sp = 0x10;

    // cmp sp, #16
    execute(&mut cpu, &mut bus, ins(Opcode::CompareImm, 31, 31, 0, 16, true, 0, 0)).unwrap();

    assert!(cpu.pstate.z());
}

#[test]
fn str_wzr_sp_60() {
    let (mut cpu, mut bus) = setup();
    cpu.regs.sp = 0x4000_0000;
    // str wzr, [sp, #60]
    execute(&mut cpu, &mut bus, ins(Opcode::Str, 31, 31, NO_OFFSET, 60, false, 0, 4)).unwrap();
    assert_eq!(bus.mem.read(0x4000_003C, 4), Some(0));
}

#[test]
fn dc_zva_zeroes_aligned_block() {
    let (mut cpu, mut bus) = setup();
    cpu.regs.set_x(3, RAM_BASE + 13);
    bus.mem.write(RAM_BASE, 8, 0x1111_2222_3333_4444);
    bus.mem.write(RAM_BASE + 8, 8, 0x5555_6666_7777_8888);
    bus.mem.write(RAM_BASE + 16, 8, 0x9999_AAAA_BBBB_CCCC);

    // dc zva, x3
    let instr = ins(Opcode::DcZva, 3, 0, 0, 0, true, 0, 0);
    assert_eq!(instr.op, Opcode::DcZva);
    execute(&mut cpu, &mut bus, instr).unwrap();

    assert_eq!(bus.mem.read(RAM_BASE, 8), Some(0));
    assert_eq!(bus.mem.read(RAM_BASE + 8, 8), Some(0));
    assert_eq!(bus.mem.read(RAM_BASE + 16, 8), Some(0x9999_AAAA_BBBB_CCCC));
}

#[test]
fn ldr_str_roundtrip() {
    let (mut cpu, mut bus) = setup();
    cpu.regs.set_x(1, 0x4000_0000);
    cpu.regs.set_x(0, 0xCAFE_0000_DEAD_BEEF);
    // str x0, [x1]
    execute(&mut cpu, &mut bus, ins(Opcode::Str, 0, 1, NO_OFFSET, 0, true, 0, 8)).unwrap();
    assert_eq!(bus.mem.read(0x4000_0000, 8), Some(0xCAFE_0000_DEAD_BEEF));
    // ldr x2, [x1]
    execute(&mut cpu, &mut bus, ins(Opcode::Ldr, 2, 1, NO_OFFSET, 0, true, 0, 8)).unwrap();
    assert_eq!(cpu.regs.x(2), 0xCAFE_0000_DEAD_BEEF);
}

#[test]
fn ccmp_immediate_compares_literal() {
    let (mut cpu, mut bus) = setup();
    cpu.regs.set_w(5, 0);
    cpu.pstate.set_nzcv(false, false, false, false); // GE is true
    // ccmp w5, #0, #0, ge
    execute(&mut cpu, &mut bus, ins(Opcode::CondCompare, 0, 5, 0, 0x100, false, 0xA, 0)).unwrap();
    assert!(cpu.pstate.z());
}

#[test]
fn ccmn_immediate_adds_literal() {
    let (mut cpu, mut bus) = setup();
    cpu.regs.set_w(11, 0xffff_fff8);
    cpu.pstate.set_nzcv(false, true, false, false); // EQ is true
    // ccmn w11, #8, #0, eq
    execute(&mut cpu, &mut bus, ins(Opcode::CondCompareNeg, 0, 11, 8, 0x100, false, 0, 0)).unwrap();
    assert!(cpu.pstate.z());
    assert!(cpu.pstate.c());
}

#[test]
fn ldrsw_sign_extends_to_x_register() {
    let (mut cpu, mut bus) = setup();
    cpu.regs.sp = 0x4000_0000;
    bus.mem.write(0x4000_0024, 4, 0xffff_fffc);
    // ldrsw x25, [sp, #36]
    execute(&mut cpu, &mut bus, ins(Opcode::LdrSign, 25, 31, NO_OFFSET, 0x24, true, 0, 4)).unwrap();
    assert_eq!(cpu.regs.x(25), 0xffff_ffff_ffff_fffc);
}

#[test]
fn daifset_and_daifclr_update_irq_mask() {
    let (mut cpu, mut bus) = setup();
    cpu.pstate = cpu.pstate.with_el(1).with_irq_masked(false);

    // msr daifset, #2
    execute(&mut cpu, &mut bus, ins(Opcode::Nop, 0, 0, 0, 2, false, 1, 0)).unwrap();
    assert!(cpu.pstate.irq_masked());

    // msr daifclr, #2
    execute(&mut cpu, &mut bus, ins(Opcode::Nop, 0, 0, 0, 2, false, 2, 0)).unwrap();
    assert!(!cpu.pstate.irq_masked());
}

#[test]
fn mrs_daif_reads_current_interrupt_mask() {
    let (mut cpu, mut bus) = setup();
    cpu.pstate = cpu.pstate.with_el(1).with_irq_masked(true);

    // mrs x0, daif
    execute(&mut cpu, &mut bus, ins(Opcode::Mrs, 0, 0, 0, SYSREG_DAIF as u64, true, 0, 0)).unwrap();

    assert_eq!(cpu.regs.x(0) & (1 << PSTATE_I_BIT), 1 << PSTATE_I_BIT);
}

#[test]
fn extr_executes_32_bit_rotate_alias() {
    let (mut cpu, mut bus) = setup();
    cpu.regs.set_w(1, 0x1234_5678);

    // ror w0, w1, #2 (extr w0, w1, w1, #2)
    execute(&mut cpu, &mut bus, ins(Opcode::Extr, 0, 1, 1, 2, false, 0, 0)).unwrap();

    assert_eq!(cpu.regs.w(0), 0x1234_5678u32.rotate_right(2));
}

#[test]
fn extr_executes_32_bit_register_pair_extract() {
    let (mut cpu, mut bus) = setup();
    cpu.regs.set_w(3, 0x1122_3344);
    cpu.regs.set_w(4, 0x5566_7788);

    // extr w2, w3, w4, #7
    execute(&mut cpu, &mut bus, ins(Opcode::Extr, 2, 3, 4, 7, false, 0, 0)).unwrap();

    let expected = (0x5566_7788u32 >> 7) | (0x1122_3344u32 << 25);
    assert_eq!(cpu.regs.w(2), expected);
}

#[test]
fn msr_daif_restores_all_daif_mask_bits() {
    let (mut cpu, mut bus) = setup();
    cpu.pstate = cpu.pstate.with_el(1).with_irq_masked(false);
    cpu.regs.set_x(0, PSTATE_DAIF_MASK);

    execute(
        &mut cpu,
        &mut bus,
        Instr {
            op: Opcode::Msr,
            rd: 0,
            rn: 0,
            rm: 0,
            imm: SYSREG_DAIF as u64,
            sf: true,
            cond: 0,
            size: 0,
        },
    )
    .unwrap();

    assert_eq!(cpu.pstate.daif(), PSTATE_DAIF_MASK);
    assert!(cpu.pstate.irq_masked());
}

#[test]
fn svc_from_el0_sets_syndrome_and_banks_stack() {
    let (mut cpu, mut bus) = setup();
    cpu.regs.pc = 0x4000_0000;
    cpu.regs.sp = 0x7000_0000;
    cpu.sys.sp_el1 = 0x8000_0000;
    cpu.sys.vbar_el1 = 0xffff_8000_8000_0000;
    cpu.pstate = cpu.pstate.with_el(0).with_irq_masked(false);

    // svc #0x123
    execute(&mut cpu, &mut bus, ins(Opcode::Svc, 0, 0, 0, 0x123, true, 0, 0)).unwrap();

    assert_eq!(cpu.regs.pc, cpu.sys.vbar_el1 + VBAR_SYNC_LOWER_EL_AARCH64);
    assert_eq!(cpu.sys.elr_el1, 0x4000_0004);
    assert_eq!(cpu.sys.spsr_el1 & PSTATE_EL_MASK, 0);
    assert_eq!(cpu.sys.esr_el1 >> 26, ESR_EC_SVC64);
    assert_eq!(cpu.sys.esr_el1 & 0xffff, 0x123);
    assert_eq!(cpu.sys.sp_el0, 0x7000_0000);
    assert_eq!(cpu.regs.sp, 0x8000_0000);
    assert_eq!(cpu.pstate.el(), 1);
    assert_eq!(cpu.pstate.daif(), PSTATE_DAIF_MASK);
}

#[test]
fn eret_to_el0_restores_user_stack_and_saves_kernel_stack() {
    let (mut cpu, mut bus) = setup();
    cpu.regs.pc = 0xffff_8000_8000_0400;
    cpu.regs.sp = 0xffff_0000_0000_8000;
    cpu.sys.sp_el0 = 0x0000_ffff_ff00_7000;
    cpu.sys.elr_el1 = 0x0000_aaaa_bbbb_c000;
    cpu.sys.spsr_el1 = cpu.pstate.with_el(0).with_irq_masked(false).to_u64();
    cpu.pstate = cpu.pstate.with_el(1).with_irq_masked(true);

    // eret
    execute(&mut cpu, &mut bus, ins(Opcode::Eret, 0, 0, 0, 0, true, 0, 0)).unwrap();

    assert_eq!(cpu.regs.pc, 0x0000_aaaa_bbbb_c000);
    assert_eq!(cpu.pstate.el(), 0);
    assert_eq!(cpu.regs.sp, 0x0000_ffff_ff00_7000);
    assert_eq!(cpu.sys.sp_el1, 0xffff_0000_0000_8000);
}

#[test]
fn timer_irq_uses_current_el_spx_vector() {
    let (mut cpu, mut bus) = setup();
    cpu.regs.pc = 0x4000_0000;
    cpu.sys.vbar_el1 = 0xffff_8000_8000_0000;
    cpu.sys.cycle_count = 10_001;
    cpu.sys.cntp_ctl_el0 = TIMER_CTL_ENABLE;
    cpu.sys.cntp_cval_el0 = 10_001;
    cpu.sys.cntp_tval_el0 = 0;
    cpu.pstate = cpu.pstate.with_el(1).with_irq_masked(false);

    execute(&mut cpu, &mut bus, nop()).unwrap();

    assert_eq!(cpu.regs.pc, cpu.sys.vbar_el1 + VBAR_IRQ_CURRENT_EL);
    assert!(cpu.sys.irq_pending);
    assert_eq!(cpu.sys.last_irq_id, PHYSICAL_TIMER_IRQ_ID);
}

#[test]
fn timer_irq_from_el0_uses_lower_vector_and_banks_stack() {
    let (mut cpu, mut bus) = setup();
    cpu.regs.pc = 0x4000_0000;
    cpu.regs.sp = 0x7000_0000;
    cpu.sys.sp_el1 = 0x8000_0000;
    cpu.sys.vbar_el1 = 0xffff_8000_8000_0000;
    cpu.sys.cycle_count = 10_001;
    cpu.sys.cntp_ctl_el0 = TIMER_CTL_ENABLE;
    cpu.sys.cntp_cval_el0 = 10_001;
    cpu.pstate = cpu.pstate.with_el(0).with_irq_masked(false);

    execute(&mut cpu, &mut bus, nop()).unwrap();

    assert_eq!(cpu.regs.pc, cpu.sys.vbar_el1 + VBAR_IRQ_LOWER_EL_AARCH64);
    assert_eq!(cpu.sys.spsr_el1 & PSTATE_EL_MASK, 0);
    assert_eq!(cpu.sys.sp_el0, 0x7000_0000);
    assert_eq!(cpu.regs.sp, 0x8000_0000);
    assert!(cpu.sys.irq_pending);
    assert_eq!(cpu.sys.last_irq_id, PHYSICAL_TIMER_IRQ_ID);
}

#[test]
fn virtual_timer_irq_uses_virtual_ppi() {
    let (mut cpu, mut bus) = setup();
    cpu.regs.pc = 0x4000_0000;
    cpu.sys.vbar_el1 = 0xffff_8000_8000_0000;
    cpu.sys.cycle_count = 10_001;
    cpu.sys.cntv_ctl_el0 = TIMER_CTL_ENABLE;
    cpu.sys.cntv_cval_el0 = 10_001;
    cpu.pstate = cpu.pstate.with_el(1).with_irq_masked(false);

    execute(&mut cpu, &mut bus, nop()).unwrap();

    assert_eq!(cpu.regs.pc, cpu.sys.vbar_el1 + VBAR_IRQ_CURRENT_EL);
    assert!(cpu.sys.irq_pending);
    assert_eq!(cpu.sys.last_irq_id, VIRTUAL_TIMER_IRQ_ID);
}

#[test]
fn virtual_timer_sysregs_track_tval_ctl_and_cntkctl() {
    let (mut cpu, _) = setup();
    cpu.sys.cycle_count = 100;
    cpu.sys.write_sys_reg(SYSREG_CNTV_TVAL_EL0, 25);
    cpu.sys.write_sys_reg(SYSREG_CNTV_CTL_EL0, TIMER_CTL_ENABLE);
    cpu.sys.write_sys_reg(SYSREG_CNTKCTL_EL1, 0x1234);

    assert_eq!(cpu.sys.cntv_cval_el0, 125);
    assert_eq!(cpu.sys.read_sys_reg(SYSREG_CNTV_CTL_EL0, 1), TIMER_CTL_ENABLE);
    assert_eq!(cpu.sys.read_sys_reg(SYSREG_CNTKCTL_EL1, 1), 0x1234);
}

#[test]
fn timer_tval_reads_count_down_and_accept_signed_deadlines() {
    let (mut cpu, _) = setup();
    cpu.sys.cycle_count = 100;

    cpu.sys.write_sys_reg(SYSREG_CNTP_TVAL_EL0, 25);
    cpu.sys.cycle_count = 110;
    assert_eq!(cpu.sys.read_sys_reg(SYSREG_CNTP_TVAL_EL0, 1), 15);

    cpu.sys.write_sys_reg(SYSREG_CNTV_TVAL_EL0, u32::MAX as u64);
    assert_eq!(cpu.sys.cntv_cval_el0, 109);
    assert_eq!(cpu.sys.read_sys_reg(SYSREG_CNTV_TVAL_EL0, 1), u32::MAX as u64);
}

#[test]
fn masked_timers_do_not_wake_wfi_deadline() {
    let (mut cpu, _) = setup();
    cpu.sys.cycle_count = 100;
    cpu.sys.cntv_cval_el0 = 125;
    cpu.sys.cntv_ctl_el0 = TIMER_CTL_ENABLE | TIMER_CTL_IMASK;

    assert_eq!(cpu.sys.next_timer_deadline(), None);
}

#[test]
fn disabled_timer_does_not_deliver_irq() {
    let (mut cpu, mut bus) = setup();
    cpu.regs.pc = 0x4000_0000;
    cpu.sys.vbar_el1 = 0xffff_8000_8000_0000;
    cpu.sys.cycle_count = 10_001;
    cpu.sys.cntp_cval_el0 = 10_001;
    cpu.pstate = cpu.pstate.with_el(1).with_irq_masked(false);

    execute(&mut cpu, &mut bus, nop()).unwrap();

    assert_eq!(cpu.regs.pc, 0x4000_0004);
    assert!(!cpu.sys.irq_pending);
}

#[test]
fn casa_updates_memory_on_match_and_returns_old() {
    let (mut cpu, mut bus) = setup();
    cpu.regs.set_x(0, 0x4000_0000);
    cpu.regs.set_w(1, 0x1111_2222);
    cpu.regs.set_w(2, 0x3333_4444);
    bus.mem.write(0x4000_0000, 4, 0x1111_2222);

    // casa w1, w2, [x0]
    execute(&mut cpu, &mut bus, ins(Opcode::Cas, 1, 0, 2, 0, false, 0, 4)).unwrap();

    assert_eq!(bus.mem.read(0x4000_0000, 4), Some(0x3333_4444));
    assert_eq!(cpu.regs.x(1), 0x1111_2222);
}

#[test]
fn caspal_updates_pair_on_match_and_returns_old_pair() {
    let (mut cpu, mut bus) = setup();
    cpu.regs.set_x(4, 0x4000_0000);
    cpu.regs.set_x(0, 0x1111_2222_3333_4444);
    cpu.regs.set_x(1, 0x5555_6666_7777_8888);
    cpu.regs.set_x(2, 0xAAAA_BBBB_CCCC_DDDD);
    cpu.regs.set_x(3, 0xEEEE_FFFF_0000_1111);
    bus.mem.write(0x4000_0000, 8, 0x1111_2222_3333_4444);
    bus.mem.write(0x4000_0008, 8, 0x5555_6666_7777_8888);

    // caspal x0, x1, x2, x3, [x4]
    execute(&mut cpu, &mut bus, ins(Opcode::Casp, 0, 4, 2, 0, true, 0, 8)).unwrap();

    assert_eq!(bus.mem.read(0x4000_0000, 8), Some(0xAAAA_BBBB_CCCC_DDDD));
    assert_eq!(bus.mem.read(0x4000_0008, 8), Some(0xEEEE_FFFF_0000_1111));
    assert_eq!(cpu.regs.x(0), 0x1111_2222_3333_4444);
    assert_eq!(cpu.regs.x(1), 0x5555_6666_7777_8888);
}

#[test]
fn ldaddal_adds_and_returns_old() {
    let (mut cpu, mut bus) = setup();
    cpu.regs.set_x(0, 0x4000_0000);
    cpu.regs.set_w(1, 5);
    bus.mem.write(0x4000_0000, 4, 7);

    // ldaddal w1, w1, [x0]
    execute(&mut cpu, &mut bus, ins(Opcode::Atomic, 1, 0, 1, 0, false, 0, 4)).unwrap();

    assert_eq!(bus.mem.read(0x4000_0000, 4), Some(12));
    assert_eq!(cpu.regs.x(1), 7);
}

#[test]
fn ldseta_sets_bits_and_returns_old() {
    let (mut cpu, mut bus) = setup();
    cpu.regs.set_x(19, 0x4000_0000);
    cpu.regs.set_x(0, 0b1010);
    bus.mem.write(0x4000_0000, 8, 0b0101);

    // ldseta x0, x0, [x19]
    execute(&mut cpu, &mut bus, ins(Opcode::Atomic, 0, 19, 0, 3, true, 0, 8)).unwrap();

    assert_eq!(bus.mem.read(0x4000_0000, 8), Some(0b1111));
    assert_eq!(cpu.regs.x(0), 0b0101);
}

#[test]
fn ldxp_stlxp_pair_roundtrip() {
    let (mut cpu, mut bus) = setup();
    cpu.regs.set_x(2, 0x4000_0000);
    cpu.regs.set_x(0, 0xAAAA);
    cpu.regs.set_x(1, 0xBBBB);
    cpu.reserve_exclusive(0x4000_0000, 16);

    // stlxp w3, x0, x1, [x2]
    execute(&mut cpu, &mut bus, ins(Opcode::Stxp, 0, 2, 1, 3, true, 0, 0)).unwrap();

    assert_eq!(bus.mem.read(0x4000_0000, 8), Some(0xAAAA));
    assert_eq!(bus.mem.read(0x4000_0008, 8), Some(0xBBBB));
    assert_eq!(cpu.regs.x(3), 0);

    cpu.regs.set_x(0, 0);
    cpu.regs.set_x(1, 0);
    // ldxp x0, x1, [x2]
    execute(&mut cpu, &mut bus, ins(Opcode::Ldxp, 0, 2, 1, 0, true, 0, 0)).unwrap();

    assert_eq!(cpu.regs.x(0), 0xAAAA);
    assert_eq!(cpu.regs.x(1), 0xBBBB);
}

fn vector_bytes(offset: u64) -> u128 {
    let mut value = 0u128;
    for lane in 0..16u64 {
        value |= ((lane + offset) as u128) << (lane * 8);
    }
    value
}

fn ld_structure_vector_bytes(
    first_byte: u64,
    structure_count: u64,
    structure_index: u64,
    element_size: u64,
    lanes: u64,
) -> u128 {
    let mut value = 0u128;
    for lane in 0..lanes {
        for byte_index in 0..element_size {
            let byte =
                first_byte + (lane * structure_count + structure_index) * element_size + byte_index;
            value |= (byte as u128) << ((lane * element_size + byte_index) * 8);
        }
    }
    value
}

#[test]
fn simd_ld1_and_st1_multi_load_consecutive_vectors() {
    let (mut cpu, mut bus) = setup();
    let base = RAM_BASE + 0x1000;
    cpu.regs.set_x(1, base);
    for byte in 0..32u64 {
        bus.write(base + byte, 1, byte);
    }

    // ld1 {v30.16b, v31.16b}, [x1]
    execute(&mut cpu, &mut bus, ins(Opcode::SimdLd1Multi, 30, 1, NO_OFFSET, 0, false, 2, 16)).unwrap();

    assert_eq!(cpu.simd[30], vector_bytes(0));
    assert_eq!(cpu.simd[31], vector_bytes(16));

    let ld1_post_multi_base = RAM_BASE + 0x2c00;
    cpu.regs.set_x(1, ld1_post_multi_base);
    for byte in 0..32u64 {
        bus.write(ld1_post_multi_base + byte, 1, 0x20 + byte);
    }
    // ld1 {v28.16b, v29.16b}, [x1], #32
    execute(&mut cpu, &mut bus, ins(Opcode::SimdLd1Multi, 28, 1, POST_INDEX, 32, false, 2, 16)).unwrap();
    assert_eq!(cpu.simd[28], vector_bytes(0x20));
    assert_eq!(cpu.simd[29], vector_bytes(0x30));
    assert_eq!(cpu.regs.x(1), ld1_post_multi_base + 32);

    let ld1_post_reg_base = RAM_BASE + 0x3000;
    cpu.regs.set_x(0, ld1_post_reg_base);
    cpu.regs.set_x(8, 40);
    for byte in 0..16u64 {
        bus.write(ld1_post_reg_base + byte, 1, 0xc0 + byte);
    }
    // ld1 {v0.16b}, [x0], x8
    execute(&mut cpu, &mut bus, ins(Opcode::SimdLd1, 0, 0, 8, 0, false, 0, 16)).unwrap();
    assert_eq!(cpu.simd[0], vector_bytes(0xc0));
    assert_eq!(cpu.regs.x(0), ld1_post_reg_base + 40);

    let ld2_base = RAM_BASE + 0x3400;
    cpu.regs.set_x(1, ld2_base);
    for byte in 0..32u64 {
        bus.write(ld2_base + byte, 1, byte);
    }
    // ld2 {v28.16b, v29.16b}, [x1]
    execute(&mut cpu, &mut bus, ins(Opcode::SimdLd2, 28, 1, NO_OFFSET, 0, false, 0, 16)).unwrap();
    assert_eq!(cpu.simd[28], ld_structure_vector_bytes(0, 2, 0, 1, 16));
    assert_eq!(cpu.simd[29], ld_structure_vector_bytes(0, 2, 1, 1, 16));

    let ld3_post_imm_base = RAM_BASE + 0x3800;
    cpu.regs.set_x(2, ld3_post_imm_base);
    for byte in 0..48u64 {
        bus.write(ld3_post_imm_base + byte, 1, 0x50 + byte);
    }
    // ld3 {v26.2d-v28.2d}, [x2], #48
    execute(&mut cpu, &mut bus, ins(Opcode::SimdLd3, 26, 2, POST_INDEX, 48, false, 3, 16)).unwrap();
    assert_eq!(cpu.simd[26], ld_structure_vector_bytes(0x50, 3, 0, 8, 2));
    assert_eq!(cpu.simd[28], ld_structure_vector_bytes(0x50, 3, 2, 8, 2));
    assert_eq!(cpu.regs.x(2), ld3_post_imm_base + 48);

    let ld4_base = RAM_BASE + 0x1400;
    cpu.regs.set_x(1, ld4_base);
    for byte in 0..64u64 {
        bus.write(ld4_base + byte, 1, byte);
    }
    // ld4 {v28.16b-v31.16b}, [x1]
    execute(&mut cpu, &mut bus, ins(Opcode::SimdLd4, 28, 1, NO_OFFSET, 0, false, 0, 16)).unwrap();
    assert_eq!(cpu.simd[28], 0x3c38_3430_2c28_2420_1c18_1410_0c08_0400);
    assert_eq!(cpu.simd[29], 0x3d39_3531_2d29_2521_1d19_1511_0d09_0501);
    assert_eq!(cpu.simd[30], 0x3e3a_3632_2e2a_2622_1e1a_1612_0e0a_0602);
    assert_eq!(cpu.simd[31], 0x3f3b_3733_2f2b_2723_1f1b_1713_0f0b_0703);

    let ld4_post_imm_base = RAM_BASE + 0x1600;
    cpu.regs.set_x(1, ld4_post_imm_base);
    for byte in 0..64u64 {
        bus.write(ld4_post_imm_base + byte, 1, 0x40 + byte);
    }
    // ld4 {v28.16b-v31.16b}, [x1], #64
    execute(&mut cpu, &mut bus, ins(Opcode::SimdLd4, 28, 1, POST_INDEX, 64, false, 0, 16)).unwrap();
    assert_eq!(cpu.simd[28], ld_structure_vector_bytes(0x40, 4, 0, 1, 16));
    assert_eq!(cpu.simd[31], ld_structure_vector_bytes(0x40, 4, 3, 1, 16));
    assert_eq!(cpu.regs.x(1), ld4_post_imm_base + 64);

    let ld4_post_reg_base = RAM_BASE + 0x1c00;
    cpu.regs.set_x(1, ld4_post_reg_base);
    cpu.regs.set_x(2, 96);
    for byte in 0..64u64 {
        bus.write(ld4_post_reg_base + byte, 1, 0x80 + byte);
    }
    // ld4 {v28.16b-v31.16b}, [x1], x2
    execute(&mut cpu, &mut bus, ins(Opcode::SimdLd4, 28, 1, 2, 0, false, 0, 16)).unwrap();
    assert_eq!(cpu.simd[28], ld_structure_vector_bytes(0x80, 4, 0, 1, 16));
    assert_eq!(cpu.simd[31], ld_structure_vector_bytes(0x80, 4, 3, 1, 16));
    assert_eq!(cpu.regs.x(1), ld4_post_reg_base + 96);

    let post_index_base = RAM_BASE + 0x1800;
    cpu.regs.set_x(16, post_index_base);
    for byte in 0..16u64 {
        bus.write(post_index_base + byte, 1, 0xa0 + byte);
    }
    // ld1 {v4.16b}, [x16], #16
    execute(&mut cpu, &mut bus, ins(Opcode::SimdLd1, 4, 16, POST_INDEX, 16, false, 0, 16)).unwrap();
    assert_eq!(cpu.simd[4], 0xafaeadac_abaaa9a8_a7a6a5a4_a3a2a1a0);
    assert_eq!(cpu.regs.x(16), post_index_base + 16);

    let out = RAM_BASE + 0x2000;
    cpu.regs.set_x(22, out);
    cpu.simd[30] = 0x0f0e_0d0c_0b0a_0908_0706_0504_0302_0100;
    cpu.simd[31] = 0x1f1e_1d1c_1b1a_1918_1716_1514_1312_1110;

    // st1 {v30.16b, v31.16b}, [x22]
    execute(&mut cpu, &mut bus, ins(Opcode::SimdSt1Multi, 30, 22, NO_OFFSET, 0, false, 2, 16)).unwrap();

    for byte in 0..32u64 {
        assert_eq!(bus.read(out + byte, 1), Some(byte));
    }

    let post_index_out = RAM_BASE + 0x2400;
    cpu.regs.set_x(17, post_index_out);
    cpu.simd[4] = 0x8f8e_8d8c_8b8a_8988_8786_8584_8382_8180;
    cpu.simd[5] = 0x9f9e_9d9c_9b9a_9998_9796_9594_9392_9190;

    // st1 {v4.16b, v5.16b}, [x17], #32
    execute(&mut cpu, &mut bus, ins(Opcode::SimdSt1Multi, 4, 17, POST_INDEX, 32, false, 2, 16)).unwrap();

    for byte in 0..32u64 {
        assert_eq!(bus.read(post_index_out + byte, 1), Some(0x80 + byte));
    }
    assert_eq!(cpu.regs.x(17), post_index_out + 32);

    let st1_one_out = RAM_BASE + 0x2800;
    cpu.regs.set_x(17, st1_one_out);
    cpu.simd[4] = vector_bytes(0x40);

    // st1 {v4.4s}, [x17], #16
    execute(&mut cpu, &mut bus, ins(Opcode::SimdSt1Multi, 4, 17, POST_INDEX, 16, false, 1, 16)).unwrap();

    for byte in 0..16u64 {
        assert_eq!(bus.read(st1_one_out + byte, 1), Some(0x40 + byte));
    }
    assert_eq!(cpu.regs.x(17), st1_one_out + 16);

    let st1_one_no_offset_out = RAM_BASE + 0x3c00;
    cpu.regs.set_x(1, st1_one_no_offset_out);
    cpu.simd[0] = vector_bytes(0x60);
    // st1 {v0.16b}, [x1]
    execute(&mut cpu, &mut bus, ins(Opcode::SimdSt1Multi, 0, 1, NO_OFFSET, 0, false, 1, 16)).unwrap();
    for byte in 0..16u64 {
        assert_eq!(bus.read(st1_one_no_offset_out + byte, 1), Some(0x60 + byte));
    }
    assert_eq!(cpu.regs.x(1), st1_one_no_offset_out);

    let st1_one_q0_out = RAM_BASE + 0x4000;
    cpu.regs.set_x(10, st1_one_q0_out);
    cpu.simd[29] = 0xffff_ffff_ffff_ffff_b7b6_b5b4_b3b2_b1b0;
    // st1 {v29.2s}, [x10], #8
    execute(&mut cpu, &mut bus, ins(Opcode::SimdSt1Multi, 29, 10, POST_INDEX, 8, false, 1, 8)).unwrap();
    for byte in 0..8u64 {
        assert_eq!(bus.read(st1_one_q0_out + byte, 1), Some(0xb0 + byte));
    }
    assert_eq!(cpu.regs.x(10), st1_one_q0_out + 8);

    let st1_one_post_reg_out = RAM_BASE + 0x4400;
    cpu.regs.set_x(0, st1_one_post_reg_out);
    cpu.regs.set_x(4, 24);
    cpu.simd[0] = vector_bytes(0xd0);
    // st1 {v0.4s}, [x0], x4
    execute(&mut cpu, &mut bus, ins(Opcode::SimdSt1Multi, 0, 0, 4, 0, false, 1, 16)).unwrap();
    for byte in 0..16u64 {
        assert_eq!(bus.read(st1_one_post_reg_out + byte, 1), Some(0xd0 + byte));
    }
    assert_eq!(cpu.regs.x(0), st1_one_post_reg_out + 24);
}
