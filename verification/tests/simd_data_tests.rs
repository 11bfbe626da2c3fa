//! Advanced SIMD data-processing scenarios. Each instruction is written out
//! as the decoder would produce it; the assembly is given beside it.
use emulator::constants::RAM_BASE;
use emulator::cpu::Armv8Cpu;
use emulator::execute::execute;
use emulator::instr::{Instr, Opcode};
use emulator::memory::SystemBus;

const NO_OFFSET: u8 = 0xFF;

fn setup() -> (Armv8Cpu, SystemBus) {
    (Armv8Cpu::new(), SystemBus::new())
}

fn ins(op: Opcode, rd: u8, rn: u8, rm: u8, imm: u64, sf: bool, cond: u8, size: u8) -> Instr {
    Instr { op, rd, rn, rm, imm, sf, cond, size }
}

fn vector_bytes(offset: u64) -> u128 {
    let mut value = 0u128;
    for lane in 0..16u64 {
        value |= ((lane + offset) as u128) << (lane * 8);
    }
    value
}

#[test]
fn simd_bic_immediate_clears_replicated_halfword_mask() {
    let (mut cpu, mut bus) = setup();
    cpu.simd[4] = 0x1234_f0ff_abcd_00f0_ffff_0f0f_55aa_aa55;

    // bic v4.8h, #0xf0
    execute(&mut cpu, &mut bus, ins(Opcode::SimdBicImm, 4, 0, 0, 0xf0, true, 0, 2)).unwrap();

    assert_eq!(cpu.simd[4], 0x1204_f00f_ab0d_0000_ff0f_0f0f_550a_aa05);
}

#[test]
fn simd_umov_zero_extends_halfword_to_w_register() {
    let (mut cpu, mut bus) = setup();
    cpu.simd[30] = 0x7777_6666_5555_4444_3333_2222_1111_abcd;
    cpu.regs.set_x(0, u64::MAX);

    // umov w0, v30.h[0]
    execute(&mut cpu, &mut bus, ins(Opcode::SimdUmov, 0, 30, 0, 0, false, 0, 2)).unwrap();

    assert_eq!(cpu.regs.x(0), 0xabcd);
}

#[test]
fn simd_ext_extracts_concatenated_bytes() {
    let (mut cpu, mut bus) = setup();
    cpu.simd[1] = 0x0f0e_0d0c_0b0a_0908_0706_0504_0302_0100;
    cpu.simd[2] = 0x1f1e_1d1c_1b1a_1918_1716_1514_1312_1110;

    // ext v0.16b, v1.16b, v2.16b, #8
    execute(&mut cpu, &mut bus, ins(Opcode::SimdExt, 0, 1, 2, 8, true, 0, 1)).unwrap();

    assert_eq!(cpu.simd[0], 0x1716_1514_1312_1110_0f0e_0d0c_0b0a_0908);
}

#[test]
fn simd_pairwise_min_and_add_bytes() {
    let (mut cpu, mut bus) = setup();
    cpu.simd[1] = 0x100f_0e0d_0c0b_0a09_0807_0605_0403_0201;
    cpu.simd[2] = 0x0102_0304_0506_0708_090a_0b0c_0d0e_0f10;

    // uminp v0.16b, v1.16b, v2.16b
    execute(&mut cpu, &mut bus, ins(Opcode::SimdUminp, 0, 1, 2, 0, true, 0, 1)).unwrap();
    assert_eq!(cpu.simd[0], 0x0103_0507_090b_0d0f_0f0d_0b09_0705_0301);

    // addp v5.16b, v2.16b, v2.16b
    execute(&mut cpu, &mut bus, ins(Opcode::SimdAddp, 5, 2, 2, 0, true, 0, 1)).unwrap();
    assert_eq!(cpu.simd[5], 0x0307_0b0f_1317_1b1f_0307_0b0f_1317_1b1f);
}

#[test]
fn simd_userland_vector_permute_and_reduction_ops() {
    let (mut cpu, mut bus) = setup();
    cpu.regs.set_w(20, 0xaabb_ccdd);
    cpu.regs.set_w(2, 0x1122_3344);

    // dup v15.2s, w20
    execute(&mut cpu, &mut bus, ins(Opcode::SimdDupGpr, 15, 20, 0, 0, false, 0, 4)).unwrap();
    assert_eq!(cpu.simd[15], 0xaabb_ccdd_aabb_ccdd);

    // dup v0.4s, w2
    execute(&mut cpu, &mut bus, ins(Opcode::SimdDupGpr, 0, 2, 0, 0, true, 0, 4)).unwrap();
    assert_eq!(cpu.simd[0], 0x1122_3344_1122_3344_1122_3344_1122_3344);

    cpu.simd[24] = 0x00ff_00ff_00ff_00ff_1111_2222_3333_4444;
    cpu.simd[25] = 0xff00_ff00_ff00_ff00_8888_4444_2222_1111;
    // orr v24.16b, v24.16b, v25.16b
    execute(&mut cpu, &mut bus, ins(Opcode::SimdOrr, 24, 24, 25, 0, true, 0, 1)).unwrap();
    assert_eq!(cpu.simd[24], 0xffff_ffff_ffff_ffff_9999_6666_3333_5555);

    cpu.simd[1] = 0xffff_0000_ffff_0000_1234_5678_9abc_def0;
    cpu.simd[0] = 0x0f0f_0f0f_f0f0_f0f0_ffff_0000_ffff_0000;
    // and v1.16b, v1.16b, v0.16b
    execute(&mut cpu, &mut bus, ins(Opcode::SimdAnd, 1, 1, 0, 0, true, 0, 1)).unwrap();
    assert_eq!(cpu.simd[1], 0x0f0f_0000_f0f0_0000_1234_0000_9abc_0000);

    cpu.simd[30] = 0xffff_0000_aaaa_5555_1234_5678_9abc_def0;
    cpu.simd[4] = 0x0000_ffff_0f0f_0f0f_ffff_0000_00ff_00ff;
    // bic v30.8b, v30.8b, v4.8b
    execute(&mut cpu, &mut bus, ins(Opcode::SimdBic, 30, 30, 4, 0, false, 0, 1)).unwrap();
    assert_eq!(cpu.simd[30], 0x0000_5678_9a00_de00);

    cpu.simd[1] = 0xffff_ffff_ffff_ffff_00ff_00ff_00ff_00ff;
    cpu.simd[15] = 0x1111_2222_3333_4444;
    cpu.simd[31] = 0xaaaa_bbbb_cccc_dddd;
    // bsl v1.8b, v15.8b, v31.8b
    execute(&mut cpu, &mut bus, ins(Opcode::SimdBsl, 1, 15, 31, 0, false, 0, 1)).unwrap();
    assert_eq!(cpu.simd[1], 0xaa11_bb22_cc33_dd44);

    cpu.simd[0] = 0xffff_ffff_ffff_ffff_0123_4567_89ab_cdef;
    cpu.simd[15] = 0xfedc_ba98_7654_3210;
    cpu.simd[31] = 0xffff_0000_ffff_0000;
    // bit v0.8b, v15.8b, v31.8b
    execute(&mut cpu, &mut bus, ins(Opcode::SimdBit, 0, 15, 31, 0, false, 0, 1)).unwrap();
    assert_eq!(cpu.simd[0], 0xfedc_4567_7654_cdef);

    cpu.simd[0] = 0xffff_ffff_ffff_ffff_0123_4567_89ab_cdef;
    cpu.simd[31] = 0xfedc_ba98_7654_3210;
    cpu.simd[30] = 0xffff_0000_ffff_0000;
    // bif v0.8b, v31.8b, v30.8b
    execute(&mut cpu, &mut bus, ins(Opcode::SimdBif, 0, 31, 30, 0, false, 0, 1)).unwrap();
    assert_eq!(cpu.simd[0], 0x0123_ba98_89ab_3210);

    cpu.simd[31] = 0x0102_0304_0506_0708_7f80_55aa_0001_0fff;
    // cnt v31.8b, v31.8b
    execute(&mut cpu, &mut bus, ins(Opcode::SimdCnt, 31, 31, 0, 0, false, 0, 1)).unwrap();
    // addv b31, v31.8b
    execute(&mut cpu, &mut bus, ins(Opcode::SimdAddv, 31, 31, 0, 0, false, 0, 1)).unwrap();
    assert_eq!(cpu.simd[31], 29);
}

#[test]
fn simd_aes_crypto_round_ops() {
    let (mut cpu, mut bus) = setup();
    let key = 0x9c95_8e87_8079_726b_645d_564f_4841_3a33;

    cpu.simd[6] = vector_bytes(0);
    cpu.simd[0] = key;
    // aese v6.16b, v0.16b
    execute(&mut cpu, &mut bus, ins(Opcode::SimdAese, 6, 0, 0, 0, true, 0, 1)).unwrap();
    assert_eq!(cpu.simd[6], 0x3d39_e23d_fb1a_ecfb_b314_21b3_dc8f_edc3);

    cpu.simd[2] = vector_bytes(0);
    cpu.simd[0] = key;
    // aesd v2.16b, v0.16b
    execute(&mut cpu, &mut bus, ins(Opcode::SimdAesd, 2, 0, 0, 0, true, 0, 1)).unwrap();
    assert_eq!(cpu.simd[2], 0xcc57_03ce_2264_5000_cee8_49cc_008f_4166);

    cpu.simd[2] = vector_bytes(0);
    // aesmc v2.16b, v2.16b
    execute(&mut cpu, &mut bus, ins(Opcode::SimdAesmc, 2, 2, 0, 0, true, 0, 1)).unwrap();
    assert_eq!(cpu.simd[2], 0x090c_0b0e_0d08_0f0a_0104_0306_0500_0702);

    cpu.simd[0] = cpu.simd[2];
    // aesimc v0.16b, v0.16b
    execute(&mut cpu, &mut bus, ins(Opcode::SimdAesimc, 0, 0, 0, 0, true, 0, 1)).unwrap();
    assert_eq!(cpu.simd[0], vector_bytes(0));
}

#[test]
fn simd_sha3_bitwise_ops() {
    let (mut cpu, mut bus) = setup();

    cpu.simd[1] = 0x0123_4567_89ab_cdef_fedc_ba98_7654_3210;
    cpu.simd[2] = 0xf0f1_f2f3_f4f5_f6f7_0809_0a0b_0c0d_0e0f;
    cpu.simd[3] = 0x1111_2222_3333_4444_5555_6666_7777_8888;
    // eor3 v4.16b, v1.16b, v2.16b, v3.16b
    execute(&mut cpu, &mut bus, ins(Opcode::SimdEor3, 4, 1, 2, 0, true, 3, 1)).unwrap();
    assert_eq!(cpu.simd[4], 0xe0c3_95b6_4e6d_7f5c_a380_d6f5_0d2e_b497);

    // bcax v4.16b, v1.16b, v2.16b, v3.16b
    execute(&mut cpu, &mut bus, ins(Opcode::SimdBcax, 4, 1, 2, 0, true, 3, 1)).unwrap();
    assert_eq!(cpu.simd[4], 0xe1c3_95b6_4d6f_7f5c_f6d4_b291_7e5c_3417);

    // rax1 v4.2d, v1.2d, v2.2d
    execute(&mut cpu, &mut bus, ins(Opcode::SimdRax1, 4, 1, 2, 0, true, 0, 8)).unwrap();
    assert_eq!(cpu.simd[4], 0xe0c0_a080_6040_2000_eece_ae8e_6e4e_2e0e);

    // xar v4.2d, v1.2d, v2.2d, #13
    execute(&mut cpu, &mut bus, ins(Opcode::SimdXar, 4, 1, 2, 13, true, 0, 8)).unwrap();
    assert_eq!(cpu.simd[4], 0xd8c7_8e95_bca3_eaf1_e0ff_b6ad_849b_d2c9);
}

#[test]
fn simd_userland_arithmetic_shift_and_insert_ops() {
    let (mut cpu, mut bus) = setup();

    cpu.regs.set_w(4, 0x3f80_0000);
    // fmov s31, w4
    execute(&mut cpu, &mut bus, ins(Opcode::SimdFmovFromGpr, 31, 4, 0, 0, false, 0, 4)).unwrap();
    assert_eq!(cpu.simd[31], 0x3f80_0000);

    cpu.simd[31] = 0xffff_ffff_8000_0001;
    cpu.regs.set_x(1, u64::MAX);
    // fmov w1, s31
    execute(&mut cpu, &mut bus, ins(Opcode::SimdUmov, 1, 31, 0, 0, false, 0, 4)).unwrap();
    assert_eq!(cpu.regs.x(1), 0x8000_0001);

    cpu.simd[0] = 0x1111_1111_2222_2222;
    cpu.regs.set_x(3, 0xaaaa_bbbb_cccc_dddd);
    // fmov v0.d[1], x3
    execute(&mut cpu, &mut bus, ins(Opcode::SimdInsGpr, 0, 3, 0, 1, true, 0, 8)).unwrap();
    assert_eq!(cpu.simd[0], 0xaaaa_bbbb_cccc_dddd_1111_1111_2222_2222);

    cpu.simd[31] = ((10u128) << 64) | 2;
    cpu.simd[30] = ((u64::MAX as u128) << 64) | 3;
    // add v31.2d, v31.2d, v30.2d
    execute(&mut cpu, &mut bus, ins(Opcode::SimdAdd, 31, 31, 30, 0, true, 0, 8)).unwrap();
    assert_eq!(cpu.simd[31], ((9u128) << 64) | 5);

    cpu.simd[31] = ((10u128) << 64) | 5;
    cpu.simd[29] = ((3u128) << 64) | 2;
    // sub v31.2d, v31.2d, v29.2d
    execute(&mut cpu, &mut bus, ins(Opcode::SimdSub, 31, 31, 29, 0, true, 0, 8)).unwrap();
    assert_eq!(cpu.simd[31], ((7u128) << 64) | 3);

    cpu.simd[0] = vector_bytes(1);
    cpu.simd[2] = vector_bytes(2);
    // mul v3.16b, v0.16b, v2.16b
    execute(&mut cpu, &mut bus, ins(Opcode::SimdMul, 3, 0, 2, 0, true, 0, 1)).unwrap();
    let mut expected_bytes = 0u128;
    for lane in 0..16u128 {
        expected_bytes |= (((lane + 1) * (lane + 2)) & 0xff) << (lane * 8);
    }
    assert_eq!(cpu.simd[3], expected_bytes);

    cpu.simd[5] = 0x1234_ffff_8000_0002;
    cpu.simd[6] = 0x0004_0002_0002_0003;
    // mul v4.4h, v5.4h, v6.4h
    execute(&mut cpu, &mut bus, ins(Opcode::SimdMul, 4, 5, 6, 0, false, 0, 2)).unwrap();
    assert_eq!(cpu.simd[4], 0x48d0_fffe_0000_0006);

    cpu.simd[29] = 0xffff_fffe_0000_0003;
    cpu.simd[30] = 0x0000_0003_0000_0005;
    // mul v29.2s, v29.2s, v30.2s
    execute(&mut cpu, &mut bus, ins(Opcode::SimdMul, 29, 29, 30, 0, false, 0, 4)).unwrap();
    assert_eq!(cpu.simd[29], 0xffff_fffa_0000_000f);

    cpu.simd[31] = ((-3.0f64).to_bits() as u128) << 64 | 2.0f64.to_bits() as u128;
    // fneg v31.2d, v31.2d
    execute(&mut cpu, &mut bus, ins(Opcode::SimdFneg, 31, 31, 0, 0, true, 0, 8)).unwrap();
    assert_eq!(
        cpu.simd[31],
        (3.0f64.to_bits() as u128) << 64 | (-2.0f64).to_bits() as u128
    );

    cpu.simd[30] = 0x0000_0005_8000_0000_0000_0000_0000_00ff;
    cpu.simd[22] = 0x0000_0008_8000_0000_0000_007b_0000_0f0f;
    // cmtst v31.4s, v30.4s, v22.4s
    execute(&mut cpu, &mut bus, ins(Opcode::SimdCmtst, 31, 30, 22, 0, true, 0, 4)).unwrap();
    assert_eq!(cpu.simd[31], 0x0000_0000_ffff_ffff_0000_0000_ffff_ffff);

    cpu.simd[29] = 0x1234_5678_0000_0010_8000_0000_ffff_fff0;
    // ushr v29.4s, v29.4s, #4
    execute(&mut cpu, &mut bus, ins(Opcode::SimdUshr, 29, 29, 0, 4, true, 0, 4)).unwrap();
    assert_eq!(cpu.simd[29], 0x0123_4567_0000_0001_0800_0000_0fff_ffff);

    cpu.simd[31] = 0x99aa_bbcc_ddee_ff00_1122_3344_5566_7788;
    // xtn v15.2s, v31.2d
    execute(&mut cpu, &mut bus, ins(Opcode::SimdXtn, 15, 31, 0, 0, false, 0, 4)).unwrap();
    assert_eq!(cpu.simd[15], 0xddee_ff00_5566_7788);

    cpu.simd[31] = 0x0011_2233_4455_6677_8899_aabb_ccdd_eeff;
    cpu.simd[28] = 0xaa;
    // ins v31.b[3], v28.b[0]
    execute(&mut cpu, &mut bus, ins(Opcode::SimdIns, 31, 28, 0, 3, true, 0, 1)).unwrap();
    assert_eq!(cpu.simd[31], 0x0011_2233_4455_6677_8899_aabb_aadd_eeff);

    cpu.simd[31] = 0x0f0e_0d0c_0b0a_0908_0706_0504_0302_0100;
    // rev32 v31.16b, v31.16b
    execute(&mut cpu, &mut bus, ins(Opcode::SimdRev32, 31, 31, 0, 0, true, 0, 1)).unwrap();
    assert_eq!(cpu.simd[31], 0x0c0d_0e0f_0809_0a0b_0405_0607_0001_0203);

    cpu.simd[30] = 0x1122_3344_5566_7788;
    // rev64 v30.2s, v30.2s
    execute(&mut cpu, &mut bus, ins(Opcode::SimdRev64, 30, 30, 0, 0, false, 0, 4)).unwrap();
    assert_eq!(cpu.simd[30], 0x5566_7788_1122_3344);

    cpu.simd[30] = 0x1122_3344_5566_7788_99aa_bbcc_ddee_ff00;
    // rev64 v30.4s, v30.4s
    execute(&mut cpu, &mut bus, ins(Opcode::SimdRev64, 30, 30, 0, 0, true, 0, 4)).unwrap();
    assert_eq!(cpu.simd[30], 0x5566_7788_1122_3344_ddee_ff00_99aa_bbcc);

    cpu.simd[30] = 0x8000_0001_0001_0001;
    // shl v2.2s, v30.2s, #13
    execute(&mut cpu, &mut bus, ins(Opcode::SimdShl, 2, 30, 0, 13, false, 0, 4)).unwrap();
    assert_eq!(cpu.simd[2], 0x0000_2000_2000_2000);

    cpu.simd[4] = 0x0000_0040_0000_007f_0000_0002_0000_0001;
    cpu.simd[6] = 0x0000_0000_5555_5555_aaaa_aaaa_ffff_ffff;
    // sli v6.4s, v4.4s, #25
    execute(&mut cpu, &mut bus, ins(Opcode::SimdSli, 6, 4, 0, 25, true, 0, 4)).unwrap();
    assert_eq!(cpu.simd[6], 0x8000_0000_ff55_5555_04aa_aaaa_03ff_ffff);

    cpu.simd[30] = vector_bytes(0x02);
    cpu.simd[31] = 0x8080_8080_8080_8080_8080_8080_8080_8080;
    // sri v31.16b, v30.16b, #1
    execute(&mut cpu, &mut bus, ins(Opcode::SimdSri, 31, 30, 0, 1, true, 0, 1)).unwrap();
    let mut expected_sri = 0u128;
    for lane in 0..16u128 {
        expected_sri |= (0x80 | ((lane + 2) >> 1)) << (lane * 8);
    }
    assert_eq!(cpu.simd[31], expected_sri);

    let mut shrn_source = 0u128;
    for lane in 0..8u128 {
        shrn_source |= ((lane + 1) * 0x40) << (lane * 16);
    }
    cpu.simd[31] = shrn_source;
    // shrn v31.8b, v31.8h, #6
    execute(&mut cpu, &mut bus, ins(Opcode::SimdShrn, 31, 31, 0, 6, false, 0, 1)).unwrap();
    assert_eq!(cpu.simd[31], 0x0807_0605_0403_0201);

    cpu.simd[27] = 0x8877_6655_4433_2211_0123_4567_89ab_cdef;
    // dup v29.2d, v27.d[0]
    execute(&mut cpu, &mut bus, ins(Opcode::SimdDupElem, 29, 27, 0, 0, true, 0, 8)).unwrap();
    assert_eq!(cpu.simd[29], 0x0123_4567_89ab_cdef_0123_4567_89ab_cdef);

    cpu.simd[29] = 0x8000_0000_0000_0000_0000_0000_0000_0010;
    cpu.simd[25] = 0xffff_ffff_ffff_fffc_0000_0000_0000_0004;
    // ushl v29.2d, v29.2d, v25.2d
    execute(&mut cpu, &mut bus, ins(Opcode::SimdUshl, 29, 29, 25, 0, true, 0, 8)).unwrap();
    assert_eq!(cpu.simd[29], 0x0800_0000_0000_0000_0000_0000_0000_0100);

    cpu.simd[30] = 0x0000_0004_0000_0003_0000_0002_0000_0001;
    cpu.simd[28] = 0x0000_0008_0000_0007_0000_0006_0000_0005;
    // uzp1 v30.4s, v30.4s, v28.4s
    execute(&mut cpu, &mut bus, ins(Opcode::SimdUzp1, 30, 30, 28, 0, true, 0, 4)).unwrap();
    assert_eq!(cpu.simd[30], 0x0000_0007_0000_0005_0000_0003_0000_0001);

    cpu.simd[31] = vector_bytes(0);
    cpu.simd[27] = vector_bytes(0x80);
    // zip1 v29.16b, v31.16b, v27.16b
    execute(&mut cpu, &mut bus, ins(Opcode::SimdZip1, 29, 31, 27, 0, true, 0, 1)).unwrap();
    assert_eq!(cpu.simd[29], 0x8707_8606_8505_8404_8303_8202_8101_8000);
    // zip2 v31.16b, v31.16b, v27.16b
    execute(&mut cpu, &mut bus, ins(Opcode::SimdZip2, 31, 31, 27, 0, true, 0, 1)).unwrap();
    assert_eq!(cpu.simd[31], 0x8f0f_8e0e_8d0d_8c0c_8b0b_8a0a_8909_8808);

    cpu.simd[29] = 0x0008_0007_0006_0005_0004_0003_0002_0001;
    cpu.simd[27] = 0x1008_1007_1006_1005_1004_1003_1002_1001;
    // zip1 v30.8h, v29.8h, v27.8h
    execute(&mut cpu, &mut bus, ins(Opcode::SimdZip1, 30, 29, 27, 0, true, 0, 2)).unwrap();
    assert_eq!(cpu.simd[30], 0x1004_0004_1003_0003_1002_0002_1001_0001);
    // zip2 v29.8h, v29.8h, v27.8h
    execute(&mut cpu, &mut bus, ins(Opcode::SimdZip2, 29, 29, 27, 0, true, 0, 2)).unwrap();
    assert_eq!(cpu.simd[29], 0x1008_0008_1007_0007_1006_0006_1005_0005);

    cpu.simd[31] = vector_bytes(0x40);
    cpu.simd[23] = 0x100f_0e0d_0c0b_0a09_0807_0605_0403_0201;
    // tbl v31.16b, {v31.16b}, v23.16b
    execute(&mut cpu, &mut bus, ins(Opcode::SimdTbl, 31, 31, 23, 1, true, 0, 1)).unwrap();
    assert_eq!(cpu.simd[31], 0x004f_4e4d_4c4b_4a49_4847_4645_4443_4241);
}

#[test]
fn simd_word_immediates_and_cmeq_zero() {
    let (mut cpu, mut bus) = setup();

    // movi v31.2s, #1
    execute(&mut cpu, &mut bus, ins(Opcode::SimdMovi, 31, 0, 0, 1, false, 4, 8)).unwrap();
    assert_eq!(cpu.simd[31], 0x0000_0001_0000_0001);

    // movi v15.4h, #4
    execute(&mut cpu, &mut bus, ins(Opcode::SimdMovi, 15, 0, 0, 4, false, 2, 8)).unwrap();
    assert_eq!(cpu.simd[15], 0x0004_0004_0004_0004);

    // movi v31.4h, #0x80, LSL #8
    execute(&mut cpu, &mut bus, ins(Opcode::SimdMovi, 31, 0, 0, 0x8000, false, 2, 8)).unwrap();
    assert_eq!(cpu.simd[31], 0x8000_8000_8000_8000);

    // mvni v30.2s, #8
    execute(&mut cpu, &mut bus, ins(Opcode::SimdMovi, 30, 0, 0, 0xffff_fff7, false, 4, 8))
        .unwrap();
    assert_eq!(cpu.simd[30], 0xffff_fff7_ffff_fff7);

    // movi d31, #0xffffffff00000000
    execute(
        &mut cpu,
        &mut bus,
        ins(Opcode::SimdMovi, 31, 0, 0, 0xffff_ffff_0000_0000, false, 8, 8),
    )
    .unwrap();
    assert_eq!(cpu.simd[31], 0xffff_ffff_0000_0000);

    cpu.simd[0] = 0x0001_0000_00ff_0000;
    // cmeq v0.8b, v0.8b, #0
    execute(&mut cpu, &mut bus, ins(Opcode::SimdCmeqZero, 0, 0, 0, 0, false, 0, 1)).unwrap();
    assert_eq!(cpu.simd[0], 0xff00_ffff_ff00_ffff);
}

#[test]
fn simd_cmeq_register_compares_word_lanes() {
    let (mut cpu, mut bus) = setup();

    cpu.simd[31] = 0x1111_1111_3333_3333_2222_2222_1111_1111;
    cpu.simd[25] = 0x4444_4444_3333_3333_0000_0000_1111_1111;

    // cmeq v31.4s, v31.4s, v25.4s
    execute(&mut cpu, &mut bus, ins(Opcode::SimdCmeq, 31, 31, 25, 0, true, 0, 4)).unwrap();

    assert_eq!(cpu.simd[31], 0x0000_0000_ffff_ffff_0000_0000_ffff_ffff);
}

#[test]
fn simd_scalar_uqsub_saturates_halfword() {
    let (mut cpu, mut bus) = setup();
    let qc = 1 << 27;

    cpu.simd[31] = 0xffff_ffff_0000_1234;
    cpu.simd[15] = 0x0100;
    // uqsub h31, h31, h15
    let uqsub = ins(Opcode::SimdUqsub, 31, 31, 15, 0, false, 0, 2);
    execute(&mut cpu, &mut bus, uqsub).unwrap();
    assert_eq!(cpu.simd[31], 0x1134);
    assert_eq!(cpu.sys.fpsr & qc, 0);

    cpu.simd[31] = 0x0002;
    cpu.simd[15] = 0x0003;
    execute(&mut cpu, &mut bus, uqsub).unwrap();
    assert_eq!(cpu.simd[31], 0);
    assert_ne!(cpu.sys.fpsr & qc, 0);
}

#[test]
fn simd_strlen_prefix_matches_debian_libc_fast_path() {
    let (mut cpu, mut bus) = setup();
    let base = RAM_BASE + 0x4000;

    for (offset, bytes, expected) in [
        (0u64, b"/\0".as_slice(), 1u64),
        (3u64, b"sys\0".as_slice(), 3u64),
    ] {
        for i in 0..32u64 {
            bus.write(base + i, 1, 0xaa);
        }
        for (i, byte) in bytes.iter().enumerate() {
            bus.write(base + offset + i as u64, 1, *byte as u64);
        }

        cpu.regs.set_x(0, base + offset);
        // and x1, x0, #~0xf
        execute(&mut cpu, &mut bus, ins(Opcode::AndImm, 1, 0, 0, !0xfu64, true, 0, 0)).unwrap();
        // ld1 {v0.16b}, [x1]
        execute(&mut cpu, &mut bus, ins(Opcode::SimdLd1, 0, 1, NO_OFFSET, 0, false, 0, 16))
            .unwrap();
        // cmeq v1.16b, v0.16b, #0
        execute(&mut cpu, &mut bus, ins(Opcode::SimdCmeqZero, 1, 0, 0, 0, true, 0, 1)).unwrap();
        // lsl x4, x0, #2
        execute(&mut cpu, &mut bus, ins(Opcode::Ubfm, 4, 0, 62, 61, true, 0, 0)).unwrap();
        // shrn v2.8b, v1.8h, #4
        execute(&mut cpu, &mut bus, ins(Opcode::SimdShrn, 2, 1, 0, 4, false, 0, 1)).unwrap();
        // fmov x2, d2
        execute(&mut cpu, &mut bus, ins(Opcode::SimdUmov, 2, 2, 0, 0, true, 0, 8)).unwrap();
        // lsr x2, x2, x4
        execute(&mut cpu, &mut bus, ins(Opcode::Lsrv, 2, 2, 4, 0, true, 0, 0)).unwrap();
        assert_ne!(cpu.regs.x(2), 0);
        // rbit x2, x2
        execute(&mut cpu, &mut bus, ins(Opcode::Rbit, 2, 2, 0, 0, true, 0, 0)).unwrap();
        // clz x0, x2
        execute(&mut cpu, &mut bus, ins(Opcode::Clz, 0, 2, 0, 0, true, 0, 0)).unwrap();
        // lsr x0, x0, #2
        execute(&mut cpu, &mut bus, ins(Opcode::Ubfm, 0, 0, 2, 63, true, 0, 0)).unwrap();

        assert_eq!(cpu.regs.x(0), expected);
    }
}

#[test]
fn simd_strlen_page_boundary_matches_debian_libc_path() {
    let (mut cpu, mut bus) = setup();
    let page = RAM_BASE + 0x5000;
    let ptr = page + 0xff0;

    for (bytes, expected) in [
        (b"/\0".as_slice(), 1u64),
        (b"sys\0".as_slice(), 3u64),
        (b"devices\0".as_slice(), 7u64),
    ] {
        for i in 0xfe0..0x1000u64 {
            bus.write(page + i, 1, 0xaa);
        }
        for (i, byte) in bytes.iter().enumerate() {
            bus.write(ptr + i as u64, 1, *byte as u64);
        }

        cpu.regs.set_x(0, ptr);
        // and x1, x0, #~0x1f
        execute(&mut cpu, &mut bus, ins(Opcode::AndImm, 1, 0, 0, !0x1fu64, true, 0, 0)).unwrap();
        // mov w2, #0xc03
        execute(&mut cpu, &mut bus, ins(Opcode::Movz, 2, 0, 0, 0xc03, false, 0, 0)).unwrap();
        // movk w2, #0xc030, lsl #16
        execute(&mut cpu, &mut bus, ins(Opcode::Movk, 2, 0, 0, 0xc030 << 16, false, 1, 0))
            .unwrap();
        // ld1 {v1.16b, v2.16b}, [x1]
        execute(&mut cpu, &mut bus, ins(Opcode::SimdLd1Multi, 1, 1, NO_OFFSET, 0, false, 2, 16))
            .unwrap();
        // dup v0.4s, w2
        execute(&mut cpu, &mut bus, ins(Opcode::SimdDupGpr, 0, 2, 0, 0, true, 0, 4)).unwrap();
        // cmeq v1.16b, v1.16b, #0
        execute(&mut cpu, &mut bus, ins(Opcode::SimdCmeqZero, 1, 1, 0, 0, true, 0, 1)).unwrap();
        // cmeq v2.16b, v2.16b, #0
        execute(&mut cpu, &mut bus, ins(Opcode::SimdCmeqZero, 2, 2, 0, 0, true, 0, 1)).unwrap();
        // and v1.16b, v1.16b, v0.16b
        execute(&mut cpu, &mut bus, ins(Opcode::SimdAnd, 1, 1, 0, 0, true, 0, 1)).unwrap();
        // and v2.16b, v2.16b, v0.16b
        execute(&mut cpu, &mut bus, ins(Opcode::SimdAnd, 2, 2, 0, 0, true, 0, 1)).unwrap();
        // addp v0.16b, v1.16b, v2.16b
        execute(&mut cpu, &mut bus, ins(Opcode::SimdAddp, 0, 1, 2, 0, true, 0, 1)).unwrap();
        // addp v0.16b, v0.16b, v0.16b
        execute(&mut cpu, &mut bus, ins(Opcode::SimdAddp, 0, 0, 0, 0, true, 0, 1)).unwrap();
        // fmov x3, d0
        execute(&mut cpu, &mut bus, ins(Opcode::SimdUmov, 3, 0, 0, 0, true, 0, 8)).unwrap();
        // lsl x4, x0, #1
        execute(&mut cpu, &mut bus, ins(Opcode::Ubfm, 4, 0, 63, 62, true, 0, 0)).unwrap();
        // lsr x3, x3, x4
        execute(&mut cpu, &mut bus, ins(Opcode::Lsrv, 3, 3, 4, 0, true, 0, 0)).unwrap();
        assert_ne!(cpu.regs.x(3), 0);
        // rbit x3, x3
        execute(&mut cpu, &mut bus, ins(Opcode::Rbit, 3, 3, 0, 0, true, 0, 0)).unwrap();
        // clz x0, x3
        execute(&mut cpu, &mut bus, ins(Opcode::Clz, 0, 3, 0, 0, true, 0, 0)).unwrap();
        // lsr x0, x0, #1
        execute(&mut cpu, &mut bus, ins(Opcode::Ubfm, 0, 0, 1, 63, true, 0, 0)).unwrap();

        assert_eq!(cpu.regs.x(0), expected);
    }
}
