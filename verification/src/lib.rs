//! Verified AArch64 instruction execution.
pub mod constants;
pub mod instr;
pub mod le_bytes;
pub mod memory;
pub mod pstate;
pub mod sysregs;
pub mod cpu;
pub mod alu;
pub mod dp_basic;
pub mod dp_logic;
pub mod dp_arith;
pub mod timer;
pub mod branch;
pub mod simd;
pub mod simd_lanes;
pub mod simd_crypto;
pub mod simd_data;
pub mod system;
pub mod mmu;
pub mod guest;
pub mod guest_mapped;
pub mod load_store;
pub mod load_pair;
pub mod exclusive;
pub mod cache;
pub mod bitops;
pub mod structure;
pub mod sve;
pub mod sve_count;
pub mod sve_vec;
pub mod sve_pred;
pub mod sve_perm;
pub mod sve_mem;
pub mod execute;
pub mod guest_string;
pub mod laws;
pub mod op_laws;
