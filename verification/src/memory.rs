//! Guest physical memory and the system bus in front of it.
use vstd::prelude::*;
use crate::constants::{RAM_BASE, RAM_SIZE};
use crate::le_bytes::{
    le_value, lemma_le_value_frame, lemma_read_after_write, pow256, read_le, write_le,
    write_le_bytes,
};

verus! {

/// Guest RAM: `RAM_SIZE` bytes starting at physical address `RAM_BASE`.
pub struct PhysicalMemory {
    pub ram: Vec<u8>,
}

/// Whether the `size` bytes at physical address `pa` all lie in RAM.
pub open spec fn in_ram(pa: u64, size: nat) -> bool {
    RAM_BASE <= pa && pa - RAM_BASE + size <= RAM_SIZE
}

/// What a read of `size` bytes at `pa` returns: the little-endian value of
/// those RAM bytes, or nothing when the range leaves RAM.
pub open spec fn mem_read(ram: Seq<u8>, pa: u64, size: nat) -> Option<u64> {
    if in_ram(pa, size) {
        Some(le_value(ram, pa - RAM_BASE, size) as u64)
    } else {
        None
    }
}

/// RAM after writing the low `size` bytes of `value` at `pa`; writes that
/// leave RAM are dropped.
pub open spec fn mem_write(ram: Seq<u8>, pa: u64, size: nat, value: u64) -> Seq<u8> {
    if in_ram(pa, size) {
        write_le(ram, pa - RAM_BASE, size, value as nat)
    } else {
        ram
    }
}

impl View for PhysicalMemory {
    type V = Seq<u8>;

    open spec fn view(&self) -> Seq<u8> {
        self.ram@
    }
}

impl PhysicalMemory {
    pub open spec fn wf(&self) -> bool {
        self.ram@.len() == RAM_SIZE
    }

    /// Zero-filled RAM.
    pub fn new() -> (m: Self)
        ensures
            m.wf(),
            forall|i: int| 0 <= i < RAM_SIZE ==> m@[i] == 0,
    {
        PhysicalMemory { ram: vec![0u8; RAM_SIZE as usize] }
    }

    /// Read `size` (1 to 8) bytes at `pa`, least significant byte first.
    pub fn read(&self, pa: u64, size: u8) -> (r: Option<u64>)
        requires
            self.wf(),
            1 <= size <= 8,
        ensures
            r == mem_read(self@, pa, size as nat),
    {
        if pa < RAM_BASE || pa - RAM_BASE > RAM_SIZE - size as u64 {
            return None;
        }
        Some(read_le(&self.ram, (pa - RAM_BASE) as usize, size as usize))
    }

    /// Write the low `size` (1 to 8) bytes of `value` at `pa`, least
    /// significant byte first. Writes outside RAM are dropped.
    pub fn write(&mut self, pa: u64, size: u8, value: u64)
        requires
            old(self).wf(),
            1 <= size <= 8,
        ensures
            final(self).wf(),
            final(self)@ == mem_write(old(self)@, pa, size as nat, value),
    {
        if pa < RAM_BASE || pa - RAM_BASE > RAM_SIZE - size as u64 {
            return;
        }
        write_le_bytes(&mut self.ram, (pa - RAM_BASE) as usize, size as usize, value);
    }
}

/// The system bus. Only RAM is attached in this model.
pub struct SystemBus {
    pub mem: PhysicalMemory,
}

impl View for SystemBus {
    type V = Seq<u8>;

    open spec fn view(&self) -> Seq<u8> {
        self.mem.ram@
    }
}

impl SystemBus {
    pub open spec fn wf(&self) -> bool {
        self.mem.wf()
    }

    /// Whether RAM has its full size.
    pub fn check_wf(&self) -> (r: bool)
        ensures
            r == self.wf(),
    {
        self.mem.ram.len() == RAM_SIZE as usize
    }

    pub fn new() -> (b: Self)
        ensures
            b.wf(),
            forall|i: int| 0 <= i < RAM_SIZE ==> b@[i] == 0,
    {
        let mem = PhysicalMemory::new();
        assert forall|i: int| 0 <= i < RAM_SIZE implies #[trigger] mem.ram@[i] == 0 by {
            assert(mem@[i] == 0);
        }
        SystemBus { mem }
    }

    /// Read `size` bytes at physical address `pa`.
    pub fn read(&self, pa: u64, size: u8) -> (r: Option<u64>)
        requires
            self.wf(),
            1 <= size <= 8,
        ensures
            r == mem_read(self@, pa, size as nat),
    {
        self.mem.read(pa, size)
    }

    /// Write the low `size` bytes of `value` at physical address `pa`.
    pub fn write(&mut self, pa: u64, size: u8, value: u64)
        requires
            old(self).wf(),
            1 <= size <= 8,
        ensures
            final(self).wf(),
            final(self)@ == mem_write(old(self)@, pa, size as nat, value),
    {
        self.mem.write(pa, size, value);
    }
}

/// A read of a range just written returns the written value, cut to the
/// access size.
pub proof fn lemma_mem_read_after_write(ram: Seq<u8>, pa: u64, size: nat, value: u64)
    requires
        ram.len() == RAM_SIZE,
        1 <= size <= 8,
        in_ram(pa, size),
    ensures
        mem_read(mem_write(ram, pa, size, value), pa, size) == Some(
            (value as nat % pow256(size)) as u64,
        ),
{
    lemma_read_after_write(ram, pa - RAM_BASE, size, value as nat);
}

/// A write leaves every byte outside its range unchanged, so reads of
/// disjoint ranges are unaffected.
pub proof fn lemma_mem_write_frame(ram: Seq<u8>, pa: u64, size: nat, value: u64, pb: u64, n: nat)
    requires
        ram.len() == RAM_SIZE,
        pb + n <= pa || pa + size <= pb,
    ensures
        mem_read(mem_write(ram, pa, size, value), pb, n) == mem_read(ram, pb, n),
{
    if in_ram(pb, n) && in_ram(pa, size) {
        lemma_le_value_frame(
            mem_write(ram, pa, size, value),
            ram,
            pb - RAM_BASE,
            n,
        );
    }
}

} // verus!
