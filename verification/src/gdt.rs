//! Global descriptor table entries.
//!
//! A GDT entry packs a 32-bit segment offset and a 20-bit limit into six
//! scattered fields. The accessors below are proved to recover exactly what
//! was packed.
use vstd::prelude::*;

verus! {

pub const GDT_A_PRESENT: u8 = 1 << 7;
pub const GDT_A_RING_0: u8 = 0 << 5;
pub const GDT_A_RING_1: u8 = 1 << 5;
pub const GDT_A_RING_2: u8 = 2 << 5;
pub const GDT_A_RING_3: u8 = 3 << 5;
pub const GDT_A_SYSTEM: u8 = 1 << 4;
pub const GDT_A_EXECUTABLE: u8 = 1 << 3;
pub const GDT_A_CONFORMING: u8 = 1 << 2;
pub const GDT_A_PRIVILEGE: u8 = 1 << 1;
pub const GDT_A_DIRTY: u8 = 1;

pub const GDT_A_TSS_AVAIL: u8 = 0x9;
pub const GDT_A_TSS_BUSY: u8 = 0xB;

pub const GDT_F_PAGE_SIZE: u8 = 1 << 7;
pub const GDT_F_PROTECTED_MODE: u8 = 1 << 6;
pub const GDT_F_LONG_MODE: u8 = 1 << 5;

/// One entry of a global descriptor table: a segment offset, limit,
/// access byte and flag nibble, packed the way the CPU reads them.
#[derive(Copy, Clone, Debug)]
pub struct GdtEntry {
    pub limitl: u16,
    pub offsetl: u16,
    pub offsetm: u8,
    pub access: u8,
    pub flags_limith: u8,
    pub offseth: u8,
}

impl GdtEntry {
    /// The 32-bit segment offset scattered over three fields.
    pub open spec fn spec_offset(self) -> u32 {
        (self.offsetl as u32) | ((self.offsetm as u32) << 16) | ((self.offseth as u32) << 24)
    }

    /// The 20-bit segment limit: sixteen low bits plus the nibble
    /// shared with the flags byte.
    pub open spec fn spec_limit(self) -> u32 {
        (self.limitl as u32) | (((self.flags_limith & 0x0F) as u32) << 16)
    }

    pub fn new(offset: u32, limit: u32, access: u8, flags: u8) -> (r: Self)
        ensures
            r.spec_offset() == offset,
            r.spec_limit() == limit & 0xFFFFF,
            r.access == access,
            r.flags_limith & 0xF0 == flags & 0xF0,
    {
        let r = GdtEntry {
            limitl: limit as u16,
            offsetl: offset as u16,
            offsetm: (offset >> 16) as u8,
            access,
            flags_limith: flags & 0xF0 | ((limit >> 16) as u8) & 0x0F,
            offseth: (offset >> 24) as u8,
        };
        proof {
            assert(((offset as u16) as u32) | ((((offset >> 16) as u8) as u32) << 16)
                | ((((offset >> 24) as u8) as u32) << 24) == offset) by (bit_vector);
            assert(forall|f: u8, l: u8| ((f & 0xF0 | l & 0x0F) & 0x0F) == l & 0x0F) by (bit_vector);
            assert(((limit as u16) as u32) | (((((limit >> 16) as u8) & 0x0F) as u32) << 16)
                == limit & 0xFFFFF) by (bit_vector);
            assert(forall|f: u8, l: u8| ((f & 0xF0 | l & 0x0F) & 0xF0) == f & 0xF0) by (bit_vector);
        }
        r
    }

    /// Read back the segment offset.
    pub fn offset(&self) -> (r: u32)
        ensures
            r == self.spec_offset(),
    {
        (self.offsetl as u32) | ((self.offsetm as u32) << 16) | ((self.offseth as u32) << 24)
    }

    /// Store a new segment offset, leaving limit, access and flags alone.
    pub fn set_offset(&mut self, offset: u32)
        ensures
            final(self).spec_offset() == offset,
            final(self).limitl == old(self).limitl,
            final(self).access == old(self).access,
            final(self).flags_limith == old(self).flags_limith,
    {
        self.offsetl = offset as u16;
        self.offsetm = (offset >> 16) as u8;
        self.offseth = (offset >> 24) as u8;
        proof {
            assert(((offset as u16) as u32) | ((((offset >> 16) as u8) as u32) << 16)
                | ((((offset >> 24) as u8) as u32) << 24) == offset) by (bit_vector);
        }
    }

    /// Store a new segment limit, leaving offset, access and the flag
    /// nibble alone.
    pub fn set_limit(&mut self, limit: u32)
        ensures
            final(self).spec_limit() == limit & 0xFFFFF,
            final(self).spec_offset() == old(self).spec_offset(),
            final(self).access == old(self).access,
            final(self).flags_limith & 0xF0 == old(self).flags_limith & 0xF0,
    {
        self.limitl = limit as u16;
        self.flags_limith = self.flags_limith & 0xF0 | ((limit >> 16) as u8) & 0x0F;
        proof {
            assert(forall|f: u8, l: u8| ((f & 0xF0 | l & 0x0F) & 0x0F) == l & 0x0F) by (bit_vector);
            assert(forall|f: u8, l: u8| ((f & 0xF0 | l & 0x0F) & 0xF0) == f & 0xF0) by (bit_vector);
            assert(((limit as u16) as u32) | (((((limit >> 16) as u8) & 0x0F) as u32) << 16)
                == limit & 0xFFFFF) by (bit_vector);
        }
    }
}

} // verus!
