//! Fieldbus memory management units, which map logical addresses to the memory of a SubDevice.

use crate::wire;
use crate::wire::{pack_bit, pack_u16, pack_u32};
use vstd::prelude::*;

verus! {

/// The configuration of an FMMU, sixteen bytes, defined in ETG1000.4 Table 56.
#[derive(Clone, Copy, Debug, PartialEq, Eq, Structural)]
pub struct Fmmu {
    /// Where the mapping starts in the logical address space.
    pub logical_start_address: u32,
    /// How many bytes are mapped.
    pub length_bytes: u16,
    /// The first bit mapped of the first byte; three bits are sent.
    pub logical_start_bit: u8,
    /// The last bit mapped of the last byte; three bits are sent.
    pub logical_end_bit: u8,
    /// Where the mapping starts in the memory of the SubDevice.
    pub physical_start_address: u16,
    /// The first bit mapped there; three bits are sent.
    pub physical_start_bit: u8,
    /// The mapping is for reading.
    pub read_enable: bool,
    /// The mapping is for writing.
    pub write_enable: bool,
    /// The mapping is active.
    pub enable: bool,
}

/// The number of bytes of [`Fmmu`].
pub const FMMU_LEN: u16 = 16;

impl Fmmu {
    /// The sixteen bytes. Of each bit number only the three lowest bits are sent.
    pub open spec fn packed(self) -> Seq<u8> {
        wire::le32(self.logical_start_address) + wire::le16(self.length_bytes) + seq![
            self.logical_start_bit % 8,
            self.logical_end_bit % 8,
        ] + wire::le16(self.physical_start_address) + seq![
            self.physical_start_bit % 8,
            (wire::bit(self.read_enable) + 2 * wire::bit(self.write_enable)) as u8,
            wire::bit(self.enable),
        ] + wire::zeros(3)
    }

    /// Packs the configuration.
    pub fn pack(&self) -> (buf: [u8; 16])
        ensures
            buf@ == self.packed(),
    {
        let logical = pack_u32(self.logical_start_address);
        let length = pack_u16(self.length_bytes);
        let physical = pack_u16(self.physical_start_address);
        let buf = [
            logical[0],
            logical[1],
            logical[2],
            logical[3],
            length[0],
            length[1],
            self.logical_start_bit % 8,
            self.logical_end_bit % 8,
            physical[0],
            physical[1],
            self.physical_start_bit % 8,
            pack_bit(self.read_enable) + 2 * pack_bit(self.write_enable),
            pack_bit(self.enable),
            0,
            0,
            0,
        ];
        assert(buf@ =~= self.packed());
        buf
    }
}

/// Where each field of an FMMU is: the logical start, the length, the first and the last bit, the
/// physical start and its bit, read and write in the two lowest bits of one byte, and active in the
/// lowest bit of the next. The rest is zero.
pub proof fn law_fmmu_bytes(f: Fmmu)
    ensures
        FMMU_LEN == 16,
        f.packed().len() == 16,
        ({
            let b = f.packed();
            &&& b[0] + 0x100 * b[1] + 0x1_0000 * b[2] + 0x100_0000 * b[3] == f.logical_start_address
            &&& b[4] + 256 * b[5] == f.length_bytes
            &&& b[6] == f.logical_start_bit % 8
            &&& b[7] == f.logical_end_bit % 8
            &&& b[8] + 256 * b[9] == f.physical_start_address
            &&& b[10] == f.physical_start_bit % 8
            &&& b[11] < 4
            &&& b[11] % 2 == 1 <==> f.read_enable
            &&& b[11] / 2 == 1 <==> f.write_enable
            &&& b[12] < 2
            &&& b[12] == 1 <==> f.enable
            &&& b[13] == 0 && b[14] == 0 && b[15] == 0
        }),
{
    wire::law_u32_bytes(f.logical_start_address);
}

} // verus!
