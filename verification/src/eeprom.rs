//! Access to the EEPROM of a SubDevice, called SII (SubDevice information interface).

use crate::wire;
use crate::wire::{pack_bits, pack_u16};
use vstd::prelude::*;

verus! {

/// Who may access the EEPROM, two bytes, defined in ETG1000.4 Table 48.
#[derive(Clone, Copy, Debug, PartialEq, Eq, Structural)]
pub enum SiiOwner {
    /// The main device.
    Master,
    /// The SubDevice itself.
    Pdi,
}

impl SiiOwner {
    /// The number that stands for the owner on the wire.
    pub open spec fn raw(self) -> u16 {
        match self {
            SiiOwner::Master => 0x0000,
            SiiOwner::Pdi => 0x0001,
        }
    }

    /// Packs the owner into two bytes.
    pub fn pack(&self) -> (buf: [u8; 2])
        ensures
            buf@ == wire::le16(self.raw()),
    {
        match self {
            SiiOwner::Master => pack_u16(0x0000),
            SiiOwner::Pdi => pack_u16(0x0001),
        }
    }
}

/// How many bytes one read of the EEPROM gives.
#[derive(Clone, Copy, Debug, PartialEq, Eq, Structural)]
pub enum SiiReadSize {
    /// Four.
    Octets4,
    /// Eight.
    Octets8,
}

impl SiiReadSize {
    /// The number of bytes.
    pub open spec fn len(self) -> u16 {
        match self {
            SiiReadSize::Octets4 => 4,
            SiiReadSize::Octets8 => 8,
        }
    }

    /// The number of bytes.
    pub fn chunk_len(&self) -> (r: u16)
        ensures
            r == self.len(),
    {
        match self {
            SiiReadSize::Octets4 => 4,
            SiiReadSize::Octets8 => 8,
        }
    }
}

/// The EEPROM control and status register, two bytes, defined in ETG1000.4 Table 49.
#[derive(Clone, Copy, Debug, PartialEq, Eq, Structural)]
pub struct SiiControl {
    /// Writes are allowed.
    pub write_access: bool,
    /// The EEPROM is emulated by the SubDevice.
    pub emulate_sii: bool,
    /// How many bytes one read gives.
    pub read_size: SiiReadSize,
    /// Addresses take two bytes rather than one.
    pub two_octet_address: bool,
    /// A read is asked for, or running.
    pub read: bool,
    /// A write is asked for, or running.
    pub write: bool,
    /// A reload is asked for, or running.
    pub reload: bool,
    /// The checksum is wrong.
    pub checksum_error: bool,
    /// The device information could not be loaded.
    pub device_info_error: bool,
    /// The last command failed.
    pub command_error: bool,
    /// The last write failed.
    pub write_error: bool,
    /// An operation is running.
    pub busy: bool,
}

/// The number of bytes of [`SiiControl`].
pub const SII_CONTROL_LEN: u16 = 2;

impl SiiControl {
    /// The two bytes.
    pub open spec fn packed(self) -> Seq<u8> {
        seq![
            wire::byte_of(
                [
                    self.write_access,
                    false,
                    false,
                    false,
                    false,
                    self.emulate_sii,
                    self.read_size is Octets8,
                    self.two_octet_address,
                ],
            ),
            wire::byte_of(
                [
                    self.read,
                    self.write,
                    self.reload,
                    self.checksum_error,
                    self.device_info_error,
                    self.command_error,
                    self.write_error,
                    self.busy,
                ],
            ),
        ]
    }

    /// Asks for a read, and nothing else.
    pub open spec fn read_only() -> SiiControl {
        SiiControl {
            write_access: false,
            emulate_sii: false,
            read_size: SiiReadSize::Octets4,
            two_octet_address: false,
            read: true,
            write: false,
            reload: false,
            checksum_error: false,
            device_info_error: false,
            command_error: false,
            write_error: false,
            busy: false,
        }
    }

    /// Packs the register.
    pub fn pack(&self) -> (buf: [u8; 2])
        ensures
            buf@ == self.packed(),
    {
        let eight_octets = matches!(self.read_size, SiiReadSize::Octets8);
        let first: u8 = pack_bits(
            [
                self.write_access,
                false,
                false,
                false,
                false,
                self.emulate_sii,
                eight_octets,
                self.two_octet_address,
            ],
        );
        let second: u8 = pack_bits(
            [
                self.read,
                self.write,
                self.reload,
                self.checksum_error,
                self.device_info_error,
                self.command_error,
                self.write_error,
                self.busy,
            ],
        );
        let buf = [first, second];
        assert(buf@ =~= self.packed());
        buf
    }
}

/// A request to the EEPROM, six bytes: the control register and the address that follows it.
#[derive(Clone, Copy, Debug, PartialEq, Eq, Structural)]
pub struct SiiRequest {
    /// What is asked for.
    pub control: SiiControl,
    /// The word that it is asked of.
    pub address: u16,
}

impl SiiRequest {
    /// The six bytes. The upper half of the address is not used.
    pub open spec fn packed(self) -> Seq<u8> {
        self.control.packed() + wire::le16(self.address) + wire::zeros(2)
    }

    /// Asks to read from a word on.
    pub open spec fn read_from(address: u16) -> SiiRequest {
        SiiRequest { control: SiiControl::read_only(), address }
    }

    /// Asks to read from a word on.
    pub fn read(address: u16) -> (r: SiiRequest)
        ensures
            r == SiiRequest::read_from(address),
    {
        SiiRequest {
            control: SiiControl {
                write_access: false,
                emulate_sii: false,
                read_size: SiiReadSize::Octets4,
                two_octet_address: false,
                read: true,
                write: false,
                reload: false,
                checksum_error: false,
                device_info_error: false,
                command_error: false,
                write_error: false,
                busy: false,
            },
            address,
        }
    }

    /// Packs the request.
    pub fn pack(&self) -> (buf: [u8; 6])
        ensures
            buf@ == self.packed(),
    {
        let control = self.control.pack();
        let address = pack_u16(self.address);
        let buf = [control[0], control[1], address[0], address[1], 0, 0];
        assert(buf@ =~= self.packed());
        buf
    }
}

/// The two bytes that give the EEPROM to an owner: zero for the main device, one for the SubDevice.
pub proof fn law_owner_bits(owner: SiiOwner)
    ensures
        owner.raw() <= 1,
        owner.raw() == 1 <==> owner is Pdi,
{
}

/// One read of the EEPROM gives two words or four.
pub proof fn law_chunk_is_whole_words(size: SiiReadSize)
    ensures
        size is Octets4 ==> size.len() == 2 * 2,
        size is Octets8 ==> size.len() == 2 * 4,
        SII_CONTROL_LEN == 2,
{
}

/// Where each flag of the control register is: write access is the lowest bit of the first byte,
/// which has its three highest bits for how the EEPROM is read; the requests are the lowest bits of
/// the second byte, the errors follow, and busy is the highest one.
pub proof fn law_control_bits(c: SiiControl)
    ensures
        c.packed().len() == 2,
        ({
            let first = c.packed()[0];
            let second = c.packed()[1];
            &&& first % 2 == 1 <==> c.write_access
            &&& first / 2 % 16 == 0
            &&& first / 32 % 2 == 1 <==> c.emulate_sii
            &&& first / 64 % 2 == 1 <==> c.read_size is Octets8
            &&& first / 128 == 1 <==> c.two_octet_address
            &&& second % 2 == 1 <==> c.read
            &&& second / 2 % 2 == 1 <==> c.write
            &&& second / 4 % 2 == 1 <==> c.reload
            &&& second / 8 % 2 == 1 <==> c.checksum_error
            &&& second / 16 % 2 == 1 <==> c.device_info_error
            &&& second / 32 % 2 == 1 <==> c.command_error
            &&& second / 64 % 2 == 1 <==> c.write_error
            &&& second / 128 == 1 <==> c.busy
        }),
{
    let eight = c.read_size is Octets8;
    let low = [
        c.write_access,
        false,
        false,
        false,
        false,
        c.emulate_sii,
        eight,
        c.two_octet_address,
    ];
    let high = [
        c.read,
        c.write,
        c.reload,
        c.checksum_error,
        c.device_info_error,
        c.command_error,
        c.write_error,
        c.busy,
    ];
    let first = wire::byte_of(low);
    let second = wire::byte_of(high);
    assert(c.packed() =~= seq![first, second]);
    wire::law_byte_of(low);
    wire::law_byte_of(high);
    assert(first / 2 % 16 == 0) by (bit_vector)
        requires
            first / 2 % 2 != 1,
            first / 4 % 2 != 1,
            first / 8 % 2 != 1,
            first / 16 % 2 != 1,
    ;
}

/// A request is the control register, the word it is about, and two bytes that are zero. To read
/// sets the read bit and no other.
pub proof fn law_request_bytes(r: SiiRequest, address: u16)
    ensures
        r.packed().len() == 6,
        r.packed().take(2) == r.control.packed(),
        r.packed()[2] + 256 * r.packed()[3] == r.address,
        r.packed()[4] == 0,
        r.packed()[5] == 0,
        SiiRequest::read_from(address).packed()[0] == 0,
        SiiRequest::read_from(address).packed()[1] == 1,
        SiiRequest::read_from(address).address == address,
{
    assert(r.packed().take(2) =~= r.control.packed());
}

} // verus!
