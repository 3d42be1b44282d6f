//! What a PDU does, and to which SubDevices.

use crate::wire;
use crate::wire::{pack_u16, pack_u32};
use vstd::prelude::*;

verus! {

/// A command, with the address it goes to.
#[derive(Clone, Copy, Debug, PartialEq, Eq, Structural)]
pub enum Command {
    /// Auto increment address write: to the SubDevice that finds the address counted up to zero.
    Apwr {
        /// The address, which each SubDevice on the way counts up.
        address: u16,
        /// Where in the memory of the SubDevice.
        register: u16,
    },
    /// Configured address read.
    Fprd {
        /// The configured address of the SubDevice.
        address: u16,
        /// Where in the memory of the SubDevice.
        register: u16,
    },
    /// Configured address write.
    Fpwr {
        /// The configured address of the SubDevice.
        address: u16,
        /// Where in the memory of the SubDevice.
        register: u16,
    },
    /// Broadcast read.
    Brd {
        /// Where in the memory of every SubDevice.
        register: u16,
    },
    /// Broadcast write.
    Bwr {
        /// Where in the memory of every SubDevice.
        register: u16,
    },
    /// Logical read and write.
    Lrw {
        /// The logical address.
        logical: u32,
    },
    /// Read by the SubDevice with the configured address, written by all others.
    Frmw {
        /// The configured address of the SubDevice that reads.
        address: u16,
        /// Where in the memory of the SubDevices.
        register: u16,
    },
}

impl Command {
    /// The number that stands for the command on the wire.
    pub open spec fn raw(self) -> u8 {
        match self {
            Command::Apwr { .. } => 0x02,
            Command::Fprd { .. } => 0x04,
            Command::Fpwr { .. } => 0x05,
            Command::Brd { .. } => 0x07,
            Command::Bwr { .. } => 0x08,
            Command::Lrw { .. } => 0x0c,
            Command::Frmw { .. } => 0x0e,
        }
    }

    /// The four address bytes: of a SubDevice and of a place in its memory, or a logical address.
    pub open spec fn address_bytes(self) -> Seq<u8> {
        match self {
            Command::Apwr { address, register } => wire::le16(address) + wire::le16(register),
            Command::Fprd { address, register } => wire::le16(address) + wire::le16(register),
            Command::Fpwr { address, register } => wire::le16(address) + wire::le16(register),
            Command::Brd { register } => wire::le16(0) + wire::le16(register),
            Command::Bwr { register } => wire::le16(0) + wire::le16(register),
            Command::Lrw { logical } => wire::le32(logical),
            Command::Frmw { address, register } => wire::le16(address) + wire::le16(register),
        }
    }

    /// A write to the SubDevice at a position in the network. The address sent is the one that is
    /// zero once the SubDevices before it have each counted it up.
    pub open spec fn at_position(position: u16, register: u16) -> Command {
        Command::Apwr { address: ((0x1_0000 - position) % 0x1_0000) as u16, register }
    }

    /// Write to the SubDevice at a position in the network.
    pub fn apwr(position: u16, register: u16) -> (r: Command)
        ensures
            r == Command::at_position(position, register),
    {
        Command::Apwr { address: 0u16.wrapping_sub(position), register }
    }

    /// Read from the SubDevice with a configured address.
    pub fn fprd(address: u16, register: u16) -> (r: Command)
        ensures
            r == (Command::Fprd { address, register }),
    {
        Command::Fprd { address, register }
    }

    /// Write to the SubDevice with a configured address.
    pub fn fpwr(address: u16, register: u16) -> (r: Command)
        ensures
            r == (Command::Fpwr { address, register }),
    {
        Command::Fpwr { address, register }
    }

    /// Read from every SubDevice.
    pub fn brd(register: u16) -> (r: Command)
        ensures
            r == (Command::Brd { register }),
    {
        Command::Brd { register }
    }

    /// Write to every SubDevice.
    pub fn bwr(register: u16) -> (r: Command)
        ensures
            r == (Command::Bwr { register }),
    {
        Command::Bwr { register }
    }

    /// Read from and write to a logical address.
    pub fn lrw(logical: u32) -> (r: Command)
        ensures
            r == (Command::Lrw { logical }),
    {
        Command::Lrw { logical }
    }

    /// Read from one SubDevice and write to the others.
    pub fn frmw(address: u16, register: u16) -> (r: Command)
        ensures
            r == (Command::Frmw { address, register }),
    {
        Command::Frmw { address, register }
    }

    /// The number that stands for the command on the wire.
    pub fn code(&self) -> (r: u8)
        ensures
            r == self.raw(),
    {
        match self {
            Command::Apwr { .. } => 0x02,
            Command::Fprd { .. } => 0x04,
            Command::Fpwr { .. } => 0x05,
            Command::Brd { .. } => 0x07,
            Command::Bwr { .. } => 0x08,
            Command::Lrw { .. } => 0x0c,
            Command::Frmw { .. } => 0x0e,
        }
    }

    /// The four address bytes.
    pub fn pack(&self) -> (buf: [u8; 4])
        ensures
            buf@ == self.address_bytes(),
    {
        let (address, register) = match *self {
            Command::Apwr { address, register } => (address, register),
            Command::Fprd { address, register } => (address, register),
            Command::Fpwr { address, register } => (address, register),
            Command::Brd { register } => (0u16, register),
            Command::Bwr { register } => (0u16, register),
            Command::Frmw { address, register } => (address, register),
            Command::Lrw { logical } => {
                return pack_u32(logical);
            },
        };
        let high = pack_u16(address);
        let low = pack_u16(register);
        let buf = [high[0], high[1], low[0], low[1]];
        assert(buf@ =~= wire::le16(address) + wire::le16(register));
        buf
    }
}

/// A PDU before it is put into a frame.
#[derive(Debug)]
pub struct Pdu {
    /// What it does, and where.
    pub command: Command,
    /// The data that is sent along.
    pub data: Vec<u8>,
    /// How many data bytes the PDU is to have at least. Those beyond `data` are zero.
    pub len_override: Option<u16>,
}

/// What a [`Pdu`] says.
#[verifier::ext_equal]
pub struct PduView {
    /// What it does, and where.
    pub command: Command,
    /// The data that is sent along.
    pub data: Seq<u8>,
    /// How many data bytes the PDU is to have at least.
    pub len_override: Option<u16>,
}

impl View for Pdu {
    type V = PduView;

    open spec fn view(&self) -> PduView {
        PduView { command: self.command, data: self.data@, len_override: self.len_override }
    }
}

impl PduView {
    /// A PDU that carries data.
    pub open spec fn write(command: Command, data: Seq<u8>) -> PduView {
        PduView { command, data, len_override: None }
    }

    /// A PDU that carries `len` zeros: what is read into, or what memory is blanked with.
    pub open spec fn blank(command: Command, len: u16) -> PduView {
        PduView { command, data: Seq::empty(), len_override: Some(len) }
    }
}

impl Pdu {
    /// A PDU that carries data.
    pub fn write(command: Command, data: Vec<u8>) -> (r: Pdu)
        ensures
            r@ == PduView::write(command, data@),
    {
        Pdu { command, data, len_override: None }
    }

    /// A PDU that carries `len` zeros: what is read into, or what memory is blanked with.
    pub fn blank(command: Command, len: u16) -> (r: Pdu)
        ensures
            r@ == PduView::blank(command, len),
    {
        Pdu { command, data: Vec::new(), len_override: Some(len) }
    }
}

/// A write to a position is zero when it reaches the SubDevice there, and at none before it: each
/// SubDevice on the way counts the address up by one.
pub proof fn law_position_counts_up_to_zero(position: u16, register: u16, passed: u16)
    requires
        passed <= position,
    ensures
        Command::at_position(position, register) matches Command::Apwr { address, register: at }
            && at == register && (((address + passed) % 0x1_0000 == 0) <==> passed == position),
{
}

/// The code of a command and its four address bytes: the address of a SubDevice, or zero where all
/// are meant, and then the place in its memory, or else one logical address, each with its lowest
/// byte first.
pub proof fn law_command_on_the_wire(c: Command)
    ensures
        c.address_bytes().len() == 4,
        ({
            let b = c.address_bytes();
            let first = b[0] + 256 * b[1];
            let second = b[2] + 256 * b[3];
            match c {
                Command::Apwr { address, register } => {
                    c.raw() == 2 && first == address && second == register
                },
                Command::Fprd { address, register } => {
                    c.raw() == 4 && first == address && second == register
                },
                Command::Fpwr { address, register } => {
                    c.raw() == 5 && first == address && second == register
                },
                Command::Brd { register } => c.raw() == 7 && first == 0 && second == register,
                Command::Bwr { register } => c.raw() == 8 && first == 0 && second == register,
                Command::Lrw { logical } => c.raw() == 12 && first + 0x1_0000 * second == logical,
                Command::Frmw { address, register } => {
                    c.raw() == 14 && first == address && second == register
                },
            }
        }),
{
    if let Command::Lrw { logical } = c {
        wire::law_u32_bytes(logical);
    }
}

/// A PDU that carries data carries that data and asks for no other length; a blank one carries none
/// and asks for the length that was given. Both do what they were told to do.
pub proof fn law_pdu_parts(pdu: Pdu, command: Command, data: Seq<u8>, len: u16)
    ensures
        PduView::write(command, data).command == command,
        PduView::write(command, data).data == data,
        PduView::write(command, data).len_override is None,
        PduView::blank(command, len).command == command,
        PduView::blank(command, len).data.len() == 0,
        PduView::blank(command, len).len_override == Some(len),
        pdu@.command == pdu.command,
        pdu@.data == pdu.data@,
        pdu@.len_override == pdu.len_override,
{
}

} // verus!
