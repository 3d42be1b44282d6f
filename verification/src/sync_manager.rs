//! Sync managers: how they are described in an EEPROM, and how they are configured.

use crate::wire;
use crate::wire::{pack_bit, pack_u16};
use vstd::prelude::*;

verus! {

/// How a sync manager buffers data.
#[derive(Clone, Copy, Debug, PartialEq, Eq, Structural)]
pub enum OperationMode {
    /// Three buffers for cyclic process data.
    Normal,
    /// One buffer for mailbox messages.
    Mailbox,
}

/// Which side reads the buffer.
#[derive(Clone, Copy, Debug, PartialEq, Eq, Structural)]
pub enum Direction {
    /// The main device reads.
    MasterRead,
    /// The main device writes.
    MasterWrite,
}

/// The control byte of a sync manager, defined in ETG1000.4 Table 58.
#[derive(Clone, Copy, Debug, PartialEq, Eq, Structural)]
pub struct Control {
    /// How data is buffered.
    pub operation_mode: OperationMode,
    /// Which side reads the buffer.
    pub direction: Direction,
    /// The network is notified of writes.
    pub ecat_event_enable: bool,
    /// The SubDevice application is notified of writes.
    pub dls_user_event_enable: bool,
    /// Writes are watched over.
    pub watchdog_enable: bool,
}

impl Control {
    /// The control byte.
    pub open spec fn packed(self) -> u8 {
        let mode: int = if self.operation_mode is Normal {
            0
        } else {
            2
        };
        let direction: int = if self.direction is MasterRead {
            0
        } else {
            1
        };
        (mode + 4 * direction + 16 * wire::bit(self.ecat_event_enable) + 32 * wire::bit(
            self.dls_user_event_enable,
        ) + 64 * wire::bit(self.watchdog_enable)) as u8
    }

    /// Packs the control byte.
    pub fn pack(&self) -> (b: u8)
        ensures
            b == self.packed(),
    {
        let mode: u8 = match self.operation_mode {
            OperationMode::Normal => 0,
            OperationMode::Mailbox => 2,
        };
        let direction: u8 = match self.direction {
            Direction::MasterRead => 0,
            Direction::MasterWrite => 1,
        };
        mode + 4 * direction + 16 * pack_bit(self.ecat_event_enable) + 32 * pack_bit(
            self.dls_user_event_enable,
        ) + 64 * pack_bit(self.watchdog_enable)
    }
}

/// The status byte of a sync manager, defined in ETG1000.4 Table 58.
#[derive(Clone, Copy, Debug, PartialEq, Eq, Structural)]
pub struct Status {
    /// The bits of the byte.
    pub bits: u8,
}

/// The number of bytes of [`Status`].
pub const STATUS_LEN: u16 = 1;

/// The activation bytes of a sync manager, defined in ETG1000.4 Table 58.
#[derive(Clone, Copy, Debug, PartialEq, Eq, Structural)]
pub struct Enable {
    /// The sync manager is active.
    pub enable: bool,
    /// A mailbox message is asked for again.
    pub repeat: bool,
    /// Writes from the network raise a distributed clocks event.
    pub enable_dc_event_bus_write: bool,
    /// Writes from the SubDevice raise a distributed clocks event.
    pub enable_dc_event_local_write: bool,
    /// The SubDevice has switched the sync manager off.
    pub channel_pdi_disabled: bool,
    /// A repeat request is acknowledged.
    pub repeat_ack: bool,
}

impl Enable {
    /// The two activation bytes.
    pub open spec fn packed(self) -> Seq<u8> {
        seq![
            (wire::bit(self.enable) + 2 * wire::bit(self.repeat) + 64 * wire::bit(
                self.enable_dc_event_bus_write,
            ) + 128 * wire::bit(self.enable_dc_event_local_write)) as u8,
            (wire::bit(self.channel_pdi_disabled) + 2 * wire::bit(self.repeat_ack)) as u8,
        ]
    }

    /// Active or not, and nothing else.
    pub open spec fn only(enable: bool) -> Enable {
        Enable {
            enable,
            repeat: false,
            enable_dc_event_bus_write: false,
            enable_dc_event_local_write: false,
            channel_pdi_disabled: false,
            repeat_ack: false,
        }
    }

    /// Packs the activation bytes.
    pub fn pack(&self) -> (buf: [u8; 2])
        ensures
            buf@ == self.packed(),
    {
        let first: u8 = pack_bit(self.enable) + 2 * pack_bit(self.repeat) + 64 * pack_bit(
            self.enable_dc_event_bus_write,
        ) + 128 * pack_bit(self.enable_dc_event_local_write);
        let second: u8 = pack_bit(self.channel_pdi_disabled) + 2 * pack_bit(self.repeat_ack);
        let buf = [first, second];
        assert(buf@ =~= self.packed());
        buf
    }
}

/// The configuration of a sync manager, eight bytes, defined in ETG1000.4 Table 58.
#[derive(Clone, Copy, Debug, PartialEq, Eq, Structural)]
pub struct SyncManagerChannel {
    /// Where in the memory of the SubDevice the buffer starts.
    pub physical_start_address: u16,
    /// How long the buffer is.
    pub length_bytes: u16,
    /// The control byte.
    pub control: Control,
    /// The status byte.
    pub status: Status,
    /// The activation bytes.
    pub enable: Enable,
}

/// The number of bytes of [`SyncManagerChannel`].
pub const SYNC_MANAGER_LEN: u16 = 8;

impl SyncManagerChannel {
    /// The eight bytes.
    pub open spec fn packed(self) -> Seq<u8> {
        wire::le16(self.physical_start_address) + wire::le16(self.length_bytes) + seq![
            self.control.packed(),
            self.status.bits,
        ] + self.enable.packed()
    }

    /// Packs the configuration.
    pub fn pack(&self) -> (buf: [u8; 8])
        ensures
            buf@ == self.packed(),
    {
        let start = pack_u16(self.physical_start_address);
        let length = pack_u16(self.length_bytes);
        let enable = self.enable.pack();
        let buf = [
            start[0],
            start[1],
            length[0],
            length[1],
            self.control.pack(),
            self.status.bits,
            enable[0],
            enable[1],
        ];
        assert(buf@ =~= self.packed());
        buf
    }
}

/// The flags of a sync manager in an EEPROM, defined in ETG1000.6 Table 24.
#[derive(Clone, Copy, Debug, PartialEq, Eq, Structural)]
pub struct SyncManagerEnable {
    /// The bits of the byte; the lowest one says that the sync manager is to be active.
    pub bits: u8,
}

impl SyncManagerEnable {
    /// Whether the sync manager is to be active.
    pub open spec fn active(self) -> bool {
        self.bits % 2 == 1
    }

    /// Whether the sync manager is to be active.
    pub fn is_enabled(&self) -> (r: bool)
        ensures
            r == self.active(),
    {
        self.bits % 2 == 1
    }
}

/// A sync manager as an EEPROM describes it.
#[derive(Clone, Copy, Debug, PartialEq, Eq, Structural)]
pub struct SyncManager {
    /// Where in the memory of the SubDevice the buffer starts.
    pub start_addr: u16,
    /// How long the buffer is by default.
    pub length: u16,
    /// The control byte.
    pub control: Control,
    /// The flags.
    pub enable: SyncManagerEnable,
}

impl SyncManager {
    /// The configuration that the description calls for, with a buffer of `length_bytes`.
    pub open spec fn channel(self, length_bytes: u16) -> SyncManagerChannel {
        SyncManagerChannel {
            physical_start_address: self.start_addr,
            length_bytes,
            control: self.control,
            status: Status { bits: 0 },
            enable: Enable::only(self.enable.active()),
        }
    }

    /// The configuration that the description calls for, with a buffer of `length_bytes`.
    pub fn to_channel(&self, length_bytes: u16) -> (r: SyncManagerChannel)
        ensures
            r == self.channel(length_bytes),
    {
        SyncManagerChannel {
            physical_start_address: self.start_addr,
            length_bytes,
            control: self.control,
            status: Status { bits: 0 },
            enable: Enable {
                enable: self.enable.is_enabled(),
                repeat: false,
                enable_dc_event_bus_write: false,
                enable_dc_event_local_write: false,
                channel_pdi_disabled: false,
                repeat_ack: false,
            },
        }
    }
}

/// Where each field of the control byte is: two bits for the mode, of which the higher one stands
/// for a mailbox, two for the direction, of which the lower one stands for a write by the main
/// device, then the events, and the watchdog.
pub proof fn law_control_bits(c: Control)
    ensures
        c.packed() % 2 == 0,
        c.packed() / 2 % 2 == 1 <==> c.operation_mode is Mailbox,
        c.packed() / 4 % 2 == 1 <==> c.direction is MasterWrite,
        c.packed() / 8 % 2 == 0,
        c.packed() / 16 % 2 == 1 <==> c.ecat_event_enable,
        c.packed() / 32 % 2 == 1 <==> c.dls_user_event_enable,
        c.packed() / 64 % 2 == 1 <==> c.watchdog_enable,
        c.packed() < 128,
{
}

/// Where each flag of the activation bytes is: active and repeat are the lowest bits of the first
/// one, the events its highest ones; the second one has the answers of the SubDevice.
pub proof fn law_enable_bits(e: Enable)
    ensures
        e.packed().len() == 2,
        e.packed()[0] % 2 == 1 <==> e.enable,
        e.packed()[0] / 2 % 2 == 1 <==> e.repeat,
        e.packed()[0] / 4 % 16 == 0,
        e.packed()[0] / 64 % 2 == 1 <==> e.enable_dc_event_bus_write,
        e.packed()[0] / 128 == 1 <==> e.enable_dc_event_local_write,
        e.packed()[1] % 2 == 1 <==> e.channel_pdi_disabled,
        e.packed()[1] / 2 == 1 <==> e.repeat_ack,
        e.packed()[1] < 4,
{
}

/// A configuration is where the buffer starts, how long it is, the control byte, the status byte,
/// and the activation bytes.
pub proof fn law_channel_bytes(c: SyncManagerChannel)
    ensures
        SYNC_MANAGER_LEN == 8,
        STATUS_LEN == 1,
        c.packed().len() == 8,
        c.packed()[0] + 256 * c.packed()[1] == c.physical_start_address,
        c.packed()[2] + 256 * c.packed()[3] == c.length_bytes,
        c.packed()[4] == c.control.packed(),
        c.packed()[5] == c.status.bits,
        c.packed()[6] == c.enable.packed()[0],
        c.packed()[7] == c.enable.packed()[1],
{
}

/// A sync manager is configured to start where its description says and to be as long as was asked
/// for, with the control byte of the description and no status. It is active exactly where the
/// lowest flag of the description is set, and has no other flag.
pub proof fn law_configured_as_described(m: SyncManager, length_bytes: u16)
    ensures
        ({
            let c = m.channel(length_bytes);
            &&& c.physical_start_address == m.start_addr
            &&& c.length_bytes == length_bytes
            &&& c.control == m.control
            &&& c.packed()[5] == 0
            &&& c.packed()[6] == m.enable.bits % 2
            &&& c.packed()[7] == 0
        }),
{
}

} // verus!
