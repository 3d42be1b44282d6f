//! Where things are in the memory of a SubDevice. The addresses are those of ETG1000.4.

use vstd::prelude::*;

verus! {

/// A register of a SubDevice.
#[derive(Clone, Copy, Debug, PartialEq, Eq, Structural)]
pub enum RegisterAddress {
    /// Type of the SubDevice controller.
    Type,
    /// Supported features.
    SupportFlags,
    /// The address that the main device gives to the SubDevice.
    ConfiguredStationAddress,
    /// The address that the SubDevice gives to itself.
    ConfiguredStationAlias,
    /// State of the ports.
    DlStatus,
    /// The application state that is asked for.
    AlControl,
    /// The application state that was reached.
    AlStatus,
    /// Why a state was not reached.
    AlStatusCode,
    /// Who may access the EEPROM.
    SiiConfig,
    /// EEPROM access.
    SiiControl,
    /// EEPROM data.
    SiiData,
    /// The FMMU with this index.
    Fmmu(u8),
    /// The sync manager with this index.
    SyncManager(u8),
    /// The status byte of the sync manager with this index.
    SyncManagerStatus(u8),
    /// When a frame passed port 0; the times of ports 1 to 3 follow.
    DcTimePort0,
    /// When a frame reached the processing unit.
    DcReceiveTime,
    /// System time.
    DcSystemTime,
    /// System time offset.
    DcSystemTimeOffset,
    /// Transmission delay.
    DcSystemTimeTransmissionDelay,
    /// System time difference.
    DcSystemTimeDifference,
    /// Control loop parameter 1.
    DcControlLoopParam1,
    /// Control loop parameter 3.
    DcControlLoopParam3,
    /// Who controls the cyclic unit.
    DcCyclicUnitControl,
    /// Which sync signals are active.
    DcSyncActive,
    /// Start time of the cyclic operation.
    DcSyncStartTime,
    /// Cycle time of sync signal 0.
    DcSync0CycleTime,
    /// Cycle time of sync signal 1.
    DcSync1CycleTime,
}

/// The number of FMMUs, and of sync managers, that there are addresses for.
pub const CHANNELS: u8 = 16;

impl RegisterAddress {
    /// Where the register is.
    pub open spec fn at(self) -> u16 {
        match self {
            RegisterAddress::Type => 0x0000,
            RegisterAddress::SupportFlags => 0x0008,
            RegisterAddress::ConfiguredStationAddress => 0x0010,
            RegisterAddress::ConfiguredStationAlias => 0x0012,
            RegisterAddress::DlStatus => 0x0110,
            RegisterAddress::AlControl => 0x0120,
            RegisterAddress::AlStatus => 0x0130,
            RegisterAddress::AlStatusCode => 0x0134,
            RegisterAddress::SiiConfig => 0x0500,
            RegisterAddress::SiiControl => 0x0502,
            RegisterAddress::SiiData => 0x0508,
            RegisterAddress::Fmmu(index) => (0x0600 + 16 * index) as u16,
            RegisterAddress::SyncManager(index) => (0x0800 + 8 * index) as u16,
            RegisterAddress::SyncManagerStatus(index) => (0x0805 + 8 * index) as u16,
            RegisterAddress::DcTimePort0 => 0x0900,
            RegisterAddress::DcReceiveTime => 0x0918,
            RegisterAddress::DcSystemTime => 0x0910,
            RegisterAddress::DcSystemTimeOffset => 0x0920,
            RegisterAddress::DcSystemTimeTransmissionDelay => 0x0928,
            RegisterAddress::DcSystemTimeDifference => 0x092c,
            RegisterAddress::DcControlLoopParam1 => 0x0930,
            RegisterAddress::DcControlLoopParam3 => 0x0934,
            RegisterAddress::DcCyclicUnitControl => 0x0980,
            RegisterAddress::DcSyncActive => 0x0981,
            RegisterAddress::DcSyncStartTime => 0x0990,
            RegisterAddress::DcSync0CycleTime => 0x09a0,
            RegisterAddress::DcSync1CycleTime => 0x09a4,
        }
    }

    /// The FMMU with this index.
    pub fn fmmu(index: u8) -> (r: RegisterAddress)
        requires
            index < CHANNELS,
        ensures
            r == RegisterAddress::Fmmu(index),
    {
        RegisterAddress::Fmmu(index)
    }

    /// The sync manager with this index.
    pub fn sync_manager(index: u8) -> (r: RegisterAddress)
        requires
            index < CHANNELS,
        ensures
            r == RegisterAddress::SyncManager(index),
    {
        RegisterAddress::SyncManager(index)
    }

    /// The status byte of the sync manager with this index.
    pub fn sync_manager_status(index: u8) -> (r: RegisterAddress)
        requires
            index < CHANNELS,
        ensures
            r == RegisterAddress::SyncManagerStatus(index),
    {
        RegisterAddress::SyncManagerStatus(index)
    }
}

impl vstd::std_specs::convert::FromSpecImpl<RegisterAddress> for u16 {
    open spec fn obeys_from_spec() -> bool {
        true
    }

    open spec fn from_spec(register: RegisterAddress) -> u16 {
        register.at()
    }
}

impl From<RegisterAddress> for u16 {
    fn from(register: RegisterAddress) -> (r: u16) {
        match register {
            RegisterAddress::Type => 0x0000,
            RegisterAddress::SupportFlags => 0x0008,
            RegisterAddress::ConfiguredStationAddress => 0x0010,
            RegisterAddress::ConfiguredStationAlias => 0x0012,
            RegisterAddress::DlStatus => 0x0110,
            RegisterAddress::AlControl => 0x0120,
            RegisterAddress::AlStatus => 0x0130,
            RegisterAddress::AlStatusCode => 0x0134,
            RegisterAddress::SiiConfig => 0x0500,
            RegisterAddress::SiiControl => 0x0502,
            RegisterAddress::SiiData => 0x0508,
            RegisterAddress::Fmmu(index) => 0x0600 + 16 * (index as u16),
            RegisterAddress::SyncManager(index) => 0x0800 + 8 * (index as u16),
            RegisterAddress::SyncManagerStatus(index) => 0x0805 + 8 * (index as u16),
            RegisterAddress::DcTimePort0 => 0x0900,
            RegisterAddress::DcReceiveTime => 0x0918,
            RegisterAddress::DcSystemTime => 0x0910,
            RegisterAddress::DcSystemTimeOffset => 0x0920,
            RegisterAddress::DcSystemTimeTransmissionDelay => 0x0928,
            RegisterAddress::DcSystemTimeDifference => 0x092c,
            RegisterAddress::DcControlLoopParam1 => 0x0930,
            RegisterAddress::DcControlLoopParam3 => 0x0934,
            RegisterAddress::DcCyclicUnitControl => 0x0980,
            RegisterAddress::DcSyncActive => 0x0981,
            RegisterAddress::DcSyncStartTime => 0x0990,
            RegisterAddress::DcSync0CycleTime => 0x09a0,
            RegisterAddress::DcSync1CycleTime => 0x09a4,
        }
    }
}

/// Where the registers are, as ETG1000.4 numbers them. An FMMU takes sixteen bytes and a sync
/// manager eight, of which the sixth is its status.
pub proof fn law_register_addresses(index: u8)
    requires
        index < 16,
    ensures
        RegisterAddress::Type.at() == 0,
        RegisterAddress::SupportFlags.at() == 0x0008,
        RegisterAddress::ConfiguredStationAddress.at() == 0x0010,
        RegisterAddress::ConfiguredStationAlias.at() == 0x0012,
        RegisterAddress::DlStatus.at() == 0x0110,
        RegisterAddress::AlControl.at() == 0x0120,
        RegisterAddress::AlStatus.at() == 0x0130,
        RegisterAddress::AlStatusCode.at() == 0x0134,
        RegisterAddress::SiiConfig.at() == 0x0500,
        RegisterAddress::SiiControl.at() == 0x0502,
        RegisterAddress::SiiData.at() == 0x0508,
        RegisterAddress::Fmmu(index).at() == 0x0600 + 16 * index,
        RegisterAddress::SyncManager(index).at() == 0x0800 + 8 * index,
        RegisterAddress::SyncManagerStatus(index).at() == 0x0800 + 8 * index + 5,
        RegisterAddress::DcTimePort0.at() == 0x0900,
        RegisterAddress::DcSystemTime.at() == 0x0910,
        RegisterAddress::DcReceiveTime.at() == 0x0918,
        RegisterAddress::DcSystemTimeOffset.at() == 0x0920,
        RegisterAddress::DcSystemTimeTransmissionDelay.at() == 0x0928,
        RegisterAddress::DcSystemTimeDifference.at() == 0x092c,
        RegisterAddress::DcControlLoopParam1.at() == 0x0930,
        RegisterAddress::DcControlLoopParam3.at() == 0x0934,
        RegisterAddress::DcCyclicUnitControl.at() == 0x0980,
        RegisterAddress::DcSyncActive.at() == 0x0981,
        RegisterAddress::DcSyncStartTime.at() == 0x0990,
        RegisterAddress::DcSync0CycleTime.at() == 0x09a0,
        RegisterAddress::DcSync1CycleTime.at() == 0x09a4,
        CHANNELS == 16,
{
}

/// A register becomes the address of its place, and no two registers are at the same place.
pub proof fn law_registers_are_distinct(a: RegisterAddress, b: RegisterAddress)
    requires
        a matches RegisterAddress::Fmmu(i) ==> i < 16,
        a matches RegisterAddress::SyncManager(i) ==> i < 16,
        a matches RegisterAddress::SyncManagerStatus(i) ==> i < 16,
        b matches RegisterAddress::Fmmu(i) ==> i < 16,
        b matches RegisterAddress::SyncManager(i) ==> i < 16,
        b matches RegisterAddress::SyncManagerStatus(i) ==> i < 16,
    ensures
        <u16 as vstd::std_specs::convert::FromSpec<RegisterAddress>>::from_spec(a) == a.at(),
        a.at() == b.at() ==> a == b,
{
}

} // verus!
