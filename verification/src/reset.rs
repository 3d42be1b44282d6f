//! Resetting every SubDevice in the network.

use crate::command::{Command, Pdu, PduView};
use crate::fmmu::FMMU_LEN;
use crate::pdu_loop;
use crate::register::{RegisterAddress, CHANNELS};
use crate::subdevice::AlControl;
use crate::sync_manager::SYNC_MANAGER_LEN;
use crate::wire;
use crate::wire::pack_u16;
use vstd::prelude::*;

verus! {

/// The number of PDUs that a reset takes.
pub const RESET_STEPS: usize = 44;

/// Writes zeros to the memory of every SubDevice.
pub open spec fn blanked(start: u16, len: u16) -> PduView {
    PduView::blank(Command::Bwr { register: start }, len)
}

/// Writes a value to a register of every SubDevice.
pub open spec fn broadcast(register: RegisterAddress, data: Seq<u8>) -> PduView {
    PduView::write(Command::Bwr { register: register.at() }, data)
}

/// The distributed clocks registers that are set to zero, with their sizes.
pub open spec fn clock_registers() -> Seq<(RegisterAddress, u16)> {
    seq![
        (RegisterAddress::DcCyclicUnitControl, 1),
        (RegisterAddress::DcSystemTime, 8),
        (RegisterAddress::DcSystemTimeOffset, 8),
        (RegisterAddress::DcSystemTimeTransmissionDelay, 4),
        (RegisterAddress::DcSystemTimeDifference, 4),
        (RegisterAddress::DcSyncActive, 1),
        (RegisterAddress::DcSyncStartTime, 4),
        (RegisterAddress::DcSync0CycleTime, 4),
        (RegisterAddress::DcSync1CycleTime, 4),
    ]
}

/// The PDUs that reset every SubDevice, in order. All go to `INIT`; the FMMUs and the sync managers
/// are cleared one by one, as some SubDevices cannot blank the entire region; the clocks are handed
/// back to the network and set to zero; and the control loop is given its initial parameters
/// (ETG1020 Section 22.2.4), the first one last, which resets the control unit.
pub open spec fn reset_plan() -> Seq<PduView> {
    seq![broadcast(RegisterAddress::AlControl, AlControl::back_to_init().packed())] + Seq::new(
        CHANNELS as nat,
        |i: int| blanked(RegisterAddress::Fmmu(i as u8).at(), FMMU_LEN),
    ) + Seq::new(
        CHANNELS as nat,
        |i: int| blanked(RegisterAddress::SyncManager(i as u8).at(), SYNC_MANAGER_LEN),
    ) + Seq::new(
        clock_registers().len(),
        |i: int| blanked(clock_registers()[i].0.at(), clock_registers()[i].1),
    ) + seq![
        broadcast(RegisterAddress::DcControlLoopParam3, wire::le16(0x0c00)),
        broadcast(RegisterAddress::DcControlLoopParam1, wire::le16(0x1000)),
    ]
}

/// A reset takes as many PDUs as it says.
pub proof fn law_reset_plan_len()
    ensures
        reset_plan().len() == RESET_STEPS,
{
}

/// A reset begins with taking every SubDevice to `INIT`, clears each FMMU and each sync manager
/// whole, and ends with the control loop: the first parameter is written after the third one.
pub proof fn law_reset_clears_everything(index: u8)
    requires
        index < CHANNELS,
    ensures
        reset_plan()[0] == broadcast(
            RegisterAddress::AlControl,
            AlControl::back_to_init().packed(),
        ),
        reset_plan()[1 + index] == blanked(RegisterAddress::Fmmu(index).at(), FMMU_LEN),
        reset_plan()[1 + CHANNELS + index] == blanked(
            RegisterAddress::SyncManager(index).at(),
            SYNC_MANAGER_LEN,
        ),
        reset_plan()[RESET_STEPS - 2] == broadcast(
            RegisterAddress::DcControlLoopParam3,
            wire::le16(0x0c00),
        ),
        reset_plan()[RESET_STEPS - 1] == broadcast(
            RegisterAddress::DcControlLoopParam1,
            wire::le16(0x1000),
        ),
{
}

/// The places that are cleared for the FMMUs, and those for the sync managers, follow each other
/// without a gap and without an overlap.
pub proof fn law_channels_are_adjacent(index: u8)
    requires
        index + 1 < CHANNELS,
    ensures
        RegisterAddress::Fmmu(index).at() + FMMU_LEN == RegisterAddress::Fmmu(
            (index + 1) as u8,
        ).at(),
        RegisterAddress::SyncManager(index).at() + SYNC_MANAGER_LEN
            == RegisterAddress::SyncManager((index + 1) as u8).at(),
{
}

/// Blanking memory sends as many zeros as it says, and nothing else.
pub proof fn law_blank_memory_is_zeros(start: u16, len: u16)
    ensures
        pdu_loop::padded(blanked(start, len)) == wire::zeros(len as nat),
{
    assert(pdu_loop::padded(blanked(start, len)) =~= wire::zeros(len as nat));
}

/// Writes zeros to the memory of every SubDevice.
pub fn blank_memory(start: u16, len: u16) -> (r: Pdu)
    ensures
        r@ == blanked(start, len),
{
    Pdu::blank(Command::bwr(start), len)
}

/// Writes a value of two bytes to a register of every SubDevice.
fn broadcast_write(register: RegisterAddress, value: [u8; 2]) -> (r: Pdu)
    ensures
        r@ == broadcast(register, value@),
{
    let mut data: Vec<u8> = Vec::new();
    data.extend_from_slice(&value);
    assert(data@ =~= value@);
    Pdu::write(Command::bwr(register.into()), data)
}

/// One of the PDUs that reset every SubDevice.
pub fn reset_step(step: usize) -> (r: Pdu)
    requires
        step < RESET_STEPS,
    ensures
        r@ == reset_plan()[step as int],
{
    let channels: usize = CHANNELS as usize;
    if step == 0 {
        return broadcast_write(RegisterAddress::AlControl, AlControl::reset().pack());
    }
    if step < 1 + channels {
        let index: u8 = (step - 1) as u8;
        return blank_memory(RegisterAddress::fmmu(index).into(), FMMU_LEN);
    }
    if step < 1 + 2 * channels {
        let index: u8 = (step - 1 - channels) as u8;
        return blank_memory(RegisterAddress::sync_manager(index).into(), SYNC_MANAGER_LEN);
    }
    match step - 1 - 2 * channels {
        0 => blank_memory(RegisterAddress::DcCyclicUnitControl.into(), 1),
        1 => blank_memory(RegisterAddress::DcSystemTime.into(), 8),
        2 => blank_memory(RegisterAddress::DcSystemTimeOffset.into(), 8),
        3 => blank_memory(RegisterAddress::DcSystemTimeTransmissionDelay.into(), 4),
        4 => blank_memory(RegisterAddress::DcSystemTimeDifference.into(), 4),
        5 => blank_memory(RegisterAddress::DcSyncActive.into(), 1),
        6 => blank_memory(RegisterAddress::DcSyncStartTime.into(), 4),
        7 => blank_memory(RegisterAddress::DcSync0CycleTime.into(), 4),
        8 => blank_memory(RegisterAddress::DcSync1CycleTime.into(), 4),
        9 => broadcast_write(RegisterAddress::DcControlLoopParam3, pack_u16(0x0c00)),
        _ => broadcast_write(RegisterAddress::DcControlLoopParam1, pack_u16(0x1000)),
    }
}

/// The steps of a reset, one by one. All of them go to every SubDevice. The first asks for `INIT`
/// and acknowledges an error. Then come sixteen zeros for each of the sixteen FMMUs, and eight for
/// each of the sixteen sync managers. Then the registers of the clocks are zeroed, each over its
/// own length; and at last the third parameter of the control loop is set to 0x0c00 and the first
/// one to 0x1000.
pub proof fn law_reset_steps(step: int)
    requires
        0 <= step < 44,
    ensures
        RESET_STEPS == 44,
        reset_plan().len() == 44,
        ({
            let p = reset_plan()[step];
            let (register, len): (int, int) = if step == 0 {
                (0x0120, 2)
            } else if step <= 16 {
                (0x0600 + 16 * (step - 1), 16)
            } else if step <= 32 {
                (0x0800 + 8 * (step - 17), 8)
            } else if step == 33 {
                (0x0980, 1)
            } else if step == 34 {
                (0x0910, 8)
            } else if step == 35 {
                (0x0920, 8)
            } else if step == 36 {
                (0x0928, 4)
            } else if step == 37 {
                (0x092c, 4)
            } else if step == 38 {
                (0x0981, 1)
            } else if step == 39 {
                (0x0990, 4)
            } else if step == 40 {
                (0x09a0, 4)
            } else if step == 41 {
                (0x09a4, 4)
            } else if step == 42 {
                (0x0934, 2)
            } else {
                (0x0930, 2)
            };
            &&& p.command matches Command::Bwr { register: at } && at == register
            &&& if step == 0 || step >= 42 {
                &&& p.len_override is None
                &&& p.data.len() == len
                &&& p.data[0] == if step == 0 {
                    0x11int
                } else {
                    0
                }
                &&& p.data[1] == if step == 0 {
                    0int
                } else if step == 42 {
                    0x0c
                } else {
                    0x10
                }
            } else {
                &&& p.data.len() == 0
                &&& p.len_override matches Some(asked)
                &&& asked == len
            }
        }),
{
}

/// Blanking goes to the given place of every SubDevice, and writes no byte that is not zero.
pub proof fn law_blanking_is_a_broadcast(start: u16, len: u16)
    ensures
        blanked(start, len).command == (Command::Bwr { register: start }),
        blanked(start, len).data.len() == 0,
        blanked(start, len).len_override == Some(len),
{
}

} // verus!
