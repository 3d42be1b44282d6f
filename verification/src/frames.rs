//! What goes over the wire for each PDU that a main device prepares, byte by byte.

use crate::command::{Command, PduView};
use crate::config::{MainDeviceConfig, RetryBehaviour, Timeouts};
use crate::eeprom::{SiiControl, SiiOwner, SiiRequest, SII_CONTROL_LEN};
use crate::error::{Error, PduError};
use crate::fmmu::{Fmmu, FMMU_LEN};
use crate::maindevice;
use crate::maindevice::{InFlight, MainDevice, MainDeviceState, Prepared};
use crate::pdu_loop;
use crate::pdu_loop::{FrameState, PduLoop, PduResponseHandle, ReceivedPdu, SendableFrame};
use crate::register::RegisterAddress;
use crate::reset;
use crate::subdevice::{AlControl, SubDevice, SubDeviceState, AL_CONTROL_LEN};
use crate::sync_manager::{SyncManager, SyncManagerChannel, STATUS_LEN};
use crate::wait::WaitForState;
use crate::wire;
use vstd::prelude::*;

verus! {

/// How many data bytes go out: as many as there are, or as were asked for if that is more.
pub open spec fn longer(len: int, len_override: Option<u16>) -> int {
    match len_override {
        Some(asked) => if asked > len {
            asked as int
        } else {
            len
        },
        None => len,
    }
}

/// The number that stands for a command.
pub open spec fn code_of(command: Command) -> int {
    match command {
        Command::Apwr { .. } => 2,
        Command::Fprd { .. } => 4,
        Command::Fpwr { .. } => 5,
        Command::Brd { .. } => 7,
        Command::Bwr { .. } => 8,
        Command::Lrw { .. } => 12,
        Command::Frmw { .. } => 14,
    }
}

/// What the first two address bytes of a command say.
pub open spec fn first_of(command: Command) -> int {
    match command {
        Command::Apwr { address, .. } => address as int,
        Command::Fprd { address, .. } => address as int,
        Command::Fpwr { address, .. } => address as int,
        Command::Brd { .. } => 0,
        Command::Bwr { .. } => 0,
        Command::Lrw { logical } => logical as int % 0x1_0000,
        Command::Frmw { address, .. } => address as int,
    }
}

/// What the last two address bytes of a command say.
pub open spec fn second_of(command: Command) -> int {
    match command {
        Command::Apwr { register, .. } => register as int,
        Command::Fprd { register, .. } => register as int,
        Command::Fpwr { register, .. } => register as int,
        Command::Brd { register } => register as int,
        Command::Bwr { register } => register as int,
        Command::Lrw { logical } => logical as int / 0x1_0000,
        Command::Frmw { register, .. } => register as int,
    }
}

/// Whether the bytes of a frame are those of a single PDU: the number of bytes after the first two,
/// with a one in the highest four bits; the code and the index; the address; the number of data
/// bytes; two zeros; the data, and zeros up to the number of data bytes; and two zeros.
pub open spec fn is_frame(
    b: Seq<u8>,
    code: int,
    index: int,
    first: int,
    second: int,
    data: Seq<u8>,
    len: int,
) -> bool {
    &&& b.len() == 14 + len
    &&& data.len() <= len
    &&& b[0] + 256 * b[1] == 0x1000 + 12 + len
    &&& b[2] == code
    &&& b[3] == index
    &&& b[4] + 256 * b[5] == first
    &&& b[6] + 256 * b[7] == second
    &&& b[8] + 256 * b[9] == len
    &&& b[10] == 0 && b[11] == 0
    &&& forall|i: int| 0 <= i < data.len() ==> b[12 + i] == #[trigger] data[i]
    &&& forall|i: int| data.len() <= i < len ==> #[trigger] b[12 + i] == 0
    &&& b[12 + len] == 0 && b[13 + len] == 0
}

/// Whether a main device has made a frame of a single PDU and claimed a slot for it that was free.
/// It does so exactly where a slot is free and the data and twelve further bytes fit into a frame;
/// else it says which of the two is missing. It keeps everything but the slots and the counts that
/// go with them, and every other slot.
pub open spec fn sends(
    before: MainDeviceState,
    after: MainDeviceState,
    r: Prepared,
    code: int,
    first: int,
    second: int,
    data: Seq<u8>,
    len: int,
) -> bool {
    let slots = before.pdu_loop;
    let free = exists|i: int|
        0 <= i < slots.frames.len() && (#[trigger] slots.frames[i]) is Free;
    &&& after.num_subdevices == before.num_subdevices
    &&& after.dc_reference == before.dc_reference
    &&& after.timeouts == before.timeouts
    &&& after.config == before.config
    &&& after.pdu_loop.max_frame_data == slots.max_frame_data
    &&& after.pdu_loop.exiting == slots.exiting
    &&& after.pdu_loop.sender_woken == slots.sender_woken
    &&& after.pdu_loop.frames.len() == slots.frames.len()
    &&& match r {
        Ok(Some((frame, handle))) => {
            let slot = frame.slot as int;
            &&& slot < slots.frames.len()
            &&& slots.frames[slot] is Free
            &&& len + 12 <= slots.max_frame_data
            &&& is_frame(frame.bytes@, code, slots.next_pdu as int, first, second, data, len)
            &&& handle.command_code == code
            &&& handle.pdu_idx == slots.next_pdu
            &&& handle.alloc_size == len + 12
            &&& after.pdu_loop.frames[slot] is Sending
            &&& after.pdu_loop.next_pdu == (slots.next_pdu + 1) % 256
            &&& forall|i: int|
                0 <= i < slots.frames.len() && i != slot ==> #[trigger] after.pdu_loop.frames[i]
                    == slots.frames[i]
        },
        Ok(None) => false,
        Err(Error::Pdu(PduError::SwapState)) => !free && after == before,
        Err(Error::Pdu(PduError::TooLong)) => {
            &&& free
            &&& len + 12 > slots.max_frame_data
            &&& after.pdu_loop.frames == slots.frames
            &&& after.pdu_loop.next_pdu == (slots.next_pdu + 1) % 256
        },
        Err(_) => false,
    }
}

proof fn lemma_sends(before: MainDeviceState, after: MainDeviceState, pdu: PduView, r: Prepared)
    requires
        before.wf(),
        maindevice::prepares(before, after, pdu, r),
    ensures
        sends(
            before,
            after,
            r,
            code_of(pdu.command),
            first_of(pdu.command),
            second_of(pdu.command),
            pdu.data,
            longer(pdu.data.len() as int, pdu.len_override),
        ),
{
    let s = before.pdu_loop;
    pdu_loop::law_prepare_takes_a_free_slot(s, pdu, FrameState::Sending);
    pdu_loop::law_free_slot(s);
    if let Ok(Some((frame, handle))) = r {
        lemma_is_frame(s, pdu, FrameState::Sending);
    }
}

/// What [`MainDevice::prep_rx_tx`] sends: a logical read and write at the given address, with every
/// byte it was given, and none besides.
pub proof fn law_process_data_goes_out_whole(start_addr: u32, bytes: &[u8])
    ensures
        forall|d: &mut MainDevice, r: Prepared|
            (*d)@.wf() && #[trigger] call_ensures(
                MainDevice::prep_rx_tx,
                (d, start_addr, bytes),
                r,
            ) ==> sends(
                (*d)@,
                (*final(d))@,
                r,
                12,
                start_addr as int % 0x1_0000,
                start_addr as int / 0x1_0000,
                bytes@,
                bytes@.len() as int,
            ),
{
    assert forall|d: &mut MainDevice, r: Prepared|
        (*d)@.wf() && #[trigger] call_ensures(
            MainDevice::prep_rx_tx,
            (d, start_addr, bytes),
            r,
        ) implies sends(
        (*d)@,
        (*final(d))@,
        r,
        12,
        start_addr as int % 0x1_0000,
        start_addr as int / 0x1_0000,
        bytes@,
        bytes@.len() as int,
    ) by {
        let pdu = PduView::write(Command::Lrw { logical: start_addr }, bytes@);
        lemma_sends((*d)@, (*final(d))@, pdu, r);
    }
}

/// What [`MainDevice::prep_send_frame`] sends: what it was told to, with every byte it was given,
/// and zeros up to the length that was asked for.
pub proof fn law_any_pdu_goes_out(command: Command, data: &[u8], len_override: Option<u16>)
    ensures
        forall|d: &mut MainDevice, r: Prepared|
            (*d)@.wf() && #[trigger] call_ensures(
                MainDevice::prep_send_frame,
                (d, command, data, len_override),
                r,
            ) ==> sends(
                (*d)@,
                (*final(d))@,
                r,
                code_of(command),
                first_of(command),
                second_of(command),
                data@,
                longer(data@.len() as int, len_override),
            ),
{
    assert forall|d: &mut MainDevice, r: Prepared|
        (*d)@.wf() && #[trigger] call_ensures(
            MainDevice::prep_send_frame,
            (d, command, data, len_override),
            r,
        ) implies sends(
        (*d)@,
        (*final(d))@,
        r,
        code_of(command),
        first_of(command),
        second_of(command),
        data@,
        longer(data@.len() as int, len_override),
    ) by {
        lemma_sends((*d)@, (*final(d))@, PduView { command, data: data@, len_override }, r);
    }
}

/// What [`MainDevice::prep_count_subdevices`] sends: a read of one byte from every SubDevice.
pub proof fn law_count_frame()
    ensures
        forall|d: &mut MainDevice, r: Prepared|
            (*d)@.wf() && #[trigger] call_ensures(
                MainDevice::prep_count_subdevices,
                (d,),
                r,
            ) ==> sends(
                (*d)@,
                (*final(d))@,
                r,
                7,
                0,
                0,
                Seq::<u8>::empty(),
                1,
            ),
{
    assert forall|d: &mut MainDevice, r: Prepared|
        (*d)@.wf() && #[trigger] call_ensures(
            MainDevice::prep_count_subdevices,
            (d,),
            r,
        ) implies sends(
        (*d)@,
        (*final(d))@,
        r,
        7,
        0,
        0,
        Seq::<u8>::empty(),
        1,
    ) by {
        let pdu = PduView::blank(Command::Brd { register: RegisterAddress::Type.at() }, 1);
        lemma_sends((*d)@, (*final(d))@, pdu, r);
    }
}

/// What [`MainDevice::prep_wait_for_state`] sends, whichever state is waited for: a read of the two
/// bytes of AL status from every SubDevice.
pub proof fn law_state_frame(state: SubDeviceState)
    ensures
        forall|d: &mut MainDevice, r: Prepared|
            (*d)@.wf() && #[trigger] call_ensures(
                MainDevice::prep_wait_for_state,
                (d, state),
                r,
            ) ==> sends(
                (*d)@,
                (*final(d))@,
                r,
                7,
                0,
                0x0130,
                Seq::<u8>::empty(),
                2,
            ),
{
    assert forall|d: &mut MainDevice, r: Prepared|
        (*d)@.wf() && #[trigger] call_ensures(
            MainDevice::prep_wait_for_state,
            (d, state),
            r,
        ) implies sends(
        (*d)@,
        (*final(d))@,
        r,
        7,
        0,
        0x0130,
        Seq::<u8>::empty(),
        2,
    ) by {
        let command = Command::Brd { register: RegisterAddress::AlStatus.at() };
        let pdu = PduView::blank(command, AL_CONTROL_LEN);
        lemma_sends((*d)@, (*final(d))@, pdu, r);
    }
}

/// What [`MainDevice::prep_wait_subdevice_state`] sends, whichever state is waited for: a read of
/// the two bytes of AL status from one SubDevice.
pub proof fn law_subdevice_state_frame(address: u16, state: SubDeviceState)
    ensures
        forall|d: &mut MainDevice, r: Prepared|
            (*d)@.wf() && #[trigger] call_ensures(
                MainDevice::prep_wait_subdevice_state,
                (d, address, state),
                r,
            ) ==> sends(
                (*d)@,
                (*final(d))@,
                r,
                4,
                address as int,
                0x0130,
                Seq::<u8>::empty(),
                2,
            ),
{
    assert forall|d: &mut MainDevice, r: Prepared|
        (*d)@.wf() && #[trigger] call_ensures(
            MainDevice::prep_wait_subdevice_state,
            (d, address, state),
            r,
        ) implies sends(
        (*d)@,
        (*final(d))@,
        r,
        4,
        address as int,
        0x0130,
        Seq::<u8>::empty(),
        2,
    ) by {
        let command = Command::Fprd { address, register: RegisterAddress::AlStatus.at() };
        let pdu = PduView::blank(command, AL_CONTROL_LEN);
        lemma_sends((*d)@, (*final(d))@, pdu, r);
    }
}

/// What [`MainDevice::prep_request_subdevice_state`] sends: a write to AL control of one SubDevice,
/// of the number of the state and no other bit.
pub proof fn law_state_request_frame(address: u16, state: SubDeviceState)
    ensures
        forall|d: &mut MainDevice, r: Prepared|
            (*d)@.wf() && #[trigger] call_ensures(
                MainDevice::prep_request_subdevice_state,
                (d, address, state),
                r,
            ) ==> sends(
                (*d)@,
                (*final(d))@,
                r,
                5,
                address as int,
                0x0120,
                seq![(state.raw() % 16) as u8, 0u8],
                2,
            ),
{
    assert forall|d: &mut MainDevice, r: Prepared|
        (*d)@.wf() && #[trigger] call_ensures(
            MainDevice::prep_request_subdevice_state,
            (d, address, state),
            r,
        ) implies sends(
        (*d)@,
        (*final(d))@,
        r,
        5,
        address as int,
        0x0120,
        seq![(state.raw() % 16) as u8, 0u8],
        2,
    ) by {
        assert(AlControl::request(state).packed() =~= seq![(state.raw() % 16) as u8, 0u8]);
        let command = Command::Fpwr { address, register: RegisterAddress::AlControl.at() };
        let pdu = PduView::write(command, AlControl::request(state).packed());
        lemma_sends((*d)@, (*final(d))@, pdu, r);
    }
}

/// What [`MainDevice::prep_clear_eeprom`] sends: a write of the number two to 0x0500 of one
/// SubDevice.
pub proof fn law_clear_eeprom_frame(address: u16)
    ensures
        forall|d: &mut MainDevice, r: Prepared|
            (*d)@.wf() && #[trigger] call_ensures(
                MainDevice::prep_clear_eeprom,
                (d, address),
                r,
            ) ==> sends(
                (*d)@,
                (*final(d))@,
                r,
                5,
                address as int,
                0x0500,
                seq![2u8, 0u8],
                2,
            ),
{
    assert forall|d: &mut MainDevice, r: Prepared|
        (*d)@.wf() && #[trigger] call_ensures(
            MainDevice::prep_clear_eeprom,
            (d, address),
            r,
        ) implies sends(
        (*d)@,
        (*final(d))@,
        r,
        5,
        address as int,
        0x0500,
        seq![2u8, 0u8],
        2,
    ) by {
        assert(wire::le16(2) =~= seq![2u8, 0u8]);
        let command = Command::Fpwr { address, register: RegisterAddress::SiiConfig.at() };
        let pdu = PduView::write(command, wire::le16(2));
        lemma_sends((*d)@, (*final(d))@, pdu, r);
    }
}

/// What [`MainDevice::prep_set_eeprom`] sends: a write to 0x0500 of one SubDevice, of one for the
/// SubDevice itself and of zero for the main device.
pub proof fn law_set_eeprom_frame(address: u16, owner: SiiOwner)
    ensures
        forall|d: &mut MainDevice, r: Prepared|
            (*d)@.wf() && #[trigger] call_ensures(
                MainDevice::prep_set_eeprom,
                (d, address, owner),
                r,
            ) ==> sends(
                (*d)@,
                (*final(d))@,
                r,
                5,
                address as int,
                0x0500,
                seq![if owner is Pdi { 1u8 } else { 0u8 }, 0u8],
                2,
            ),
{
    assert forall|d: &mut MainDevice, r: Prepared|
        (*d)@.wf() && #[trigger] call_ensures(
            MainDevice::prep_set_eeprom,
            (d, address, owner),
            r,
        ) implies sends(
        (*d)@,
        (*final(d))@,
        r,
        5,
        address as int,
        0x0500,
        seq![if owner is Pdi { 1u8 } else { 0u8 }, 0u8],
        2,
    ) by {
        assert(wire::le16(owner.raw()) =~= seq![if owner is Pdi { 1u8 } else { 0u8 }, 0u8]);
        let command = Command::Fpwr { address, register: RegisterAddress::SiiConfig.at() };
        let pdu = PduView::write(command, wire::le16(owner.raw()));
        lemma_sends((*d)@, (*final(d))@, pdu, r);
    }
}

/// What [`MainDevice::prep_read_eeprom_chunk`] sends: a write of six bytes to 0x0502 of one
/// SubDevice, of the read bit, the word to start from, and zeros.
pub proof fn law_read_eeprom_frame(address: u16, word: u16)
    ensures
        forall|d: &mut MainDevice, r: Prepared|
            (*d)@.wf() && #[trigger] call_ensures(
                MainDevice::prep_read_eeprom_chunk,
                (d, address, word),
                r,
            ) ==> sends(
                (*d)@,
                (*final(d))@,
                r,
                5,
                address as int,
                0x0502,
                seq![0u8, 1u8, (word % 256) as u8, (word / 256) as u8, 0u8, 0u8],
                6,
            ),
{
    assert forall|d: &mut MainDevice, r: Prepared|
        (*d)@.wf() && #[trigger] call_ensures(
            MainDevice::prep_read_eeprom_chunk,
            (d, address, word),
            r,
        ) implies sends(
        (*d)@,
        (*final(d))@,
        r,
        5,
        address as int,
        0x0502,
        seq![0u8, 1u8, (word % 256) as u8, (word / 256) as u8, 0u8, 0u8],
        6,
    ) by {
        crate::eeprom::law_request_bytes(SiiRequest::read_from(word), word);
        assert(SiiRequest::read_from(word).packed()
            =~= seq![0u8, 1u8, (word % 256) as u8, (word / 256) as u8, 0u8, 0u8]);
        let command = Command::Fpwr { address, register: RegisterAddress::SiiControl.at() };
        let pdu = PduView::write(command, SiiRequest::read_from(word).packed());
        lemma_sends((*d)@, (*final(d))@, pdu, r);
    }
}

/// What [`MainDevice::prep_wait_for_eeprom_chunk`] sends: a read of two bytes from 0x0502 of one
/// SubDevice.
pub proof fn law_eeprom_status_frame(address: u16)
    ensures
        forall|d: &mut MainDevice, r: Prepared|
            (*d)@.wf() && #[trigger] call_ensures(
                MainDevice::prep_wait_for_eeprom_chunk,
                (d, address),
                r,
            ) ==> sends(
                (*d)@,
                (*final(d))@,
                r,
                4,
                address as int,
                0x0502,
                Seq::<u8>::empty(),
                2,
            ),
{
    assert forall|d: &mut MainDevice, r: Prepared|
        (*d)@.wf() && #[trigger] call_ensures(
            MainDevice::prep_wait_for_eeprom_chunk,
            (d, address),
            r,
        ) implies sends(
        (*d)@,
        (*final(d))@,
        r,
        4,
        address as int,
        0x0502,
        Seq::<u8>::empty(),
        2,
    ) by {
        let command = Command::Fprd { address, register: RegisterAddress::SiiControl.at() };
        let pdu = PduView::blank(command, SII_CONTROL_LEN);
        lemma_sends((*d)@, (*final(d))@, pdu, r);
    }
}

/// What [`MainDevice::prep_read_available_eeprom_chunk`] sends: a read from 0x0508 of one
/// SubDevice, of eight bytes where the SubDevice gives as many at once, and of four where it does
/// not.
pub proof fn law_eeprom_data_frame(address: u16, ctrl: SiiControl)
    ensures
        forall|d: &mut MainDevice, r: Prepared|
            (*d)@.wf() && #[trigger] call_ensures(
                MainDevice::prep_read_available_eeprom_chunk,
                (d, address, ctrl),
                r,
            ) ==> sends(
                (*d)@,
                (*final(d))@,
                r,
                4,
                address as int,
                0x0508,
                Seq::<u8>::empty(),
                if ctrl.read_size is Octets8 { 8 } else { 4 },
            ),
{
    assert forall|d: &mut MainDevice, r: Prepared|
        (*d)@.wf() && #[trigger] call_ensures(
            MainDevice::prep_read_available_eeprom_chunk,
            (d, address, ctrl),
            r,
        ) implies sends(
        (*d)@,
        (*final(d))@,
        r,
        4,
        address as int,
        0x0508,
        Seq::<u8>::empty(),
        if ctrl.read_size is Octets8 { 8 } else { 4 },
    ) by {
        let command = Command::Fprd { address, register: RegisterAddress::SiiData.at() };
        let pdu = PduView::blank(command, ctrl.read_size.len());
        lemma_sends((*d)@, (*final(d))@, pdu, r);
    }
}

/// What [`MainDevice::prep_latch_receive_times`] sends: a write of four zeros to 0x0900 of every
/// SubDevice.
pub proof fn law_latch_frame()
    ensures
        forall|d: &mut MainDevice, r: Prepared|
            (*d)@.wf() && #[trigger] call_ensures(
                MainDevice::prep_latch_receive_times,
                (d,),
                r,
            ) ==> sends(
                (*d)@,
                (*final(d))@,
                r,
                8,
                0,
                0x0900,
                seq![0u8, 0u8, 0u8, 0u8],
                4,
            ),
{
    assert forall|d: &mut MainDevice, r: Prepared|
        (*d)@.wf() && #[trigger] call_ensures(
            MainDevice::prep_latch_receive_times,
            (d,),
            r,
        ) implies sends(
        (*d)@,
        (*final(d))@,
        r,
        8,
        0,
        0x0900,
        seq![0u8, 0u8, 0u8, 0u8],
        4,
    ) by {
        assert(wire::le32(0) =~= seq![0u8, 0u8, 0u8, 0u8]);
        let command = Command::Bwr { register: RegisterAddress::DcTimePort0.at() };
        let pdu = PduView::write(command, wire::le32(0));
        lemma_sends((*d)@, (*final(d))@, pdu, r);
    }
}

/// What [`MainDevice::prep_dc_static_sync`] sends: eight bytes that the reference fills with its
/// system time, and all others take.
pub proof fn law_static_sync_frame(master: &SubDevice)
    ensures
        forall|d: &mut MainDevice, r: Prepared|
            (*d)@.wf() && #[trigger] call_ensures(
                MainDevice::prep_dc_static_sync,
                (d, master),
                r,
            ) ==> sends(
                (*d)@,
                (*final(d))@,
                r,
                14,
                master.configured_address as int,
                0x0910,
                Seq::<u8>::empty(),
                8,
            ),
{
    assert forall|d: &mut MainDevice, r: Prepared|
        (*d)@.wf() && #[trigger] call_ensures(
            MainDevice::prep_dc_static_sync,
            (d, master),
            r,
        ) implies sends(
        (*d)@,
        (*final(d))@,
        r,
        14,
        master.configured_address as int,
        0x0910,
        Seq::<u8>::empty(),
        8,
    ) by {
        let command = Command::Frmw {
            address: master.configured_address,
            register: RegisterAddress::DcSystemTime.at(),
        };
        let pdu = PduView::blank(command, 8);
        lemma_sends((*d)@, (*final(d))@, pdu, r);
    }
}

/// What [`MainDevice::prep_mailbox_sync_manager_status`] sends: a read of the sixth of the eight
/// bytes of a sync manager.
pub proof fn law_mailbox_status_frame(address: u16, index: u8)
    requires
        index < 16,
    ensures
        forall|d: &mut MainDevice, r: Prepared|
            (*d)@.wf() && #[trigger] call_ensures(
                MainDevice::prep_mailbox_sync_manager_status,
                (d, address, index),
                r,
            ) ==> sends(
                (*d)@,
                (*final(d))@,
                r,
                4,
                address as int,
                0x0800 + 8 * index + 5,
                Seq::<u8>::empty(),
                1,
            ),
{
    assert forall|d: &mut MainDevice, r: Prepared|
        (*d)@.wf() && #[trigger] call_ensures(
            MainDevice::prep_mailbox_sync_manager_status,
            (d, address, index),
            r,
        ) implies sends(
        (*d)@,
        (*final(d))@,
        r,
        4,
        address as int,
        0x0800 + 8 * index + 5,
        Seq::<u8>::empty(),
        1,
    ) by {
        crate::register::law_register_addresses(index);
        let command = Command::Fprd {
            address,
            register: RegisterAddress::SyncManagerStatus(index).at(),
        };
        let pdu = PduView::blank(command, STATUS_LEN);
        lemma_sends((*d)@, (*final(d))@, pdu, r);
    }
}

/// What [`MainDevice::prep_read`] sends: a read of as many bytes as were asked for, from the place
/// that was asked for.
pub proof fn law_read_frame(address: u16, place: u16, len: u16)
    ensures
        forall|d: &mut MainDevice, r: Prepared|
            (*d)@.wf() && #[trigger] call_ensures(
                MainDevice::prep_read,
                (d, address, place, len),
                r,
            ) ==> sends(
                (*d)@,
                (*final(d))@,
                r,
                4,
                address as int,
                place as int,
                Seq::<u8>::empty(),
                len as int,
            ),
{
    assert forall|d: &mut MainDevice, r: Prepared|
        (*d)@.wf() && #[trigger] call_ensures(
            MainDevice::prep_read,
            (d, address, place, len),
            r,
        ) implies sends(
        (*d)@,
        (*final(d))@,
        r,
        4,
        address as int,
        place as int,
        Seq::<u8>::empty(),
        len as int,
    ) by {
        let pdu = PduView::blank(Command::Fprd { address, register: place }, len);
        lemma_sends((*d)@, (*final(d))@, pdu, r);
    }
}

/// What [`MainDevice::prep_write`] sends: a write of every byte it was given, and of zeros up to
/// the length that was asked for.
pub proof fn law_write_frame(address: u16, place: u16, len: u16, data: &[u8])
    ensures
        forall|d: &mut MainDevice, r: Prepared|
            (*d)@.wf() && #[trigger] call_ensures(
                MainDevice::prep_write,
                (d, address, place, len, data),
                r,
            ) ==> sends(
                (*d)@,
                (*final(d))@,
                r,
                5,
                address as int,
                place as int,
                data@,
                longer(data@.len() as int, Some(len)),
            ),
{
    assert forall|d: &mut MainDevice, r: Prepared|
        (*d)@.wf() && #[trigger] call_ensures(
            MainDevice::prep_write,
            (d, address, place, len, data),
            r,
        ) implies sends(
        (*d)@,
        (*final(d))@,
        r,
        5,
        address as int,
        place as int,
        data@,
        longer(data@.len() as int, Some(len)),
    ) by {
        let command = Command::Fpwr { address, register: place };
        let pdu = PduView { command, data: data@, len_override: Some(len) };
        lemma_sends((*d)@, (*final(d))@, pdu, r);
    }
}

/// What [`MainDevice::prep_read_fmmu`] sends: a read of the sixteen bytes of an FMMU.
pub proof fn law_read_fmmu_frame(address: u16, index: u8)
    requires
        index < 16,
    ensures
        forall|d: &mut MainDevice, r: Prepared|
            (*d)@.wf() && #[trigger] call_ensures(
                MainDevice::prep_read_fmmu,
                (d, address, index),
                r,
            ) ==> sends(
                (*d)@,
                (*final(d))@,
                r,
                4,
                address as int,
                0x0600 + 16 * index,
                Seq::<u8>::empty(),
                16,
            ),
{
    assert forall|d: &mut MainDevice, r: Prepared|
        (*d)@.wf() && #[trigger] call_ensures(
            MainDevice::prep_read_fmmu,
            (d, address, index),
            r,
        ) implies sends(
        (*d)@,
        (*final(d))@,
        r,
        4,
        address as int,
        0x0600 + 16 * index,
        Seq::<u8>::empty(),
        16,
    ) by {
        crate::register::law_register_addresses(index);
        let command = Command::Fprd { address, register: RegisterAddress::Fmmu(index).at() };
        let pdu = PduView::blank(command, FMMU_LEN);
        lemma_sends((*d)@, (*final(d))@, pdu, r);
    }
}

/// What [`MainDevice::prep_write_fmmu`] sends: a write of the sixteen bytes of an FMMU.
pub proof fn law_write_fmmu_frame(address: u16, index: u8, fmmu: Fmmu)
    requires
        index < 16,
    ensures
        forall|d: &mut MainDevice, r: Prepared|
            (*d)@.wf() && #[trigger] call_ensures(
                MainDevice::prep_write_fmmu,
                (d, address, index, fmmu),
                r,
            ) ==> sends(
                (*d)@,
                (*final(d))@,
                r,
                5,
                address as int,
                0x0600 + 16 * index,
                fmmu.packed(),
                16,
            ),
{
    assert forall|d: &mut MainDevice, r: Prepared|
        (*d)@.wf() && #[trigger] call_ensures(
            MainDevice::prep_write_fmmu,
            (d, address, index, fmmu),
            r,
        ) implies sends(
        (*d)@,
        (*final(d))@,
        r,
        5,
        address as int,
        0x0600 + 16 * index,
        fmmu.packed(),
        16,
    ) by {
        crate::register::law_register_addresses(index);
        crate::fmmu::law_fmmu_bytes(fmmu);
        let command = Command::Fpwr { address, register: RegisterAddress::Fmmu(index).at() };
        let pdu = PduView::write(command, fmmu.packed());
        lemma_sends((*d)@, (*final(d))@, pdu, r);
    }
}

/// What [`MainDevice::prep_write_sm_config`] sends: a write of the eight bytes of the configuration
/// it gives back, which is the one that was described, of the length that was asked for.
pub proof fn law_sync_manager_frame(address: u16, index: u8, described: &SyncManager, length: u16)
    requires
        index < 16,
    ensures
        forall|
            d: &mut MainDevice,
            r: Result<Option<((SendableFrame, PduResponseHandle), SyncManagerChannel)>, Error>,
        |
            (*d)@.wf() && #[trigger] call_ensures(
                MainDevice::prep_write_sm_config,
                (d, address, index, described, length),
                r,
            ) ==> {
                let config = described.channel(length);
                let prepared: Prepared = match r {
                    Ok(Some((frame, _))) => Ok(Some(frame)),
                    Ok(None) => Ok(None),
                    Err(e) => Err(e),
                };
                &&& r matches Ok(Some((_, given))) ==> given == config
                &&& sends(
                    (*d)@,
                    (*final(d))@,
                    prepared,
                    5,
                    address as int,
                    0x0800 + 8 * index,
                    config.packed(),
                    8,
                )
            },
{
    crate::register::law_register_addresses(index);
    crate::sync_manager::law_channel_bytes(described.channel(length));
    assert forall|
        d: &mut MainDevice,
        r: Result<Option<((SendableFrame, PduResponseHandle), SyncManagerChannel)>, Error>,
    |
        (*d)@.wf() && #[trigger] call_ensures(
            MainDevice::prep_write_sm_config,
            (d, address, index, described, length),
            r,
        ) implies {
        let config = described.channel(length);
        let prepared: Prepared = match r {
            Ok(Some((frame, _))) => Ok(Some(frame)),
            Ok(None) => Ok(None),
            Err(e) => Err(e),
        };
        &&& r matches Ok(Some((_, given))) ==> given == config
        &&& sends(
            (*d)@,
            (*final(d))@,
            prepared,
            5,
            address as int,
            0x0800 + 8 * index,
            config.packed(),
            8,
        )
    } by {
        let config = described.channel(length);
        let prepared: Prepared = match r {
            Ok(Some((frame, _))) => Ok(Some(frame)),
            Ok(None) => Ok(None),
            Err(e) => Err(e),
        };
        let command = Command::Fpwr { address, register: RegisterAddress::SyncManager(index).at() };
        lemma_sends((*d)@, (*final(d))@, PduView::write(command, config.packed()), prepared);
    }
}

/// Whether a main device has made a frame of a single PDU and queued it in a slot that was free for
/// the sender, which it has woken; with the time to wait for the response and the number of times
/// to send it again that it was set up with. It does so exactly where a slot is free and the frame
/// is long enough. All else is as in [`sends`].
pub open spec fn queues(
    before: MainDeviceState,
    after: MainDeviceState,
    r: Result<InFlight, Error>,
    code: int,
    first: int,
    second: int,
    data: Seq<u8>,
    len: int,
) -> bool {
    let slots = before.pdu_loop;
    let free = exists|i: int|
        0 <= i < slots.frames.len() && (#[trigger] slots.frames[i]) is Free;
    &&& after.num_subdevices == before.num_subdevices
    &&& after.dc_reference == before.dc_reference
    &&& after.timeouts == before.timeouts
    &&& after.config == before.config
    &&& after.pdu_loop.max_frame_data == slots.max_frame_data
    &&& after.pdu_loop.exiting == slots.exiting
    &&& after.pdu_loop.frames.len() == slots.frames.len()
    &&& match r {
        Ok(sent) => {
            let slot = sent.frame.slot as int;
            &&& slot < slots.frames.len()
            &&& slots.frames[slot] is Free
            &&& len + 12 <= slots.max_frame_data
            &&& is_frame(sent.frame.bytes@, code, slots.next_pdu as int, first, second, data, len)
            &&& sent.handle.command_code == code
            &&& sent.handle.pdu_idx == slots.next_pdu
            &&& sent.handle.alloc_size == len + 12
            &&& sent.timeout == before.timeouts.pdu
            &&& match before.config.retry_behaviour {
                RetryBehaviour::Never => sent.retries == 0,
                RetryBehaviour::Count(n) => sent.retries == n,
                RetryBehaviour::Forever => sent.retries == usize::MAX,
            }
            &&& after.pdu_loop.sender_woken
            &&& after.pdu_loop.frames[slot] is Sendable
            &&& after.pdu_loop.next_pdu == (slots.next_pdu + 1) % 256
            &&& forall|i: int|
                0 <= i < slots.frames.len() && i != slot ==> #[trigger] after.pdu_loop.frames[i]
                    == slots.frames[i]
        },
        Err(Error::Pdu(PduError::SwapState)) => !free && after == before,
        Err(Error::Pdu(PduError::TooLong)) => {
            &&& free
            &&& len + 12 > slots.max_frame_data
            &&& after.pdu_loop.frames == slots.frames
            &&& after.pdu_loop.sender_woken == slots.sender_woken
        },
        Err(_) => false,
    }
}

/// What [`MainDevice::single_pdu`] queues: what it was told to, with every byte it was given, and
/// zeros up to the length that was asked for.
pub proof fn law_single_pdu_is_queued(command: Command, data: &[u8], len_override: Option<u16>)
    ensures
        forall|d: &mut MainDevice, r: Result<InFlight, Error>|
            (*d)@.wf() && #[trigger] call_ensures(
                MainDevice::single_pdu,
                (d, command, data, len_override),
                r,
            ) ==> queues(
                (*d)@,
                (*final(d))@,
                r,
                code_of(command),
                first_of(command),
                second_of(command),
                data@,
                longer(data@.len() as int, len_override),
            ),
{
    let pdu = PduView { command, data: data@, len_override };
    let len = longer(data@.len() as int, len_override);
    assert forall|d: &mut MainDevice, r: Result<InFlight, Error>|
        (*d)@.wf() && #[trigger] call_ensures(
            MainDevice::single_pdu,
            (d, command, data, len_override),
            r,
        ) implies queues(
        (*d)@,
        (*final(d))@,
        r,
        code_of(command),
        first_of(command),
        second_of(command),
        data@,
        len,
    ) by {
        let s = (*d)@.pdu_loop;
        pdu_loop::law_prepare_takes_a_free_slot(s, pdu, FrameState::Sendable);
        pdu_loop::law_free_slot(s);
        if let Ok(sent) = r {
            lemma_is_frame(s, pdu, FrameState::Sendable);
        }
    }
}

proof fn lemma_is_frame(s: pdu_loop::PduLoopState, pdu: PduView, queued: FrameState)
    requires
        s.wf(),
        s.prepare(pdu, queued).1 is Ok,
    ensures
        is_frame(
            s.prepare(pdu, queued).1->Ok_0.0.bytes,
            code_of(pdu.command),
            s.next_pdu as int,
            first_of(pdu.command),
            second_of(pdu.command),
            pdu.data,
            longer(pdu.data.len() as int, pdu.len_override),
        ),
{
    let b = s.prepare(pdu, queued).1->Ok_0.0.bytes;
    let len = longer(pdu.data.len() as int, pdu.len_override);
    pdu_loop::law_frame_bytes(s, pdu, queued, 0);
    assert forall|i: int| 0 <= i < pdu.data.len() implies b[12 + i] == #[trigger] pdu.data[i] by {
        pdu_loop::law_frame_bytes(s, pdu, queued, i);
    }
    assert forall|i: int| pdu.data.len() <= i < len implies #[trigger] b[12 + i] == 0 by {
        pdu_loop::law_frame_bytes(s, pdu, queued, i);
    }
    if let Command::Lrw { logical } = pdu.command {
        let first = b[4] + 256 * b[5];
        let second = b[6] + 256 * b[7];
        assert(first + 0x1_0000 * second == logical);
        assert(0 <= first < 0x1_0000);
        assert(logical as int % 0x1_0000 == first && logical as int / 0x1_0000 == second);
    }
}

/// What [`MainDevice::single_pdu_response`] makes of what came back: the slot of the frame is free
/// again and every other one as it was, whatever came. A failure is given back as it is; a response
/// gives its data and its working counter, if it carries the command and the index that were sent
/// and is all there.
pub proof fn law_response_is_taken(sent: InFlight, bytes: Vec<u8>, e: Error)
    ensures
        forall|d: &mut MainDevice, r: Result<ReceivedPdu, Error>|
            (*d)@.wf() && sent.frame.slot < (*d)@.pdu_loop.frames.len()
                && #[trigger] call_ensures(
                MainDevice::single_pdu_response,
                (d, sent, Ok(bytes)),
                r,
            ) ==> {
                let len = (bytes@[8] + 256 * bytes@[9]) % 2048;
                &&& frees((*d)@, (*final(d))@, sent.frame.slot as int)
                &&& r is Ok <==> {
                    &&& bytes@.len() >= 14 + len
                    &&& bytes@[2] == sent.handle.command_code
                    &&& bytes@[3] == sent.handle.pdu_idx
                }
                &&& r matches Ok(pdu) ==> {
                    &&& pdu.data@ == bytes@.subrange(12, 12 + len)
                    &&& pdu.working_counter == bytes@[12 + len] + 256 * bytes@[13 + len]
                }
            },
        forall|d: &mut MainDevice, r: Result<ReceivedPdu, Error>|
            (*d)@.wf() && sent.frame.slot < (*d)@.pdu_loop.frames.len()
                && #[trigger] call_ensures(
                MainDevice::single_pdu_response,
                (d, sent, Err(e)),
                r,
            ) ==> {
                &&& frees((*d)@, (*final(d))@, sent.frame.slot as int)
                &&& r == Err::<ReceivedPdu, Error>(e)
            },
{
}

/// Whether a slot has become free and all else of a main device is as it was.
pub open spec fn frees(before: MainDeviceState, after: MainDeviceState, slot: int) -> bool {
    &&& after.num_subdevices == before.num_subdevices
    &&& after.dc_reference == before.dc_reference
    &&& after.timeouts == before.timeouts
    &&& after.config == before.config
    &&& after.pdu_loop == (pdu_loop::PduLoopState {
        frames: after.pdu_loop.frames,
        ..before.pdu_loop
    })
    &&& after.pdu_loop.frames.len() == before.pdu_loop.frames.len()
    &&& after.pdu_loop.frames[slot] is Free
    &&& forall|i: int|
        0 <= i < before.pdu_loop.frames.len() && i != slot ==> #[trigger] after.pdu_loop.frames[i]
            == before.pdu_loop.frames[i]
}

/// What [`MainDevice::release_frame`] does: the slot is free, and all else is as it was.
pub proof fn law_released_frame_is_free(slot: usize)
    ensures
        forall|d: &mut MainDevice, r: ()|
            (*d)@.wf() && slot < (*d)@.pdu_loop.frames.len() && #[trigger] call_ensures(
                MainDevice::release_frame,
                (d, slot),
                r,
            ) ==> frees((*d)@, (*final(d))@, slot as int),
{
}

/// What a main device tells of itself: the number of SubDevices it knows of, the address of the
/// reference unless that is zero, and how many bytes fit into a frame.
pub proof fn law_what_a_main_device_tells(
    d: &MainDevice,
    count: usize,
    reference: Option<u16>,
    max: usize,
    timeouts: Timeouts,
    state: SubDeviceState,
    wait: WaitForState,
)
    requires
        call_ensures(MainDevice::num_subdevices, (d,), count),
        call_ensures(MainDevice::dc_ref_address, (d,), reference),
        call_ensures(MainDevice::max_frame_data, (d,), max),
        call_ensures(MainDevice::timeouts, (d,), timeouts),
        call_ensures(MainDevice::wait_for_state, (d, state), wait),
    ensures
        count == d@.num_subdevices,
        reference is Some <==> d@.dc_reference != 0,
        reference matches Some(address) ==> address == d@.dc_reference,
        max == d@.pdu_loop.max_frame_data,
        timeouts == d@.timeouts,
        wait.desired_state == state,
        wait.num_subdevices == d@.num_subdevices,
        wait.phase is Idle,
{
}

/// What [`MainDevice::release`] and [`MainDevice::release_all`] give back: the slots as they are,
/// with all that is in use; or with every slot free, the counts at their beginning, the sender and
/// the receiver told to stop, and the sender woken to notice.
pub proof fn law_released_slots(d: MainDevice, kept: PduLoop, stopped: PduLoop, i: int)
    requires
        call_ensures(MainDevice::release, (d,), kept),
        call_ensures(MainDevice::release_all, (d,), stopped),
    ensures
        kept@ == d@.pdu_loop,
        stopped@.frames.len() == d@.pdu_loop.frames.len(),
        0 <= i < stopped@.frames.len() ==> stopped@.frames[i] is Free,
        stopped@.next_frame == 0,
        stopped@.next_pdu == 0,
        stopped@.max_frame_data == d@.pdu_loop.max_frame_data,
        stopped@.exiting,
        stopped@.sender_woken,
{
}

/// A main device starts with the slots, the times and the configuration it was given, and knows of
/// no SubDevice and no reference. Slots start free, as many as were asked for and as long, and an
/// initialisation starts from nothing.
pub proof fn law_beginnings(
    slots: PduLoop,
    timeouts: Timeouts,
    config: MainDeviceConfig,
    d: MainDevice,
    num_frames: usize,
    max: usize,
    fresh: PduLoop,
    i: int,
)
    requires
        call_ensures(MainDevice::new, (slots, timeouts, config), d),
        call_ensures(PduLoop::new, (num_frames, max), fresh),
    ensures
        d@.pdu_loop == slots@,
        d@.num_subdevices == 0,
        d@.dc_reference == 0,
        d@.timeouts == timeouts,
        d@.config == config,
        fresh@.frames.len() == num_frames,
        0 <= i < num_frames ==> fresh@.frames[i] is Free,
        fresh@.next_frame == 0,
        fresh@.next_pdu == 0,
        fresh@.max_frame_data == max,
        !fresh@.exiting,
        !fresh@.sender_woken,
{
}

/// What [`MainDevice::prep_latch_dc_times`] gives back where it does not fail: the number of
/// SubDevices in the list that take part in distributed clocks.
pub proof fn law_latch_counts_the_clocks<
    F: FnMut(&mut MainDevice, Prepared, u16) -> Result<(), Error>,
>(list: &[SubDevice], f: F)
    requires
        maindevice::dc_count(list@) <= u16::MAX,
    ensures
        forall|d: &mut MainDevice, r: Result<u16, Error>|
            #[trigger] call_ensures(MainDevice::prep_latch_dc_times::<F>, (d, list, f), r) ==> (
            r matches Ok(n) ==> n == list@.filter(
                |s: SubDevice| s.dc_support !is Unsupported,
            ).len()),
{
    maindevice::law_dc_count(list@);
}

/// What [`MainDevice::prep_blank_memory`] sends: as many zeros as it was told to, from the place on
/// that `start` stands for, to every SubDevice.
pub proof fn law_blank_memory_frame<const LEN: usize, S: Into<u16>>(start: S)
    requires
        LEN <= u16::MAX,
    ensures
        forall|d: &mut MainDevice, r: Prepared|
            (*d)@.wf() && #[trigger] call_ensures(
                MainDevice::prep_blank_memory::<LEN, S>,
                (d, start),
                r,
            ) ==> exists|at: u16|
                {
                    &&& #[trigger] call_ensures(S::into, (start,), at)
                    &&& sends(
                        (*d)@,
                        (*final(d))@,
                        r,
                        8,
                        0,
                        at as int,
                        Seq::<u8>::empty(),
                        LEN as int,
                    )
                },
{
    assert forall|before: MainDeviceState, after: MainDeviceState, r: Prepared, at: u16|
        before.wf() && #[trigger] maindevice::prepares(
            before,
            after,
            reset::blanked(at, LEN as u16),
            r,
        ) implies sends(before, after, r, 8, 0, at as int, Seq::<u8>::empty(), LEN as int) by {
        lemma_sends(before, after, reset::blanked(at, LEN as u16), r);
    }
}

} // verus!
