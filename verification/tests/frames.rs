use ethercrab::command::Command;
use ethercrab::config::{MainDeviceConfig, RetryBehaviour, Timeouts};
use ethercrab::error::{Error, PduError};
use ethercrab::maindevice::MainDevice;
use ethercrab::pdu_loop::{first_pdu, PduLoop, PduResponseHandle};
use ethercrab::register::RegisterAddress;
use ethercrab::subdevice::{configured_address, AlControl, SubDeviceState};
use ethercrab::wire;
use ethercrab::wire::WireError;

fn device(frames: usize, max_frame_data: usize) -> MainDevice {
    MainDevice::new(
        PduLoop::new(frames, max_frame_data),
        Timeouts { state_transition: 5_000_000, pdu: 30_000, wait_loop_delay: 0 },
        MainDeviceConfig {
            dc_static_sync_iterations: 10,
            retry_behaviour: RetryBehaviour::Count(3),
        },
    )
}

#[test]
fn integers_are_sent_lowest_byte_first() {
    assert_eq!(wire::pack_u16(0x1234), [0x34, 0x12]);
    assert_eq!(wire::unpack_u16(0x34, 0x12), 0x1234);
    assert_eq!(wire::pack_u32(0x89ab_cdef), [0xef, 0xcd, 0xab, 0x89]);
}

#[test]
fn frame_of_a_write() {
    let mut device = device(2, 64);
    let prepared = device.prep_write(0x1001, 0x0120, 2, &[0x02, 0x00]);
    let (frame, handle) = prepared.unwrap().unwrap();
    assert_eq!(
        frame.bytes,
        vec![
            0x0e, 0x10, // 14 bytes of PDUs
            0x05, 0x00, // FPWR, index 0
            0x01, 0x10, 0x20, 0x01, // to 0x1001, register 0x0120
            0x02, 0x00, // two bytes of data
            0x00, 0x00, // no interrupts
            0x02, 0x00, // the data
            0x00, 0x00, // the working counter
        ]
    );
    assert_eq!(frame.slot, 0);
    assert_eq!(handle, PduResponseHandle { pdu_idx: 0, command_code: 0x05, alloc_size: 14 });
}

#[test]
fn data_is_filled_up_with_zeros() {
    let mut device = device(1, 64);
    let (frame, _) = device.prep_write(0x1000, 0x0800, 4, &[0xaa]).unwrap().unwrap();
    assert_eq!(&frame.bytes[8..10], &[0x04, 0x00]);
    assert_eq!(&frame.bytes[12..], &[0xaa, 0, 0, 0, 0, 0]);
}

#[test]
fn data_is_never_cut_short() {
    let mut device = device(1, 64);
    let (frame, _) = device.prep_write(0x1000, 0x0800, 1, &[1, 2, 3]).unwrap().unwrap();
    assert_eq!(&frame.bytes[8..10], &[0x03, 0x00]);
    assert_eq!(&frame.bytes[12..15], &[1, 2, 3]);
}

#[test]
fn every_slot_is_used_before_none_is_left() {
    let mut device = device(3, 64);
    for slot in 0..3 {
        let (frame, handle) = device.prep_count_subdevices().unwrap().unwrap();
        assert_eq!(frame.slot, slot);
        assert_eq!(handle.pdu_idx, slot as u8);
    }
    assert!(matches!(device.prep_count_subdevices(), Err(Error::Pdu(PduError::SwapState))));
}

#[test]
fn long_pdu_is_refused_and_its_slot_given_back() {
    let mut device = device(1, 20);
    assert!(matches!(device.prep_read(0x1000, 0, 9), Err(Error::Pdu(PduError::TooLong))));
    // The slot is free, but the index has been used up.
    let (frame, handle) = device.prep_read(0x1000, 0, 8).unwrap().unwrap();
    assert_eq!(frame.slot, 0);
    assert_eq!(handle.pdu_idx, 1);
}

#[test]
fn pdu_indices_go_round() {
    let mut device = device(1, 64);
    for i in 0..300 {
        let sent = device.single_pdu(Command::brd(0), &[], Some(1)).unwrap();
        assert_eq!(sent.handle.pdu_idx, (i % 256) as u8);
        let reply = device.single_pdu_response(sent, Err(Error::Timeout));
        assert_eq!(reply.unwrap_err(), Error::Timeout);
    }
}

#[test]
fn queued_pdu_carries_timeout_and_retries() {
    let mut device = device(1, 64);
    let sent = device.single_pdu(Command::brd(0x0130), &[], Some(2)).unwrap();
    assert_eq!(sent.timeout, 30_000);
    assert_eq!(sent.retries, 3);
    assert_eq!(RetryBehaviour::Never.retry_count(), 0);
    assert_eq!(RetryBehaviour::Forever.retry_count(), usize::MAX);
}

#[test]
fn sent_frame_is_read_back() {
    let mut device = device(1, 64);
    let sent = device.single_pdu(Command::lrw(0x8000_0000), &[1, 2, 3], Some(5)).unwrap();
    let mut bytes = sent.frame.bytes.clone();
    let end = bytes.len() - 2;
    bytes[end..].copy_from_slice(&[0x03, 0x01]);
    let reply = device.single_pdu_response(sent, Ok(bytes)).unwrap();
    assert_eq!(reply.data, vec![1, 2, 3, 0, 0]);
    assert_eq!(reply.working_counter, 0x0103);
    // The slot is free again.
    assert!(device.prep_count_subdevices().is_ok());
}

#[test]
fn response_must_match_what_was_sent() {
    let handle = PduResponseHandle { pdu_idx: 7, command_code: 0x04, alloc_size: 14 };
    let good = [
        0x0e, 0x10, 0x04, 0x07, 0x00, 0x10, 0x30, 0x01, 0x02, 0x00, 0x00, 0x00, 0x12, 0x34, 0x01,
        0x00,
    ];
    let pdu = first_pdu(&good, &handle).unwrap();
    assert_eq!(pdu.data, vec![0x12, 0x34]);
    assert_eq!(pdu.working_counter, 1);

    let mut command = good;
    command[2] = 0x05;
    assert_eq!(
        first_pdu(&command, &handle).unwrap_err(),
        Error::Pdu(PduError::CommandMismatch { sent: 0x04, received: 0x05 })
    );
    let mut index = good;
    index[3] = 0x08;
    assert_eq!(
        first_pdu(&index, &handle).unwrap_err(),
        Error::Pdu(PduError::IndexMismatch { sent: 7, received: 8 })
    );
    assert_eq!(first_pdu(&good[..15], &handle).unwrap_err(), Error::Pdu(PduError::Decode));
    assert_eq!(first_pdu(&good[..11], &handle).unwrap_err(), Error::Pdu(PduError::Decode));
}

#[test]
fn working_counter_is_checked_where_asked() {
    let handle = PduResponseHandle { pdu_idx: 0, command_code: 0x07, alloc_size: 13 };
    let bytes = [0x0d, 0x10, 0x07, 0, 0, 0, 0, 0, 0x01, 0, 0, 0, 0x11, 0x05, 0x00];
    let pdu = first_pdu(&bytes, &handle).unwrap();
    assert_eq!(
        pdu.maybe_wkc(Some(4)).unwrap_err(),
        Error::WorkingCounter { expected: 4, received: 5 }
    );
    let pdu = first_pdu(&bytes, &handle).unwrap();
    assert!(pdu.maybe_wkc(Some(5)).is_ok());
    let pdu = first_pdu(&bytes, &handle).unwrap();
    assert!(pdu.maybe_wkc(None).is_ok());
}

#[test]
fn position_is_sent_as_its_negative() {
    assert_eq!(Command::apwr(0, 0x0010).pack(), [0x00, 0x00, 0x10, 0x00]);
    assert_eq!(Command::apwr(1, 0x0010).pack(), [0xff, 0xff, 0x10, 0x00]);
    assert_eq!(Command::apwr(3, 0x0010).code(), 0x02);
}

#[test]
fn commands_and_registers() {
    assert_eq!(Command::brd(0x0130).code(), 0x07);
    assert_eq!(Command::brd(0x0130).pack(), [0, 0, 0x30, 0x01]);
    assert_eq!(Command::bwr(0x0120).code(), 0x08);
    assert_eq!(Command::lrw(0x0102_0304).code(), 0x0c);
    assert_eq!(Command::lrw(0x0102_0304).pack(), [4, 3, 2, 1]);
    assert_eq!(Command::frmw(0x1000, 0x0910).code(), 0x0e);
    assert_eq!(u16::from(RegisterAddress::fmmu(15)), 0x06f0);
    assert_eq!(u16::from(RegisterAddress::sync_manager(2)), 0x0810);
    assert_eq!(u16::from(RegisterAddress::sync_manager_status(2)), 0x0815);
    assert_eq!(u16::from(RegisterAddress::DcSyncStartTime), 0x0990);
}

#[test]
fn queued_and_claimed_frames_are_alike() {
    let mut claiming = device(2, 64);
    let mut queueing = device(2, 64);
    let (claimed, handle) = claiming.prep_send_frame(Command::brd(0x0130), &[], Some(2))
        .unwrap()
        .unwrap();
    let queued = queueing.single_pdu(Command::brd(0x0130), &[], Some(2)).unwrap();
    assert_eq!(claimed.bytes, queued.frame.bytes);
    assert_eq!(claimed.slot, queued.frame.slot);
    assert_eq!(handle, queued.handle);
}

#[test]
fn states_are_read_back() {
    for raw in 0..16 {
        let state = SubDeviceState::from_code(raw);
        let value = AlControl { state, error: raw % 2 == 0, id_request: raw % 3 == 0 };
        assert_eq!(AlControl::unpack_from_slice(&value.pack()), Ok(value));
    }
    assert_eq!(AlControl::reset().pack(), [0x11, 0x00]);
    assert_eq!(AlControl::new(SubDeviceState::Op).pack(), [0x08, 0x00]);
    assert_eq!(AlControl::unpack_from_slice(&[0x08]), Err(WireError::ReadBufferTooShort));
}

#[test]
fn addresses_go_round() {
    assert_eq!(configured_address(0), 0x1000);
    assert_eq!(configured_address(0xefff), 0xffff);
    assert_eq!(configured_address(0xf000), 0x0000);
    assert_eq!(configured_address(0xffff), 0x0fff);
}
