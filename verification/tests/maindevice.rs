use ethercrab::config::{MainDeviceConfig, RetryBehaviour, Timeouts};
use ethercrab::eeprom::{SiiControl, SiiOwner, SiiReadSize};
use ethercrab::error::{Error, PduError};
use ethercrab::fmmu::Fmmu;
use ethercrab::maindevice::{MainDevice, Prepared};
use ethercrab::pdu_loop::PduLoop;
use ethercrab::register::RegisterAddress;
use ethercrab::subdevice::{DcSupport, SubDevice, SubDeviceState};
use ethercrab::sync_manager::{Control, Direction, OperationMode, SyncManager, SyncManagerEnable};

fn device(frames: usize) -> MainDevice {
    MainDevice::new(
        PduLoop::new(frames, 100),
        Timeouts { state_transition: 5_000_000, pdu: 30_000, wait_loop_delay: 0 },
        MainDeviceConfig { dc_static_sync_iterations: 10, retry_behaviour: RetryBehaviour::Never },
    )
}

/// Command code, address bytes and data of the only PDU in a frame.
fn pdu(prepared: Prepared) -> (u8, [u8; 4], Vec<u8>) {
    let (frame, _) = prepared.unwrap().unwrap();
    let b = frame.bytes;
    let len = b[8] as usize + 256 * b[9] as usize;
    assert_eq!(b.len(), 14 + len);
    assert_eq!(b[0] as usize + 256 * b[1] as usize, 0x1000 + 12 + len);
    (b[2], [b[4], b[5], b[6], b[7]], b[12..12 + len].to_vec())
}

fn subdevice(configured_address: u16, dc_support: DcSupport) -> SubDevice {
    SubDevice {
        index: 0,
        name: String::from("EL2004"),
        configured_address,
        dc_support,
        dc_receive_time: 0,
        propagation_delay: 0,
    }
}

#[test]
fn new_device_knows_of_no_subdevice() {
    let device = device(1);
    assert_eq!(device.num_subdevices(), 0);
    assert_eq!(device.dc_ref_address(), None);
    assert_eq!(device.max_frame_data(), 100);
    assert_eq!(device.dc_reference_configured_address, 0);
}

#[test]
fn dc_reference_is_given_where_there_is_one() {
    let mut device = device(1);
    device.dc_reference_configured_address = 0x1002;
    assert_eq!(device.dc_ref_address(), Some(0x1002));
}

#[test]
fn count_reads_the_type_of_every_subdevice() {
    assert_eq!(pdu(device(1).prep_count_subdevices()), (0x07, [0, 0, 0, 0], vec![0]));
}

#[test]
fn process_data_goes_to_a_logical_address() {
    assert_eq!(
        pdu(device(1).prep_rx_tx(0x0001_0203, &[9, 8, 7])),
        (0x0c, [3, 2, 1, 0], vec![9, 8, 7])
    );
}

#[test]
fn blank_memory_writes_zeros() {
    assert_eq!(
        pdu(device(1).prep_blank_memory::<4, _>(RegisterAddress::DcSync0CycleTime)),
        (0x08, [0, 0, 0xa0, 0x09], vec![0; 4])
    );
    assert_eq!(
        pdu(device(1).prep_blank_memory::<16, u16>(0x0610)),
        (0x08, [0, 0, 0x10, 0x06], vec![0; 16])
    );
}

#[test]
fn states_are_asked_for_and_looked_at() {
    assert_eq!(
        pdu(device(1).prep_wait_for_state(SubDeviceState::PreOp)),
        (0x07, [0, 0, 0x30, 0x01], vec![0, 0])
    );
    assert_eq!(
        pdu(device(1).prep_request_subdevice_state(0x1003, SubDeviceState::SafeOp)),
        (0x05, [0x03, 0x10, 0x20, 0x01], vec![0x04, 0x00])
    );
    assert_eq!(
        pdu(device(1).prep_wait_subdevice_state(0x1003, SubDeviceState::SafeOp)),
        (0x04, [0x03, 0x10, 0x30, 0x01], vec![0, 0])
    );
}

#[test]
fn state_of_a_subdevice_is_read_alike_for_every_state() {
    let states = [
        SubDeviceState::NoState,
        SubDeviceState::Init,
        SubDeviceState::PreOp,
        SubDeviceState::Bootstrap,
        SubDeviceState::SafeOp,
        SubDeviceState::Op,
        SubDeviceState::Other(0x0f),
    ];
    for state in states {
        let (_, all, _) = pdu(device(1).prep_wait_for_state(state));
        let (code, one, data) = pdu(device(1).prep_wait_subdevice_state(0x1003, state));
        assert_eq!(code, 0x04);
        assert_eq!(one[..2], [0x03, 0x10]);
        // The same register that is read of all SubDevices.
        assert_eq!(one[2..], all[2..]);
        assert_eq!(data, vec![0, 0]);
    }
}

#[test]
fn eeprom_access() {
    assert_eq!(
        pdu(device(1).prep_clear_eeprom(0x1000)),
        (0x05, [0x00, 0x10, 0x00, 0x05], vec![0x02, 0x00])
    );
    assert_eq!(
        pdu(device(1).prep_set_eeprom(0x1000, SiiOwner::Pdi)),
        (0x05, [0x00, 0x10, 0x00, 0x05], vec![0x01, 0x00])
    );
    assert_eq!(
        pdu(device(1).prep_set_eeprom(0x1000, SiiOwner::Master)),
        (0x05, [0x00, 0x10, 0x00, 0x05], vec![0x00, 0x00])
    );
    assert_eq!(
        pdu(device(1).prep_read_eeprom_chunk(0x1000, 0x0840)),
        (0x05, [0x00, 0x10, 0x02, 0x05], vec![0x00, 0x01, 0x40, 0x08, 0x00, 0x00])
    );
    assert_eq!(
        pdu(device(1).prep_wait_for_eeprom_chunk(0x1000)),
        (0x04, [0x00, 0x10, 0x02, 0x05], vec![0, 0])
    );
}

#[test]
fn eeprom_chunk_is_as_long_as_the_register_says() {
    let mut ctrl = SiiControl {
        write_access: true,
        emulate_sii: false,
        read_size: SiiReadSize::Octets4,
        two_octet_address: true,
        read: false,
        write: false,
        reload: false,
        checksum_error: false,
        device_info_error: false,
        command_error: false,
        write_error: false,
        busy: true,
    };
    assert_eq!(ctrl.pack(), [0x81, 0x80]);
    assert_eq!(
        pdu(device(1).prep_read_available_eeprom_chunk(0x1000, ctrl)),
        (0x04, [0x00, 0x10, 0x08, 0x05], vec![0; 4])
    );
    ctrl.read_size = SiiReadSize::Octets8;
    assert_eq!(ctrl.pack(), [0xc1, 0x80]);
    assert_eq!(
        pdu(device(1).prep_read_available_eeprom_chunk(0x1000, ctrl)),
        (0x04, [0x00, 0x10, 0x08, 0x05], vec![0; 8])
    );
}

#[test]
fn clocks_are_latched_and_synced() {
    assert_eq!(
        pdu(device(1).prep_latch_receive_times()),
        (0x08, [0, 0, 0x00, 0x09], vec![0; 4])
    );
    assert_eq!(
        pdu(device(1).prep_dc_static_sync(&subdevice(0x1002, DcSupport::Bits64))),
        (0x0e, [0x02, 0x10, 0x10, 0x09], vec![0; 8])
    );
}

#[test]
fn sync_manager_configuration() {
    let description = SyncManager {
        start_addr: 0x1100,
        length: 128,
        control: Control {
            operation_mode: OperationMode::Mailbox,
            direction: Direction::MasterWrite,
            ecat_event_enable: false,
            dls_user_event_enable: true,
            watchdog_enable: true,
        },
        enable: SyncManagerEnable { bits: 0x03 },
    };
    let ((frame, _), config) =
        device(1).prep_write_sm_config(0x1000, 1, &description, 256).unwrap().unwrap();
    assert_eq!(&frame.bytes[2..3], &[0x05]);
    assert_eq!(&frame.bytes[4..8], &[0x00, 0x10, 0x08, 0x08]);
    assert_eq!(&frame.bytes[12..20], &[0x00, 0x11, 0x00, 0x01, 0x66, 0x00, 0x01, 0x00]);
    assert_eq!(config.physical_start_address, 0x1100);
    assert_eq!(config.length_bytes, 256);
    assert!(config.enable.enable);

    let off = SyncManager { enable: SyncManagerEnable { bits: 0x02 }, ..description };
    let (_, config) = device(1).prep_write_sm_config(0x1000, 1, &off, 256).unwrap().unwrap();
    assert!(!config.enable.enable);
}

#[test]
fn sync_manager_configuration_fails_as_its_frame_does() {
    let description = SyncManager {
        start_addr: 0,
        length: 0,
        control: Control {
            operation_mode: OperationMode::Normal,
            direction: Direction::MasterRead,
            ecat_event_enable: false,
            dls_user_event_enable: false,
            watchdog_enable: false,
        },
        enable: SyncManagerEnable { bits: 0 },
    };
    let mut device = device(1);
    assert!(device.prep_count_subdevices().is_ok());
    assert_eq!(
        device.prep_write_sm_config(0x1000, 0, &description, 1).unwrap_err(),
        Error::Pdu(PduError::SwapState)
    );
}

#[test]
fn mailbox_status_and_arbitrary_reads() {
    assert_eq!(
        pdu(device(1).prep_mailbox_sync_manager_status(0x1000, 1)),
        (0x04, [0x00, 0x10, 0x0d, 0x08], vec![0])
    );
    assert_eq!(
        pdu(device(1).prep_read(0x1000, 0x1234, 3)),
        (0x04, [0x00, 0x10, 0x34, 0x12], vec![0; 3])
    );
}

#[test]
fn fmmu_configuration() {
    let fmmu = Fmmu {
        logical_start_address: 0x0102_0304,
        length_bytes: 0x0506,
        logical_start_bit: 1,
        logical_end_bit: 7,
        physical_start_address: 0x1180,
        physical_start_bit: 2,
        read_enable: true,
        write_enable: false,
        enable: true,
    };
    assert_eq!(
        pdu(device(1).prep_write_fmmu(0x1000, 3, fmmu)),
        (
            0x05,
            [0x00, 0x10, 0x30, 0x06],
            vec![4, 3, 2, 1, 6, 5, 1, 7, 0x80, 0x11, 2, 1, 1, 0, 0, 0]
        )
    );
    assert_eq!(
        pdu(device(1).prep_read_fmmu(0x1000, 0)),
        (0x04, [0x00, 0x10, 0x00, 0x06], vec![0; 16])
    );
}

#[test]
fn reset_sends_every_step_in_order() {
    let mut device = device(44);
    let mut sent = Vec::new();
    let r = device.prep_reset_subdevices(|_, prepared| {
        sent.push(pdu(prepared));
        Ok(())
    });
    assert_eq!(r, Ok(()));
    assert_eq!(sent.len(), 44);
    assert!(sent.iter().all(|(code, _, _)| *code == 0x08));
    assert_eq!(sent[0], (0x08, [0, 0, 0x20, 0x01], vec![0x11, 0x00]));
    for i in 0..16u8 {
        let fmmu = &sent[1 + i as usize];
        assert_eq!(fmmu, &(0x08, [0, 0, 16 * i, 0x06], vec![0; 16]));
        let sync_manager = &sent[17 + i as usize];
        assert_eq!(sync_manager, &(0x08, [0, 0, 8 * i, 0x08], vec![0; 8]));
    }
    let clocks = [
        (0x80, 1),
        (0x10, 8),
        (0x20, 8),
        (0x28, 4),
        (0x2c, 4),
        (0x81, 1),
        (0x90, 4),
        (0xa0, 4),
        (0xa4, 4),
    ];
    for (i, (register, len)) in clocks.iter().enumerate() {
        assert_eq!(sent[33 + i], (0x08, [0, 0, *register, 0x09], vec![0; *len]));
    }
    assert_eq!(sent[42], (0x08, [0, 0, 0x34, 0x09], vec![0x00, 0x0c]));
    assert_eq!(sent[43], (0x08, [0, 0, 0x30, 0x09], vec![0x00, 0x10]));
}

#[test]
fn reset_ends_at_the_first_refusal() {
    let mut device = device(44);
    let mut calls = 0;
    let r = device.prep_reset_subdevices(|_, _| {
        calls += 1;
        if calls == 3 {
            Err(Error::Internal)
        } else {
            Ok(())
        }
    });
    assert_eq!(r, Err(Error::Internal));
    assert_eq!(calls, 3);
}

#[test]
fn reset_hands_out_failures_and_goes_on() {
    let mut device = device(2);
    let mut refused = 0;
    let r = device.prep_reset_subdevices(|_, prepared| {
        if let Err(e) = prepared {
            assert_eq!(e, Error::Pdu(PduError::SwapState));
            refused += 1;
        }
        Ok(())
    });
    assert_eq!(r, Ok(()));
    assert_eq!(refused, 42);
}

#[test]
fn one_slot_is_enough_for_a_callback_that_gives_it_back() {
    let mut device = device(1);
    let mut frames = Vec::new();
    let r = device.prep_reset_subdevices(|device, prepared| {
        let (frame, handle) = prepared?.unwrap();
        frames.push((frame.slot, handle.pdu_idx));
        device.release_frame(frame.slot);
        Ok(())
    });
    assert_eq!(r, Ok(()));
    assert_eq!(frames, (0..44).map(|i| (0, i)).collect::<Vec<(usize, u8)>>());

    let mut count = 0;
    let r = device.prep_configure_subdev_addrs(5, |device, prepared, _, _| {
        let (frame, _) = prepared?.unwrap();
        device.release_frame(frame.slot);
        count += 1;
        Ok(())
    });
    assert_eq!((r, count), (Ok(()), 5));
    let r = device.prep_device_properties(0x1000, |device, prepared| {
        let (frame, _) = prepared?.unwrap();
        device.release_frame(frame.slot);
        Ok(())
    });
    assert_eq!(r, Ok(()));
    let clock = [subdevice(0x1000, DcSupport::Bits64)];
    let r = device.prep_latch_dc_times(&clock, |device, prepared, _| {
        let (frame, _) = prepared?.unwrap();
        device.release_frame(frame.slot);
        Ok(())
    });
    assert_eq!(r, Ok(1));
}

#[test]
fn callback_may_prepare_frames_of_its_own() {
    let mut device = device(6);
    let mut slots = Vec::new();
    let r = device.prep_device_properties(0x1000, |device, prepared| {
        let (frame, _) = prepared?.unwrap();
        let (own, _) = device.prep_count_subdevices()?.unwrap();
        slots.push((frame.slot, own.slot));
        Ok(())
    });
    assert_eq!(r, Ok(()));
    assert_eq!(slots, vec![(0, 1), (2, 3), (4, 5)]);
}

#[test]
fn subdevices_are_known_by_name() {
    assert_eq!(subdevice(0x1000, DcSupport::Unsupported).name(), "EL2004");
}

#[test]
fn addresses_are_given_by_position() {
    let mut device = device(3);
    let mut sent = Vec::new();
    let r = device.prep_configure_subdev_addrs(3, |_, prepared, position, address| {
        sent.push((pdu(prepared), position, address));
        Ok(())
    });
    assert_eq!(r, Ok(()));
    assert_eq!(
        sent,
        vec![
            ((0x02, [0x00, 0x00, 0x10, 0x00], vec![0x00, 0x10]), 0, 0x1000),
            ((0x02, [0xff, 0xff, 0x10, 0x00], vec![0x01, 0x10]), 1, 0x1001),
            ((0x02, [0xfe, 0xff, 0x10, 0x00], vec![0x02, 0x10]), 2, 0x1002),
        ]
    );
    let r = device.prep_configure_subdev_addrs(0, |_, _, _, _| Err(Error::Internal));
    assert_eq!(r, Ok(()));
}

#[test]
fn properties_are_three_reads() {
    let mut device = device(3);
    let mut sent = Vec::new();
    let r = device.prep_device_properties(0x1001, |_, prepared| {
        sent.push(pdu(prepared));
        Ok(())
    });
    assert_eq!(r, Ok(()));
    assert_eq!(
        sent,
        vec![
            (0x04, [0x01, 0x10, 0x08, 0x00], vec![0, 0]),
            (0x04, [0x01, 0x10, 0x12, 0x00], vec![0, 0]),
            (0x04, [0x01, 0x10, 0x10, 0x01], vec![0, 0]),
        ]
    );
}

#[test]
fn latched_times_are_read_from_clocks_only() {
    let mut device = device(8);
    let subdevices = [
        subdevice(0x1000, DcSupport::Unsupported),
        subdevice(0x1001, DcSupport::Bits32),
        subdevice(0x1002, DcSupport::Unsupported),
        subdevice(0x1003, DcSupport::RefOnly),
    ];
    let mut sent = Vec::new();
    let r = device.prep_latch_dc_times(&subdevices, |_, prepared, id| {
        sent.push((pdu(prepared), id));
        Ok(())
    });
    assert_eq!(r, Ok(2));
    assert_eq!(
        sent,
        vec![
            ((0x04, [0x01, 0x10, 0x18, 0x09], vec![0; 8]), 1),
            ((0x04, [0x01, 0x10, 0x00, 0x09], vec![0; 16]), 1),
            ((0x04, [0x03, 0x10, 0x18, 0x09], vec![0; 8]), 3),
            ((0x04, [0x03, 0x10, 0x00, 0x09], vec![0; 16]), 3),
        ]
    );
    let mut calls = 0;
    let r = device.prep_latch_dc_times(&subdevices, |_, _, _| {
        calls += 1;
        Err(Error::Timeout)
    });
    assert_eq!(r, Err(Error::Timeout));
    assert_eq!(calls, 1);
}

#[test]
fn release_keeps_the_slots_as_they_are() {
    let mut device = device(1);
    assert!(device.prep_count_subdevices().is_ok());
    let pdu_loop = device.release();
    assert!(!pdu_loop.is_exiting());
    let mut again = MainDevice::new(
        pdu_loop,
        Timeouts { state_transition: 0, pdu: 0, wait_loop_delay: 0 },
        MainDeviceConfig { dc_static_sync_iterations: 0, retry_behaviour: RetryBehaviour::Never },
    );
    assert!(matches!(again.prep_count_subdevices(), Err(Error::Pdu(PduError::SwapState))));
    let mut pdu_loop = again.release();
    pdu_loop.reset();
    let mut again = MainDevice::new(
        pdu_loop,
        Timeouts { state_transition: 0, pdu: 0, wait_loop_delay: 0 },
        MainDeviceConfig { dc_static_sync_iterations: 0, retry_behaviour: RetryBehaviour::Never },
    );
    assert!(again.prep_count_subdevices().is_ok());
}

#[test]
fn release_all_stops_the_sender_and_the_receiver() {
    let mut device = device(1);
    assert!(device.prep_count_subdevices().is_ok());
    let pdu_loop = device.release_all();
    assert!(pdu_loop.is_exiting());
}
