use ethercrab::collections::GroupRef;
use ethercrab::config::{MainDeviceConfig, RetryBehaviour, Timeouts};
use ethercrab::error::{Error, Item};
use ethercrab::init::{InitAction, InitEvent, InitPhase, InitSequence, PdiOffset};
use ethercrab::maindevice::MainDevice;
use ethercrab::pdu_loop::{PduLoop, ReceivedPdu};
use ethercrab::subdevice::{AlStatusCode, DcSupport, SubDevice, SubDeviceState};
use ethercrab::wait::{status_code, WaitAction, WaitEvent, WaitForState};
use ethercrab::wire::WireError;

fn device() -> MainDevice {
    MainDevice::new(
        PduLoop::new(4, 100),
        Timeouts { state_transition: 5_000_000, pdu: 30_000, wait_loop_delay: 0 },
        MainDeviceConfig { dc_static_sync_iterations: 77, retry_behaviour: RetryBehaviour::Never },
    )
}

fn received(data: &[u8], working_counter: u16) -> Result<ReceivedPdu, Error> {
    Ok(ReceivedPdu { data: data.to_vec(), working_counter })
}

fn reply(data: &[u8], working_counter: u16) -> InitEvent {
    InitEvent::Reply(received(data, working_counter))
}

fn subdevice(index: u16, configured_address: u16) -> SubDevice {
    SubDevice {
        index,
        name: format!("SD{index}"),
        configured_address,
        dc_support: DcSupport::Bits64,
        dc_receive_time: 0,
        propagation_delay: 0,
    }
}

/// Takes an initialisation of `count` SubDevices to the loading of the first one.
fn up_to_loading<const N: usize>(
    device: &mut MainDevice,
    init: &mut InitSequence<N>,
    count: u16,
) -> InitAction {
    let action = init.step(device, InitEvent::Begin);
    assert!(matches!(&action, InitAction::Transfer(pdu) if pdu.command.code() == 0x07));
    let mut action = init.step(device, reply(&[0], count));
    for _ in 0..44 {
        assert!(matches!(&action, InitAction::Transfer(pdu) if pdu.command.code() == 0x08));
        assert_eq!(device.num_subdevices(), 0);
        action = init.step(device, reply(&[], 1));
    }
    assert_eq!(device.num_subdevices(), count as usize);
    for position in 0..count {
        let expected = 0x1000 + position;
        match &action {
            InitAction::Transfer(pdu) => {
                assert_eq!(pdu.command.code(), 0x02);
                assert_eq!(pdu.data, vec![expected as u8, (expected / 256) as u8]);
            }
            _ => panic!("an address is to be given"),
        }
        action = init.step(device, reply(&[], 1));
    }
    action
}

/// Loads `count` SubDevices.
fn load<const N: usize>(
    device: &mut MainDevice,
    init: &mut InitSequence<N>,
    mut action: InitAction,
    count: u16,
) -> InitAction {
    for position in 0..count {
        match action {
            InitAction::Load { index, configured_address } => {
                assert_eq!(index, position);
                assert_eq!(configured_address, 0x1000 + position);
                let loaded = Ok(subdevice(index, configured_address));
                action = init.step(device, InitEvent::Loaded(loaded));
            }
            _ => panic!("a SubDevice is to be loaded"),
        }
    }
    action
}

#[test]
fn whole_initialisation() {
    let mut device = device();
    let mut init = device.init::<4>();
    let action = up_to_loading(&mut device, &mut init, 3);
    let action = load(&mut device, &mut init, action, 3);

    assert!(matches!(action, InitAction::ConfigureDc));
    let list = init.subdevices_mut(&device);
    assert_eq!(list.len(), 3);
    for (i, subdevice) in list.iter_mut().enumerate() {
        assert_eq!(subdevice.index, i as u16);
        subdevice.propagation_delay = 10 * i as u32;
    }
    let reference = list[1].clone();
    let mut action = init.step(&mut device, InitEvent::DcConfigured(Ok(Some(reference))));
    assert_eq!(device.dc_ref_address(), Some(0x1001));
    assert!(matches!(
        &action,
        InitAction::StaticSync { reference, iterations: 77 } if reference.index == 1
    ));
    action = init.step(&mut device, InitEvent::Synced(Ok(())));

    // The first and the last SubDevice share a group.
    for (i, id) in [5, 9, 5].iter().enumerate() {
        match action {
            InitAction::Assign(subdevice) => {
                assert_eq!(subdevice.index, i as u16);
                assert_eq!(subdevice.name(), format!("SD{i}"));
                assert_eq!(subdevice.propagation_delay, 10 * i as u32);
            }
            _ => panic!("a SubDevice is to be assigned"),
        }
        let group = GroupRef { id: *id, handle: 100 + i };
        action = init.step(&mut device, InitEvent::Assigned(Ok(group)));
    }

    // The group whose first use came last goes first, and the handle given last is kept.
    let origin = PdiOffset { start_address: 0, start_bit: 0 };
    match action {
        InitAction::IntoPreOp { group, offset } => {
            assert_eq!(group, GroupRef { id: 9, handle: 101 });
            assert_eq!(offset, origin);
        }
        _ => panic!("a group is to be taken to PRE-OP"),
    }
    let after = PdiOffset { start_address: 12, start_bit: 3 };
    match init.step(&mut device, InitEvent::PreOpEntered(Ok(after))) {
        InitAction::IntoPreOp { group, offset } => {
            assert_eq!(group, GroupRef { id: 5, handle: 102 });
            assert_eq!(offset, after);
        }
        _ => panic!("a group is to be taken to PRE-OP"),
    }
    let action = init.step(&mut device, InitEvent::PreOpEntered(Ok(after)));
    assert!(matches!(&action, InitAction::Transfer(pdu) if pdu.command.code() == 0x07));
    let action = init.step(&mut device, reply(&[0x01, 0x00], 3));
    assert!(matches!(action, InitAction::Sleep));
    let action = init.step(&mut device, InitEvent::Ticked);
    assert!(matches!(&action, InitAction::Transfer(_)));
    let action = init.step(&mut device, reply(&[0x02, 0x00], 3));
    assert!(matches!(action, InitAction::Finish(Ok(()))));
    assert!(matches!(init.phase(), InitPhase::Finished(Ok(()))));
    assert_eq!(device.num_subdevices(), 3);
}

#[test]
fn no_subdevices_is_no_error() {
    let mut device = device();
    device.dc_reference_configured_address = 0x1000;
    let mut init = device.init::<2>();
    init.step(&mut device, InitEvent::Begin);
    let action = init.step(&mut device, reply(&[0], 0));
    assert!(matches!(action, InitAction::Finish(Ok(()))));
    assert_eq!(device.num_subdevices(), 0);
    assert_eq!(device.dc_ref_address(), None);
}

#[test]
fn without_clocks_there_is_no_reference() {
    let mut device = device();
    device.dc_reference_configured_address = 0x1007;
    let mut init = device.init::<2>();
    let action = up_to_loading(&mut device, &mut init, 1);
    load(&mut device, &mut init, action, 1);
    let action = init.step(&mut device, InitEvent::DcConfigured(Ok(None)));
    assert!(matches!(action, InitAction::Assign(_)));
    assert_eq!(device.dc_ref_address(), None);
}

#[test]
fn too_many_subdevices_are_refused() {
    let mut device = device();
    let mut init = device.init::<2>();
    let action = up_to_loading(&mut device, &mut init, 3);
    let action = load(&mut device, &mut init, action, 3);
    assert!(matches!(action, InitAction::Finish(Err(Error::Capacity(Item::SubDevice)))));
}

#[test]
fn as_many_subdevices_and_groups_as_there_is_room_for() {
    let mut device = device();
    let mut init = device.init::<4>();
    let action = up_to_loading(&mut device, &mut init, 4);
    load(&mut device, &mut init, action, 4);
    assert_eq!(init.subdevices_mut(&device).len(), 4);
    let mut action = init.step(&mut device, InitEvent::DcConfigured(Ok(None)));
    for i in 0..4 {
        assert!(matches!(action, InitAction::Assign(_)));
        let group = GroupRef { id: 1000 * i, handle: i };
        action = init.step(&mut device, InitEvent::Assigned(Ok(group)));
    }
    for i in [3, 2, 1, 0] {
        match action {
            InitAction::IntoPreOp { group, .. } => {
                assert_eq!(group, GroupRef { id: 1000 * i, handle: i });
            }
            _ => panic!("a group is to be taken to PRE-OP"),
        }
        let after = PdiOffset { start_address: 0, start_bit: 0 };
        action = init.step(&mut device, InitEvent::PreOpEntered(Ok(after)));
    }
    assert!(matches!(action, InitAction::Transfer(_)));
}

#[test]
fn unanswered_address_ends_the_initialisation() {
    let mut device = device();
    let mut init = device.init::<2>();
    init.step(&mut device, InitEvent::Begin);
    init.step(&mut device, reply(&[0], 2));
    for _ in 0..44 {
        init.step(&mut device, reply(&[], 0));
    }
    let action = init.step(&mut device, reply(&[], 0));
    assert!(matches!(
        action,
        InitAction::Finish(Err(Error::WorkingCounter { expected: 1, received: 0 }))
    ));
}

#[test]
fn failures_end_the_initialisation() {
    let mut device = device();
    let mut init = device.init::<2>();
    init.step(&mut device, InitEvent::Begin);
    let action = init.step(&mut device, InitEvent::Reply(Err(Error::Timeout)));
    assert!(matches!(action, InitAction::Finish(Err(Error::Timeout))));

    let mut init = device.init::<2>();
    init.step(&mut device, InitEvent::Begin);
    init.step(&mut device, reply(&[0], 2));
    let action = init.step(&mut device, InitEvent::Reply(Err(Error::Timeout)));
    assert!(matches!(action, InitAction::Finish(Err(Error::Timeout))));
    assert_eq!(device.num_subdevices(), 0);

    let mut init = device.init::<2>();
    up_to_loading(&mut device, &mut init, 1);
    let action = init.step(&mut device, InitEvent::Loaded(Err(Error::Internal)));
    assert!(matches!(action, InitAction::Finish(Err(Error::Internal))));
}

#[test]
fn subdevice_without_a_group_ends_the_initialisation() {
    let mut device = device();
    let mut init = device.init::<2>();
    let action = up_to_loading(&mut device, &mut init, 1);
    load(&mut device, &mut init, action, 1);
    init.step(&mut device, InitEvent::DcConfigured(Ok(None)));
    let action = init.step(&mut device, InitEvent::Assigned(Err(Error::UnknownSubDevice)));
    assert!(matches!(action, InitAction::Finish(Err(Error::UnknownSubDevice))));
}

fn polling(num_subdevices: u16) -> WaitForState {
    let mut wait = WaitForState::new(SubDeviceState::Op, num_subdevices);
    match wait.step(WaitEvent::Begin) {
        WaitAction::Transfer(pdu) => {
            assert_eq!(pdu.command.pack(), [0, 0, 0x30, 0x01]);
            assert_eq!(pdu.len_override, Some(2));
        }
        _ => panic!("the state is to be read"),
    }
    wait
}

#[test]
fn wait_ends_once_all_are_in_the_state() {
    let mut wait = polling(2);
    let action = wait.step(WaitEvent::Reply(received(&[0x04, 0], 2)));
    assert!(matches!(action, WaitAction::Sleep));
    assert!(matches!(wait.step(WaitEvent::Ticked), WaitAction::Transfer(_)));
    let action = wait.step(WaitEvent::Reply(received(&[0x08, 0], 2)));
    assert!(matches!(action, WaitAction::Finish(Ok(()))));
}

#[test]
fn wait_needs_an_answer_from_all() {
    let mut wait = polling(2);
    let action = wait.step(WaitEvent::Reply(received(&[0x08, 0], 1)));
    assert!(matches!(
        action,
        WaitAction::Finish(Err(Error::WorkingCounter { expected: 2, received: 1 }))
    ));
    let mut wait = polling(2);
    let action = wait.step(WaitEvent::Reply(received(&[0x08], 2)));
    assert!(matches!(
        action,
        WaitAction::Finish(Err(Error::Wire(WireError::ReadBufferTooShort)))
    ));
}

#[test]
fn wait_asks_all_for_their_reasons() {
    let mut wait = polling(3);
    // In the state, but with an error.
    let mut action = wait.step(WaitEvent::Reply(received(&[0x18, 0], 3)));
    for address in 0x1000..0x1003u16 {
        match action {
            WaitAction::Transfer(pdu) => {
                assert_eq!(pdu.command.code(), 0x04);
                assert_eq!(pdu.command.pack(), [address as u8, 0x10, 0x34, 0x01]);
            }
            _ => panic!("a reason is to be read"),
        }
        action = wait.step(WaitEvent::Reply(Err(Error::Timeout)));
    }
    assert!(matches!(action, WaitAction::Finish(Err(Error::StateTransition))));
}

#[test]
fn wait_gives_up_in_the_end() {
    let mut wait = polling(1);
    let action = wait.step(WaitEvent::TimedOut);
    assert!(matches!(action, WaitAction::Finish(Err(Error::Timeout))));
}

#[test]
fn more_subdevices_than_addresses() {
    let wait = polling(0xf000);
    let error = WaitEvent::Reply(received(&[0x18, 0], 0xf000));
    assert!(wait.is_beyond_addresses(&error));
    let fine = WaitEvent::Reply(received(&[0x08, 0], 0xf000));
    assert!(!wait.is_beyond_addresses(&fine));
    let wait = polling(0xefff);
    let error = WaitEvent::Reply(received(&[0x18, 0], 0xefff));
    assert!(!wait.is_beyond_addresses(&error));
}

#[test]
fn reasons() {
    assert_eq!(status_code(&received(&[0x1b, 0x00], 1)), AlStatusCode { code: 0x001b });
    assert_eq!(status_code(&received(&[0x1b], 1)), AlStatusCode { code: 0x0001 });
    assert_eq!(status_code(&Err(Error::Timeout)), AlStatusCode { code: 0x0001 });
}

#[test]
fn device_waits_for_the_subdevices_it_knows_of() {
    let mut device = device();
    let mut init = device.init::<4>();
    up_to_loading(&mut device, &mut init, 4);
    let wait = device.wait_for_state(SubDeviceState::SafeOp);
    assert_eq!(wait.num_subdevices, 4);
    assert_eq!(wait.desired_state, SubDeviceState::SafeOp);
}

#[test]
fn one_group_for_all_is_taken_to_pre_op_once() {
    let mut device = device();
    let mut init = device.init::<4>();
    let action = up_to_loading(&mut device, &mut init, 4);
    load(&mut device, &mut init, action, 4);
    let mut action = init.step(&mut device, InitEvent::DcConfigured(Ok(None)));
    for handle in 0..4 {
        assert!(matches!(action, InitAction::Assign(subdevice) if subdevice.index == handle));
        let group = GroupRef { id: 3, handle: usize::from(handle) };
        action = init.step(&mut device, InitEvent::Assigned(Ok(group)));
    }
    let origin = PdiOffset { start_address: 0, start_bit: 0 };
    assert!(matches!(
        action,
        InitAction::IntoPreOp { group: GroupRef { id: 3, handle: 3 }, offset } if offset == origin
    ));
    let end = PdiOffset { start_address: 7, start_bit: 0 };
    let action = init.step(&mut device, InitEvent::PreOpEntered(Ok(end)));
    assert!(matches!(action, InitAction::Transfer(_)));
}
