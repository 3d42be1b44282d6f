//! The main EtherCAT controller.

use crate::command;
use crate::command::{Command, Pdu, PduView};
use crate::config::{MainDeviceConfig, Timeouts};
use crate::eeprom::{SiiControl, SiiOwner, SiiRequest, SII_CONTROL_LEN};
use crate::error::Error;
use crate::fmmu::{Fmmu, FMMU_LEN};
use crate::hand_out;
use crate::hand_out::HandOut;
use crate::pdu_loop;
use crate::pdu_loop::{
    first_pdu, FrameState, PduLoop, PduLoopState, PduResponseHandle, ReceivedPdu, SendableFrame,
    SendableFrameView,
};
use crate::register::{RegisterAddress, CHANNELS};
use crate::reset;
use crate::subdevice;
use crate::subdevice::{
    configured_address, AlControl, SubDevice, SubDeviceState, AL_CONTROL_LEN,
};
use crate::sync_manager::{SyncManager, SyncManagerChannel, STATUS_LEN};
use crate::wait;
use crate::wait::WaitForState;
use crate::wire;
use crate::wire::{pack_u16, pack_u32};
use vstd::prelude::*;

verus! {

/// The main EtherCAT controller.
#[derive(Debug)]
pub struct MainDevice {
    pub(crate) pdu_loop: PduLoop,
    /// The total number of discovered SubDevices.
    num_subdevices: u16,
    /// The configured address of the distributed clocks reference. If no SubDevice takes part in
    /// distributed clocks, this is `0`.
    pub dc_reference_configured_address: u16,
    pub(crate) timeouts: Timeouts,
    /// Configuration of the main device.
    pub config: MainDeviceConfig,
}

/// A frame that has been queued for the sender, and what to do until its response comes.
#[derive(Debug)]
pub struct InFlight {
    /// The frame to send.
    pub frame: SendableFrame,
    /// What the response is recognised by.
    pub handle: PduResponseHandle,
    /// How long to wait for the response, in microseconds.
    pub timeout: u64,
    /// How often to send the frame again when none comes.
    pub retries: usize,
}

/// What there is to say of a [`MainDevice`].
#[verifier::ext_equal]
pub struct MainDeviceState {
    /// The frame slots.
    pub pdu_loop: PduLoopState,
    /// The number of discovered SubDevices.
    pub num_subdevices: u16,
    /// The configured address of the distributed clocks reference, or `0`.
    pub dc_reference: u16,
    /// How long things may take.
    pub timeouts: Timeouts,
    /// Configuration.
    pub config: MainDeviceConfig,
}

impl View for MainDevice {
    type V = MainDeviceState;

    closed spec fn view(&self) -> MainDeviceState {
        MainDeviceState {
            pdu_loop: self.pdu_loop@,
            num_subdevices: self.num_subdevices,
            dc_reference: self.dc_reference_configured_address,
            timeouts: self.timeouts,
            config: self.config,
        }
    }
}

/// What preparing a PDU gives: the frame to send and what its response is recognised by. There is
/// no frame where another sender has claimed it in the meantime; whoever has the main device to
/// themselves always gets one.
pub type Prepared = Result<Option<(SendableFrame, PduResponseHandle)>, Error>;

/// What a [`Prepared`] says.
pub open spec fn prepared_view(r: Prepared) -> Result<
    Option<(SendableFrameView, PduResponseHandle)>,
    Error,
> {
    match r {
        Ok(Some((frame, handle))) => Ok(Some((frame@, handle))),
        Ok(None) => Ok(None),
        Err(e) => Err(e),
    }
}

impl MainDeviceState {
    /// The frame slots are in order.
    pub open spec fn wf(self) -> bool {
        self.pdu_loop.wf()
    }

    /// The frame for a PDU, claimed for sending.
    pub open spec fn prep(self, pdu: PduView) -> Result<
        Option<(SendableFrameView, PduResponseHandle)>,
        Error,
    > {
        match self.pdu_loop.prepare(pdu, FrameState::Sending).1 {
            Ok(prepared) => Ok(Some(prepared)),
            Err(e) => Err(e),
        }
    }

    /// The main device after it has prepared a PDU.
    pub open spec fn after_prep(self, pdu: PduView) -> MainDeviceState {
        MainDeviceState {
            pdu_loop: self.pdu_loop.prepare(pdu, FrameState::Sending).0,
            ..self
        }
    }
}

/// A prepared frame lies in a slot of the main device, where it is claimed for sending.
pub open spec fn in_place(device: MainDeviceState, prepared: Prepared) -> bool {
    prepared matches Ok(Some((frame, _))) ==> {
        &&& frame.slot < device.pdu_loop.frames.len()
        &&& device.pdu_loop.frames[frame.slot as int] is Sending
    }
}

/// `r` is the frame for `pdu`, and nothing but the frame slots has changed.
pub open spec fn prepares(
    before: MainDeviceState,
    after: MainDeviceState,
    pdu: PduView,
    r: Prepared,
) -> bool {
    &&& prepared_view(r) == before.prep(pdu)
    &&& after == before.after_prep(pdu)
    &&& after.wf()
    &&& in_place(after, r)
}

/// The address that each SubDevice is given, written to it at its position in the network.
pub open spec fn addressing_plan(count: u16) -> Seq<PduView> {
    Seq::new(count as nat, |i: int| addressing(i as u16))
}

/// The positions of the SubDevices that are given their addresses.
pub open spec fn addressing_positions(count: u16) -> Seq<u16> {
    Seq::new(count as nat, |i: int| i as u16)
}

/// The addresses that the SubDevices are given.
pub open spec fn addressing_addresses(count: u16) -> Seq<u16> {
    Seq::new(count as nat, |i: int| subdevice::configured_address_of(i as u16))
}

/// The address that a SubDevice is given, written to it at its position in the network.
pub open spec fn addressing(position: u16) -> PduView {
    PduView::write(
        Command::at_position(position, RegisterAddress::ConfiguredStationAddress.at()),
        wire::le16(subdevice::configured_address_of(position)),
    )
}

/// What is read to learn the properties of a SubDevice: what it supports, the address it gives
/// itself, and the state of its ports.
pub open spec fn properties_plan(address: u16) -> Seq<PduView> {
    seq![
        PduView::blank(
            Command::Fprd { address, register: RegisterAddress::SupportFlags.at() },
            SUPPORT_FLAGS_LEN,
        ),
        PduView::blank(
            Command::Fprd { address, register: RegisterAddress::ConfiguredStationAlias.at() },
            2,
        ),
        PduView::blank(
            Command::Fprd { address, register: RegisterAddress::DlStatus.at() },
            DL_STATUS_LEN,
        ),
    ]
}

/// The number of SubDevices that take part in distributed clocks.
pub open spec fn dc_count(subdevices: Seq<SubDevice>) -> nat
    decreases subdevices.len(),
{
    if subdevices.len() == 0 {
        0
    } else {
        dc_count(subdevices.drop_last()) + if subdevices.last().dc_support is Unsupported {
            0nat
        } else {
            1nat
        }
    }
}

/// What is read of a SubDevice once receive times have been latched: when the frame reached it, and
/// when the frame passed its four ports.
pub open spec fn latched_times(address: u16) -> Seq<PduView> {
    seq![
        PduView::blank(
            Command::Fprd { address, register: RegisterAddress::DcReceiveTime.at() },
            8,
        ),
        PduView::blank(Command::Fprd { address, register: RegisterAddress::DcTimePort0.at() }, 16),
    ]
}

/// The reads of all SubDevices that take part in distributed clocks, in the order of the
/// SubDevices.
pub open spec fn latch_plan(subdevices: Seq<SubDevice>) -> Seq<PduView>
    decreases subdevices.len(),
{
    if subdevices.len() == 0 {
        Seq::empty()
    } else if subdevices.last().dc_support is Unsupported {
        latch_plan(subdevices.drop_last())
    } else {
        latch_plan(subdevices.drop_last()) + latched_times(subdevices.last().configured_address)
    }
}

/// The place in the list of the SubDevice that each of the reads is of.
pub open spec fn latch_ids(subdevices: Seq<SubDevice>) -> Seq<u16>
    decreases subdevices.len(),
{
    if subdevices.len() == 0 {
        Seq::empty()
    } else if subdevices.last().dc_support is Unsupported {
        latch_ids(subdevices.drop_last())
    } else {
        let id = (subdevices.len() - 1) as u16;
        latch_ids(subdevices.drop_last()) + seq![id, id]
    }
}

/// The number of bytes of the support flags.
pub const SUPPORT_FLAGS_LEN: u16 = 2;

/// The number of bytes of the port state.
pub const DL_STATUS_LEN: u16 = 2;

/// The conversion of a value into its own type, `From<T> for T` of the standard library, which
/// gives the value back as it is. An address that is a `u16` already goes through it.
pub assume_specification<T>[ <T as From<T>>::from ](t: T) -> (r: T)
    ensures
        r == t,
;

/// The address that a SubDevice is given, written to it at its position in the network.
pub fn address_pdu(position: u16) -> (r: Pdu)
    ensures
        r@ == addressing(position),
{
    let address = pack_u16(configured_address(position));
    let mut data: Vec<u8> = Vec::new();
    data.extend_from_slice(&address);
    assert(data@ =~= address@);
    Pdu::write(Command::apwr(position, RegisterAddress::ConfiguredStationAddress.into()), data)
}

proof fn lemma_dc_count_of_prefix(list: Seq<SubDevice>, n: int)
    requires
        0 <= n <= list.len(),
    ensures
        dc_count(list.take(n)) <= dc_count(list),
    decreases list.len(),
{
    if n == list.len() {
        assert(list.take(n) =~= list);
    } else {
        lemma_dc_count_of_prefix(list.drop_last(), n);
        assert(list.drop_last().take(n) =~= list.take(n));
    }
}

proof fn lemma_latch_len(list: Seq<SubDevice>)
    ensures
        latch_plan(list).len() == latch_ids(list).len() == 2 * dc_count(list),
    decreases list.len(),
{
    if list.len() > 0 {
        lemma_latch_len(list.drop_last());
    }
}

/// The addresses that `count` SubDevices are given, written to them at their positions, along with
/// the positions and the addresses.
fn address_pdus(count: u16) -> (r: (Vec<Pdu>, Vec<u16>, Vec<u16>))
    ensures
        hand_out::plan_of(r.0@) == addressing_plan(count),
        r.1@ == addressing_positions(count),
        r.2@ == addressing_addresses(count),
        r.0@.len() == r.1@.len() == r.2@.len(),
{
    let mut pdus: Vec<Pdu> = Vec::new();
    let mut positions: Vec<u16> = Vec::new();
    let mut addresses: Vec<u16> = Vec::new();
    let mut position: u16 = 0;
    while position < count
        invariant
            position <= count,
            pdus@.len() == position,
            forall|i: int| 0 <= i < position ==> (#[trigger] pdus@[i])@ == addressing(i as u16),
            positions@ == addressing_positions(position),
            addresses@ == addressing_addresses(position),
        decreases count - position,
    {
        pdus.push(address_pdu(position));
        positions.push(position);
        addresses.push(configured_address(position));
        position = position + 1;
    }
    assert(hand_out::plan_of(pdus@) =~= addressing_plan(count));
    (pdus, positions, addresses)
}

/// The reads of all SubDevices that take part in distributed clocks, the place in the list of the
/// SubDevice that each of the reads is of, and the number of such SubDevices.
fn latch_pdus(subdevices: &[SubDevice]) -> (r: (Vec<Pdu>, Vec<u16>, u16))
    requires
        dc_count(subdevices@) <= u16::MAX,
    ensures
        hand_out::plan_of(r.0@) == latch_plan(subdevices@),
        r.1@ == latch_ids(subdevices@),
        r.2 == dc_count(subdevices@),
        r.0@.len() == r.1@.len(),
{
    let ghost list = subdevices@;
    let mut pdus: Vec<Pdu> = Vec::new();
    let mut ids: Vec<u16> = Vec::new();
    let mut dc_supported_devices: u16 = 0;
    let mut id: usize = 0;
    assert(list.take(0) =~= Seq::<SubDevice>::empty());
    while id < subdevices.len()
        invariant
            id <= subdevices@.len(),
            list == subdevices@,
            dc_count(list) <= u16::MAX,
            dc_supported_devices == dc_count(list.take(id as int)),
            hand_out::plan_of(pdus@) == latch_plan(list.take(id as int)),
            ids@ == latch_ids(list.take(id as int)),
        decreases subdevices@.len() - id,
    {
        let subdevice = &subdevices[id];
        proof {
            lemma_dc_count_of_prefix(list, id + 1);
            assert(list.take(id + 1).drop_last() =~= list.take(id as int));
        }
        if subdevice.dc_support().any() {
            let address: u16 = subdevice.configured_address();
            let ghost earlier = pdus@;
            pdus.push(Pdu::blank(Command::fprd(address, RegisterAddress::DcReceiveTime.into()), 8));
            pdus.push(Pdu::blank(Command::fprd(address, RegisterAddress::DcTimePort0.into()), 16));
            ids.push(id as u16);
            ids.push(id as u16);
            assert(hand_out::plan_of(pdus@) =~= hand_out::plan_of(earlier) + latched_times(
                address,
            ));
            dc_supported_devices = dc_supported_devices + 1;
        }
        id = id + 1;
    }
    assert(list.take(id as int) =~= list);
    proof {
        lemma_latch_len(list);
        assert(pdus@.len() == hand_out::plan_of(pdus@).len());
    }
    (pdus, ids, dc_supported_devices)
}

impl MainDevice {
    /// Create a new main device.
    pub fn new(pdu_loop: PduLoop, timeouts: Timeouts, config: MainDeviceConfig) -> (r: MainDevice)
        ensures
            r@ == (MainDeviceState {
                pdu_loop: pdu_loop@,
                num_subdevices: 0,
                dc_reference: 0,
                timeouts,
                config,
            }),
    {
        MainDevice {
            pdu_loop,
            num_subdevices: 0,
            dc_reference_configured_address: 0,
            timeouts,
            config,
        }
    }

    /// Puts a PDU into a frame of its own and claims the frame for sending.
    pub fn prep_send_frame(
        &mut self,
        command: Command,
        data: &[u8],
        len_override: Option<u16>,
    ) -> (r: Prepared)
        requires
            old(self)@.wf(),
        ensures
            prepares(old(self)@, final(self)@, PduView { command, data: data@, len_override }, r),
    {
        let ghost pdu = PduView { command, data: data@, len_override };
        proof {
            pdu_loop::law_prepare_takes_a_free_slot(self@.pdu_loop, pdu, FrameState::Sending);
        }
        let mut frame = match self.pdu_loop.alloc_frame() {
            Ok(frame) => frame,
            Err(e) => {
                return Err(Error::Pdu(e));
            },
        };
        let handle = match self.pdu_loop.push_pdu(&mut frame, command, data, len_override) {
            Ok(handle) => handle,
            Err(e) => {
                self.pdu_loop.drop_frame(frame);
                assert(self.pdu_loop@ =~= old(self)@.pdu_loop.prepare(pdu, FrameState::Sending).0);
                return Err(Error::Pdu(e));
            },
        };
        let frame = self.pdu_loop.close_frame(frame, FrameState::Sending);
        assert(self.pdu_loop@ =~= old(self)@.pdu_loop.prepare(pdu, FrameState::Sending).0);
        Ok(Some((frame, handle)))
    }

    pub(crate) fn prep_pdu(&mut self, pdu: &Pdu) -> (r: Prepared)
        requires
            old(self)@.wf(),
        ensures
            prepares(old(self)@, final(self)@, pdu@, r),
    {
        self.prep_send_frame(pdu.command, pdu.data.as_slice(), pdu.len_override)
    }

    /// Resets every SubDevice: back to `INIT`, with no FMMU and no sync manager configured and the
    /// clocks as they are at start-up. Each frame is handed to `f` as it is prepared; an error from
    /// `f` ends the reset. `f` has the main device while it is called: a slot that it gives back
    /// with [`MainDevice::release_frame`] is there for the frames that follow.
    pub fn prep_reset_subdevices<F: FnMut(&mut MainDevice, Prepared) -> Result<(), Error>>(
        &mut self,
        f: F,
    ) -> (r: Result<(), Error>)
        requires
            old(self)@.wf(),
            forall|d: &mut MainDevice, frame: Prepared|
                (*d)@.wf() && in_place((*d)@, frame) ==> #[trigger] call_requires(f, (d, frame)),
            forall|d: &mut MainDevice, frame: Prepared, r: Result<(), Error>|
                (*d)@.wf() && in_place((*d)@, frame) && #[trigger] call_ensures(f, (d, frame), r)
                    ==> (*final(d))@.wf(),
        ensures
            final(self)@.wf(),
            exists|run: Seq<HandOut>|
                {
                    &&& #[trigger] hand_out::handed_out(
                        old(self)@,
                        reset::reset_plan(),
                        run,
                        final(self)@,
                    )
                    &&& forall|i: int|
                        #![trigger run[i]]
                        0 <= i < run.len() ==> exists|d: &mut MainDevice|
                            {
                                &&& hand_out::passed(run[i], (*d)@, (*final(d))@)
                                &&& #[trigger] call_ensures(f, (d, run[i].prepared), run[i].answer)
                            }
                    &&& r == hand_out::verdict(run)
                },
    {
        let mut pdus: Vec<Pdu> = Vec::new();
        let mut step: usize = 0;
        while step < reset::RESET_STEPS
            invariant
                step <= reset::RESET_STEPS,
                pdus@.len() == step,
                forall|i: int| 0 <= i < step ==> (#[trigger] pdus@[i])@ == reset::reset_plan()[i],
            decreases reset::RESET_STEPS - step,
        {
            pdus.push(reset::reset_step(step));
            step = step + 1;
        }
        proof {
            reset::law_reset_plan_len();
            assert(hand_out::plan_of(pdus@) =~= reset::reset_plan());
        }
        self.hand_out(pdus, f)
    }

    /// Gives every SubDevice its address. Each frame is handed to `f` as it is prepared, along with
    /// the position of the SubDevice and the address; an error from `f` ends it. `f` has
    /// the main device while it is called: a slot that it gives back with
    /// [`MainDevice::release_frame`] is there for the frames that follow.
    #[verifier::rlimit(80)]
    pub fn prep_configure_subdev_addrs<
        F: FnMut(&mut MainDevice, Prepared, u16, u16) -> Result<(), Error>,
    >(&mut self, subdev_count: u16, f: F) -> (r: Result<(), Error>)
        requires
            old(self)@.wf(),
            forall|d: &mut MainDevice, frame: Prepared, position: u16, address: u16|
                (*d)@.wf() && in_place((*d)@, frame) ==> #[trigger] call_requires(
                    f,
                    (d, frame, position, address),
                ),
            forall|
                d: &mut MainDevice,
                frame: Prepared,
                position: u16,
                address: u16,
                r: Result<(), Error>,
            |
                (*d)@.wf() && in_place((*d)@, frame) && #[trigger] call_ensures(
                    f,
                    (d, frame, position, address),
                    r,
                )
                    ==> (*final(d))@.wf(),
        ensures
            final(self)@.wf(),
            exists|run: Seq<HandOut>|
                {
                    &&& #[trigger] hand_out::handed_out(
                        old(self)@,
                        addressing_plan(subdev_count),
                        run,
                        final(self)@,
                    )
                    &&& forall|i: int|
                        #![trigger run[i]]
                        0 <= i < run.len() ==> exists|d: &mut MainDevice|
                            {
                                &&& hand_out::passed(run[i], (*d)@, (*final(d))@)
                                &&& #[trigger] call_ensures(
                                    f,
                                    (
                                        d,
                                        run[i].prepared,
                                        addressing_positions(subdev_count)[i],
                                        addressing_addresses(subdev_count)[i],
                                    ),
                                    run[i].answer,
                                )
                            }
                    &&& r == hand_out::verdict(run)
                },
    {
        let (pdus, positions, addresses) = address_pdus(subdev_count);
        self.hand_out_addresses(pdus, positions, addresses, f)
    }

    /// Reads the properties of a SubDevice. Each frame is handed to `f` as it is prepared; an error
    /// from `f` ends it. `f` has the main device while it is called: a slot that it gives back with
    /// [`MainDevice::release_frame`] is there for the frames that follow.
    pub fn prep_device_properties<F: FnMut(&mut MainDevice, Prepared) -> Result<(), Error>>(
        &mut self,
        configured_addr: u16,
        f: F,
    ) -> (r: Result<(), Error>)
        requires
            old(self)@.wf(),
            forall|d: &mut MainDevice, frame: Prepared|
                (*d)@.wf() && in_place((*d)@, frame) ==> #[trigger] call_requires(f, (d, frame)),
            forall|d: &mut MainDevice, frame: Prepared, r: Result<(), Error>|
                (*d)@.wf() && in_place((*d)@, frame) && #[trigger] call_ensures(f, (d, frame), r)
                    ==> (*final(d))@.wf(),
        ensures
            final(self)@.wf(),
            exists|run: Seq<HandOut>|
                {
                    &&& #[trigger] hand_out::handed_out(
                        old(self)@,
                        properties_plan(configured_addr),
                        run,
                        final(self)@,
                    )
                    &&& forall|i: int|
                        #![trigger run[i]]
                        0 <= i < run.len() ==> exists|d: &mut MainDevice|
                            {
                                &&& hand_out::passed(run[i], (*d)@, (*final(d))@)
                                &&& #[trigger] call_ensures(f, (d, run[i].prepared), run[i].answer)
                            }
                    &&& r == hand_out::verdict(run)
                },
    {
        let flags = Command::fprd(configured_addr, RegisterAddress::SupportFlags.into());
        let alias = Command::fprd(configured_addr, RegisterAddress::ConfiguredStationAlias.into());
        let ports = Command::fprd(configured_addr, RegisterAddress::DlStatus.into());
        let mut pdus: Vec<Pdu> = Vec::new();
        pdus.push(Pdu::blank(flags, SUPPORT_FLAGS_LEN));
        pdus.push(Pdu::blank(alias, 2));
        pdus.push(Pdu::blank(ports, DL_STATUS_LEN));
        assert(hand_out::plan_of(pdus@) =~= properties_plan(configured_addr));
        self.hand_out(pdus, f)
    }

    /// Reads the times that were latched by [`MainDevice::prep_latch_receive_times`] from every
    /// SubDevice that takes part in distributed clocks. Each frame is handed to `f` as it is
    /// prepared, along with the place of the SubDevice in the list; an error from `f` ends it. The
    /// number of such SubDevices is given back. `f` has the main device while it is called: a slot
    /// that it gives back with [`MainDevice::release_frame`] is there for the frames that follow.
    pub fn prep_latch_dc_times<F: FnMut(&mut MainDevice, Prepared, u16) -> Result<(), Error>>(
        &mut self,
        subdevices: &[SubDevice],
        f: F,
    ) -> (r: Result<u16, Error>)
        requires
            old(self)@.wf(),
            forall|d: &mut MainDevice, frame: Prepared, id: u16|
                (*d)@.wf() && in_place((*d)@, frame) ==> #[trigger] call_requires(
                    f,
                    (d, frame, id),
                ),
            forall|d: &mut MainDevice, frame: Prepared, id: u16, r: Result<(), Error>|
                (*d)@.wf() && in_place((*d)@, frame) && #[trigger] call_ensures(
                    f,
                    (d, frame, id),
                    r,
                )
                    ==> (*final(d))@.wf(),
            dc_count(subdevices@) <= u16::MAX,
        ensures
            final(self)@.wf(),
            exists|run: Seq<HandOut>|
                {
                    &&& #[trigger] hand_out::handed_out(
                        old(self)@,
                        latch_plan(subdevices@),
                        run,
                        final(self)@,
                    )
                    &&& forall|i: int|
                        #![trigger run[i]]
                        0 <= i < run.len() ==> exists|d: &mut MainDevice|
                            {
                                &&& hand_out::passed(run[i], (*d)@, (*final(d))@)
                                &&& #[trigger] call_ensures(
                                    f,
                                    (d, run[i].prepared, latch_ids(subdevices@)[i]),
                                    run[i].answer,
                                )
                            }
                    &&& r == match hand_out::verdict(run) {
                        Ok(_) => Ok::<u16, Error>(dc_count(subdevices@) as u16),
                        Err(e) => Err::<u16, Error>(e),
                    }
                },
    {
        let (pdus, ids, dc_supported_devices) = latch_pdus(subdevices);
        self.hand_out_for(pdus, ids, dc_supported_devices, f)
    }

    /// Reads `len` bytes with `command`, or writes as many zeros with it.
    fn prep_blank(&mut self, command: Command, len: u16) -> (r: Prepared)
        requires
            old(self)@.wf(),
        ensures
            prepares(old(self)@, final(self)@, PduView::blank(command, len), r),
    {
        let nothing: [u8; 0] = [];
        assert(nothing@ =~= Seq::<u8>::empty());
        self.prep_send_frame(command, &nothing, Some(len))
    }

    /// Count the number of SubDevices on the network: each one counts the working counter up.
    pub fn prep_count_subdevices(&mut self) -> (r: Prepared)
        requires
            old(self)@.wf(),
        ensures
            prepares(
                old(self)@,
                final(self)@,
                PduView::blank(Command::Brd { register: RegisterAddress::Type.at() }, 1),
                r,
            ),
    {
        self.prep_blank(Command::brd(RegisterAddress::Type.into()), 1)
    }

    /// Puts a PDU with nothing but `bytes` into a frame.
    fn prep_push_frame(&mut self, command: Command, bytes: &[u8]) -> (r: Prepared)
        requires
            old(self)@.wf(),
        ensures
            prepares(
                old(self)@,
                final(self)@,
                PduView::write(command, bytes@),
                r,
            ),
    {
        self.prep_send_frame(command, bytes, None)
    }

    /// Exchanges process data: `bytes` goes out to the logical address, and what the SubDevices
    /// have for it comes back.
    pub fn prep_rx_tx(&mut self, start_addr: u32, bytes: &[u8]) -> (r: Prepared)
        requires
            old(self)@.wf(),
        ensures
            prepares(
                old(self)@,
                final(self)@,
                PduView::write(Command::Lrw { logical: start_addr }, bytes@),
                r,
            ),
    {
        self.prep_push_frame(Command::lrw(start_addr), bytes)
    }

    /// Write zeroes to every SubDevice's memory: `LEN` of them, from `start` on.
    pub fn prep_blank_memory<const LEN: usize, S: Into<u16>>(&mut self, start: S) -> (r: Prepared)
        requires
            old(self)@.wf(),
        ensures
            exists|at: u16|
                {
                    &&& #[trigger] call_ensures(S::into, (start,), at)
                    &&& prepares(old(self)@, final(self)@, reset::blanked(at, LEN as u16), r)
                },
    {
        let at: u16 = start.into();
        self.prep_blank(Command::bwr(at), LEN as u16)
    }

    /// Looks whether every SubDevice on the network has reached a state. The state that the
    /// SubDevices are in comes back.
    pub fn prep_wait_for_state(&mut self, _desired_state: SubDeviceState) -> (r: Prepared)
        requires
            old(self)@.wf(),
        ensures
            prepares(
                old(self)@,
                final(self)@,
                PduView::blank(
                    Command::Brd { register: RegisterAddress::AlStatus.at() },
                    AL_CONTROL_LEN,
                ),
                r,
            ),
    {
        self.prep_blank(Command::brd(RegisterAddress::AlStatus.into()), AL_CONTROL_LEN)
    }

    /// Asks a SubDevice to go into a state.
    pub fn prep_request_subdevice_state(
        &mut self,
        configured_addr: u16,
        desired_state: SubDeviceState,
    ) -> (r: Prepared)
        requires
            old(self)@.wf(),
        ensures
            prepares(
                old(self)@,
                final(self)@,
                PduView::write(
                    Command::Fpwr {
                        address: configured_addr,
                        register: RegisterAddress::AlControl.at(),
                    },
                    AlControl::request(desired_state).packed(),
                ),
                r,
            ),
    {
        let data = AlControl::new(desired_state).pack();
        self.prep_send_frame(
            Command::fpwr(configured_addr, RegisterAddress::AlControl.into()),
            &data,
            None,
        )
    }

    /// Looks whether a SubDevice has changed to a state. The state that the SubDevice is in comes
    /// back, whatever state was asked of it.
    pub fn prep_wait_subdevice_state(
        &mut self,
        configured_addr: u16,
        _desired_state: SubDeviceState,
    ) -> (r: Prepared)
        requires
            old(self)@.wf(),
        ensures
            prepares(
                old(self)@,
                final(self)@,
                PduView::blank(
                    Command::Fprd {
                        address: configured_addr,
                        register: RegisterAddress::AlStatus.at(),
                    },
                    AL_CONTROL_LEN,
                ),
                r,
            ),
    {
        self.prep_blank(
            Command::fprd(configured_addr, RegisterAddress::AlStatus.into()),
            AL_CONTROL_LEN,
        )
    }

    /// Takes the EEPROM of a SubDevice away from whoever has it.
    pub fn prep_clear_eeprom(&mut self, configured_addr: u16) -> (r: Prepared)
        requires
            old(self)@.wf(),
        ensures
            prepares(
                old(self)@,
                final(self)@,
                PduView::write(
                    Command::Fpwr {
                        address: configured_addr,
                        register: RegisterAddress::SiiConfig.at(),
                    },
                    wire::le16(2),
                ),
                r,
            ),
    {
        let data = pack_u16(2);
        self.prep_send_frame(
            Command::fpwr(configured_addr, RegisterAddress::SiiConfig.into()),
            &data,
            None,
        )
    }

    /// Gives the EEPROM of a SubDevice to an owner.
    pub fn prep_set_eeprom(&mut self, configured_addr: u16, mode: SiiOwner) -> (r: Prepared)
        requires
            old(self)@.wf(),
        ensures
            prepares(
                old(self)@,
                final(self)@,
                PduView::write(
                    Command::Fpwr {
                        address: configured_addr,
                        register: RegisterAddress::SiiConfig.at(),
                    },
                    wire::le16(mode.raw()),
                ),
                r,
            ),
    {
        let data = mode.pack();
        self.prep_send_frame(
            Command::fpwr(configured_addr, RegisterAddress::SiiConfig.into()),
            &data,
            None,
        )
    }

    /// Starts reading a chunk of the EEPROM of a SubDevice.
    pub fn prep_read_eeprom_chunk(
        &mut self,
        configured_device_addr: u16,
        start_word: u16,
    ) -> (r: Prepared)
        requires
            old(self)@.wf(),
        ensures
            prepares(
                old(self)@,
                final(self)@,
                PduView::write(
                    Command::Fpwr {
                        address: configured_device_addr,
                        register: RegisterAddress::SiiControl.at(),
                    },
                    SiiRequest::read_from(start_word).packed(),
                ),
                r,
            ),
    {
        let data = SiiRequest::read(start_word).pack();
        self.prep_send_frame(
            Command::fpwr(configured_device_addr, RegisterAddress::SiiControl.into()),
            &data,
            None,
        )
    }

    /// Looks whether the chunk asked for by [`MainDevice::prep_read_eeprom_chunk`] is there.
    pub fn prep_wait_for_eeprom_chunk(&mut self, configured_device_addr: u16) -> (r: Prepared)
        requires
            old(self)@.wf(),
        ensures
            prepares(
                old(self)@,
                final(self)@,
                PduView::blank(
                    Command::Fprd {
                        address: configured_device_addr,
                        register: RegisterAddress::SiiControl.at(),
                    },
                    SII_CONTROL_LEN,
                ),
                r,
            ),
    {
        self.prep_blank(
            Command::fprd(configured_device_addr, RegisterAddress::SiiControl.into()),
            SII_CONTROL_LEN,
        )
    }

    /// Reads the chunk that [`MainDevice::prep_wait_for_eeprom_chunk`] has found to be there;
    /// `ctrl` is what that came back with.
    pub fn prep_read_available_eeprom_chunk(
        &mut self,
        configured_device_addr: u16,
        ctrl: SiiControl,
    ) -> (r: Prepared)
        requires
            old(self)@.wf(),
        ensures
            prepares(
                old(self)@,
                final(self)@,
                PduView::blank(
                    Command::Fprd {
                        address: configured_device_addr,
                        register: RegisterAddress::SiiData.at(),
                    },
                    ctrl.read_size.len(),
                ),
                r,
            ),
    {
        self.prep_blank(
            Command::fprd(configured_device_addr, RegisterAddress::SiiData.into()),
            ctrl.read_size.chunk_len(),
        )
    }

    /// Latches receive times into all ports of all SubDevices.
    pub fn prep_latch_receive_times(&mut self) -> (r: Prepared)
        requires
            old(self)@.wf(),
        ensures
            prepares(
                old(self)@,
                final(self)@,
                PduView::write(
                    Command::Bwr { register: RegisterAddress::DcTimePort0.at() },
                    wire::le32(0),
                ),
                r,
            ),
    {
        let data = pack_u32(0);
        self.prep_send_frame(Command::bwr(RegisterAddress::DcTimePort0.into()), &data, None)
    }

    /// Sends the system time of the distributed clocks reference round once. How often that is to
    /// be done is for the caller to keep count of.
    pub fn prep_dc_static_sync(&mut self, master: &SubDevice) -> (r: Prepared)
        requires
            old(self)@.wf(),
        ensures
            prepares(
                old(self)@,
                final(self)@,
                PduView::blank(
                    Command::Frmw {
                        address: master.configured_address,
                        register: RegisterAddress::DcSystemTime.at(),
                    },
                    8,
                ),
                r,
            ),
    {
        self.prep_blank(
            Command::frmw(master.configured_address(), RegisterAddress::DcSystemTime.into()),
            8,
        )
    }

    /// Configures a sync manager as the EEPROM describes it, with a buffer of `length_bytes`. The
    /// configuration is given along with the frame.
    pub fn prep_write_sm_config(
        &mut self,
        configured_addr: u16,
        sm_idx: u8,
        sync_manager: &SyncManager,
        length_bytes: u16,
    ) -> (r: Result<Option<((SendableFrame, PduResponseHandle), SyncManagerChannel)>, Error>)
        requires
            old(self)@.wf(),
            sm_idx < CHANNELS,
        ensures
            ({
                let config = sync_manager.channel(length_bytes);
                let pdu = PduView::write(
                    Command::Fpwr {
                        address: configured_addr,
                        register: RegisterAddress::SyncManager(sm_idx).at(),
                    },
                    config.packed(),
                );
                match r {
                    Ok(Some((frame, sent))) => sent == config && prepares(
                        old(self)@,
                        final(self)@,
                        pdu,
                        Ok(Some(frame)),
                    ),
                    Ok(None) => prepares(old(self)@, final(self)@, pdu, Ok(None)),
                    Err(e) => prepares(old(self)@, final(self)@, pdu, Err(e)),
                }
            }),
    {
        let config = sync_manager.to_channel(length_bytes);
        let data = config.pack();
        let command = Command::fpwr(configured_addr, RegisterAddress::sync_manager(sm_idx).into());
        match self.prep_send_frame(command, &data, None) {
            Ok(Some(frame)) => Ok(Some((frame, config))),
            Ok(None) => Ok(None),
            Err(e) => Err(e),
        }
    }

    /// Reads the status of a mailbox sync manager.
    pub fn prep_mailbox_sync_manager_status(
        &mut self,
        configured_addr: u16,
        sm_idx: u8,
    ) -> (r: Prepared)
        requires
            old(self)@.wf(),
            sm_idx < CHANNELS,
        ensures
            prepares(
                old(self)@,
                final(self)@,
                PduView::blank(
                    Command::Fprd {
                        address: configured_addr,
                        register: RegisterAddress::SyncManagerStatus(sm_idx).at(),
                    },
                    STATUS_LEN,
                ),
                r,
            ),
    {
        self.prep_blank(
            Command::fprd(configured_addr, RegisterAddress::sync_manager_status(sm_idx).into()),
            STATUS_LEN,
        )
    }

    /// Reads from an arbitrary address.
    pub fn prep_read(
        &mut self,
        configured_addr: u16,
        read_addr: u16,
        read_len: u16,
    ) -> (r: Prepared)
        requires
            old(self)@.wf(),
        ensures
            prepares(
                old(self)@,
                final(self)@,
                PduView::blank(
                    Command::Fprd { address: configured_addr, register: read_addr },
                    read_len,
                ),
                r,
            ),
    {
        self.prep_blank(Command::fprd(configured_addr, read_addr), read_len)
    }

    /// Writes to an arbitrary address. What is written is `data`, filled up with zeros to
    /// `write_len`.
    pub fn prep_write(
        &mut self,
        configured_addr: u16,
        write_addr: u16,
        write_len: u16,
        data: &[u8],
    ) -> (r: Prepared)
        requires
            old(self)@.wf(),
        ensures
            prepares(
                old(self)@,
                final(self)@,
                PduView {
                    command: Command::Fpwr { address: configured_addr, register: write_addr },
                    data: data@,
                    len_override: Some(write_len),
                },
                r,
            ),
    {
        self.prep_send_frame(Command::fpwr(configured_addr, write_addr), data, Some(write_len))
    }

    /// Reads the configuration of an FMMU.
    pub fn prep_read_fmmu(&mut self, configured_addr: u16, fmmu_index: u8) -> (r: Prepared)
        requires
            old(self)@.wf(),
            fmmu_index < CHANNELS,
        ensures
            prepares(
                old(self)@,
                final(self)@,
                PduView::blank(
                    Command::Fprd {
                        address: configured_addr,
                        register: RegisterAddress::Fmmu(fmmu_index).at(),
                    },
                    FMMU_LEN,
                ),
                r,
            ),
    {
        self.prep_blank(
            Command::fprd(configured_addr, RegisterAddress::fmmu(fmmu_index).into()),
            FMMU_LEN,
        )
    }

    /// Configures an FMMU.
    pub fn prep_write_fmmu(
        &mut self,
        configured_addr: u16,
        fmmu_index: u8,
        fmmu: Fmmu,
    ) -> (r: Prepared)
        requires
            old(self)@.wf(),
            fmmu_index < CHANNELS,
        ensures
            prepares(
                old(self)@,
                final(self)@,
                PduView::write(
                    Command::Fpwr {
                        address: configured_addr,
                        register: RegisterAddress::Fmmu(fmmu_index).at(),
                    },
                    fmmu.packed(),
                ),
                r,
            ),
    {
        let data = fmmu.pack();
        self.prep_send_frame(
            Command::fpwr(configured_addr, RegisterAddress::fmmu(fmmu_index).into()),
            &data,
            None,
        )
    }

    /// Records how many SubDevices were discovered.
    pub(crate) fn set_num_subdevices(&mut self, count: u16)
        ensures
            final(self)@ == (MainDeviceState { num_subdevices: count, ..old(self)@ }),
    {
        self.num_subdevices = count;
    }

    /// Records the configured address of the distributed clocks reference, or `0` for none.
    pub(crate) fn set_dc_reference(&mut self, address: u16)
        ensures
            final(self)@ == (MainDeviceState { dc_reference: address, ..old(self)@ }),
    {
        self.dc_reference_configured_address = address;
    }

    /// How long things may take.
    pub fn timeouts(&self) -> (r: Timeouts)
        ensures
            r == self@.timeouts,
    {
        self.timeouts
    }

    /// Configuration of the main device.
    pub(crate) fn config(&self) -> (r: MainDeviceConfig)
        ensures
            r == self@.config,
    {
        self.config
    }

    /// A wait for all SubDevices on the network to reach a given state. It may take as long as
    /// `timeouts().state_transition`.
    pub fn wait_for_state(&self, desired_state: SubDeviceState) -> (r: WaitForState)
        ensures
            r == WaitForState::begun(desired_state, self@.num_subdevices),
            r.wf(),
    {
        WaitForState::new(desired_state, self.num_subdevices)
    }

    /// Puts a PDU into a frame of its own and queues the frame for the sender, which is woken.
    pub fn single_pdu(
        &mut self,
        command: Command,
        data: &[u8],
        len_override: Option<u16>,
    ) -> (r: Result<InFlight, Error>)
        requires
            old(self)@.wf(),
        ensures
            final(self)@.wf(),
            ({
                let pdu = PduView { command, data: data@, len_override };
                let (after, prepared) = old(self)@.pdu_loop.prepare(pdu, FrameState::Sendable);
                match r {
                    Ok(sent) => {
                        &&& prepared == Ok::<(SendableFrameView, PduResponseHandle), Error>(
                            (sent.frame@, sent.handle),
                        )
                        &&& sent.timeout == old(self)@.timeouts.pdu
                        &&& sent.retries == old(self)@.config.retry_behaviour.retries()
                        &&& final(self)@ == (MainDeviceState {
                            pdu_loop: PduLoopState { sender_woken: true, ..after },
                            ..old(self)@
                        })
                    },
                    Err(e) => {
                        &&& prepared == Err::<(SendableFrameView, PduResponseHandle), Error>(e)
                        &&& final(self)@ == (MainDeviceState { pdu_loop: after, ..old(self)@ })
                    },
                }
            }),
    {
        let ghost pdu = PduView { command, data: data@, len_override };
        proof {
            pdu_loop::law_prepare_takes_a_free_slot(self@.pdu_loop, pdu, FrameState::Sendable);
        }
        let mut frame = match self.pdu_loop.alloc_frame() {
            Ok(frame) => frame,
            Err(e) => {
                return Err(Error::Pdu(e));
            },
        };
        let handle = match self.pdu_loop.push_pdu(&mut frame, command, data, len_override) {
            Ok(handle) => handle,
            Err(e) => {
                self.pdu_loop.drop_frame(frame);
                assert(self.pdu_loop@ =~= old(self)@.pdu_loop.prepare(pdu, FrameState::Sendable).0);
                return Err(Error::Pdu(e));
            },
        };
        let frame = self.pdu_loop.close_frame(frame, FrameState::Sendable);
        assert(self.pdu_loop@ =~= old(self)@.pdu_loop.prepare(pdu, FrameState::Sendable).0);
        self.pdu_loop.wake_sender();
        Ok(
            InFlight {
                frame,
                handle,
                timeout: self.timeouts.pdu,
                retries: self.config.retry_behaviour.retry_count(),
            },
        )
    }

    /// Makes the slot of a frame free again, once its response has been dealt with or given up.
    pub fn release_frame(&mut self, slot: usize)
        requires
            old(self)@.wf(),
            slot < old(self)@.pdu_loop.frames.len(),
        ensures
            final(self)@ == (MainDeviceState {
                pdu_loop: PduLoopState {
                    frames: old(self)@.pdu_loop.frames.update(slot as int, FrameState::Free),
                    ..old(self)@.pdu_loop
                },
                ..old(self)@
            }),
            final(self)@.wf(),
    {
        self.pdu_loop.release_frame(slot);
    }

    /// Takes what came back for a PDU that was sent with [`MainDevice::single_pdu`], or why nothing
    /// did. The slot of the frame is free again.
    pub fn single_pdu_response(
        &mut self,
        sent: InFlight,
        reply: Result<Vec<u8>, Error>,
    ) -> (r: Result<ReceivedPdu, Error>)
        requires
            old(self)@.wf(),
            sent.frame.slot < old(self)@.pdu_loop.frames.len(),
        ensures
            final(self)@ == (MainDeviceState {
                pdu_loop: PduLoopState {
                    frames: old(self)@.pdu_loop.frames.update(
                        sent.frame.slot as int,
                        FrameState::Free,
                    ),
                    ..old(self)@.pdu_loop
                },
                ..old(self)@
            }),
            match reply {
                Ok(bytes) => wait::reply_view(r) == pdu_loop::response(bytes@, sent.handle),
                Err(e) => r == Err::<ReceivedPdu, Error>(e),
            },
    {
        self.release_frame(sent.frame.slot);
        match reply {
            Ok(bytes) => first_pdu(bytes.as_slice(), &sent.handle),
            Err(e) => Err(e),
        }
    }

    /// Get the number of discovered SubDevices in the EtherCAT network. It is known once the
    /// network has been initialised.
    pub fn num_subdevices(&self) -> (r: usize)
        ensures
            r == self@.num_subdevices,
    {
        self.num_subdevices as usize
    }

    /// Get the configured address of the designated distributed clocks reference.
    pub fn dc_ref_address(&self) -> (r: Option<u16>)
        ensures
            self@.dc_reference == 0 ==> r is None,
            self@.dc_reference != 0 ==> r == Some(self@.dc_reference),
    {
        let addr: u16 = self.dc_reference_configured_address;
        if addr > 0 {
            Some(addr)
        } else {
            None
        }
    }

    /// How many PDU bytes fit into a frame.
    pub fn max_frame_data(&self) -> (r: usize)
        ensures
            r == self@.pdu_loop.max_frame_data,
    {
        self.pdu_loop.max_frame_data()
    }

    /// Release the [`PduLoop`] storage **without** resetting it.
    ///
    /// To reset the released `PduLoop`, call [`PduLoop::reset`]. The sender and the receiver go on;
    /// to stop them as well, call [`MainDevice::release_all`]. No frame should be on its way when
    /// this is called.
    pub fn release(self) -> (r: PduLoop)
        ensures
            r@ == self@.pdu_loop,
    {
        self.pdu_loop
    }

    /// Release the [`PduLoop`] storage and tell the sender and the receiver to release their
    /// resources.
    pub fn release_all(self) -> (r: PduLoop)
        requires
            self@.wf(),
        ensures
            r@ == (PduLoopState {
                exiting: true,
                sender_woken: true,
                ..self@.pdu_loop.cleared()
            }),
    {
        let mut pdu_loop = self.pdu_loop;
        pdu_loop.reset_all();
        // Wake the sender so that it notices that it is to stop.
        pdu_loop.wake_sender();
        pdu_loop
    }
}

/// The SubDevice at a position is written the address 0x1000 and its position, in two bytes, to
/// 0x0010. What is sent reaches it there: the position and the address sent add up to zero.
pub proof fn law_addressing(position: u16)
    ensures
        ({
            let p = addressing(position);
            &&& p.command matches Command::Apwr { address, register }
            &&& (address + position) % 0x1_0000 == 0
            &&& register == 0x0010
            &&& p.data.len() == 2
            &&& p.data[0] + 256 * p.data[1] == (0x1000 + position) % 0x1_0000
            &&& p.len_override is None
        }),
{
    command::law_position_counts_up_to_zero(position, 0x0010, position);
}

/// As many SubDevices are given addresses as there are, each once and in the order of their
/// positions, and the callback is told the position and the address.
pub proof fn law_everyone_is_addressed(count: u16, i: int)
    ensures
        addressing_plan(count).len() == count,
        addressing_positions(count).len() == count,
        addressing_addresses(count).len() == count,
        0 <= i < count ==> {
            &&& addressing_plan(count)[i] == addressing(i as u16)
            &&& addressing_positions(count)[i] == i
            &&& addressing_addresses(count)[i] == (0x1000 + i) % 0x1_0000
        },
{
}

/// The properties of a SubDevice are read from it alone, two bytes each: what it supports, the
/// address it gives itself, and the state of its ports.
pub proof fn law_properties(address: u16, i: int)
    ensures
        properties_plan(address).len() == 3,
        0 <= i < 3 ==> {
            let p = properties_plan(address)[i];
            &&& p.command matches Command::Fprd { address: asked, register }
            &&& asked == address
            &&& register == if i == 0 {
                0x0008int
            } else if i == 1 {
                0x0012
            } else {
                0x0110
            }
            &&& p.data.len() == 0
            &&& p.len_override == Some(2u16)
        },
{
}

/// The number of SubDevices that take part in distributed clocks is that of those in the list that
/// do.
pub proof fn law_dc_count(list: Seq<SubDevice>)
    ensures
        dc_count(list) == list.filter(|d: SubDevice| d.dc_support !is Unsupported).len(),
    decreases list.len(),
{
    reveal(Seq::filter);
    if list.len() > 0 {
        law_dc_count(list.drop_last());
    }
}

/// Every SubDevice that takes part in distributed clocks is read twice, after those before it in
/// the list and before those after it: eight bytes from 0x0918 on, and then sixteen from 0x0900 on.
/// Both times the number that goes with the frame is the place of that very SubDevice in the whole
/// list. No other SubDevice is read.
pub proof fn law_latched_times_go_with_their_subdevice(list: Seq<SubDevice>, place: int)
    ensures
        latch_plan(list).len() == 2 * dc_count(list),
        latch_ids(list).len() == 2 * dc_count(list),
        0 <= place < list.len() <= usize::MAX && list[place].dc_support !is Unsupported ==> {
            let k = 2 * dc_count(list.take(place)) as int;
            &&& k + 1 < latch_plan(list).len()
            &&& latch_ids(list)[k] == place % 0x1_0000
            &&& latch_ids(list)[k + 1] == place % 0x1_0000
            &&& latch_plan(list)[k].command == (Command::Fprd {
                address: list[place].configured_address,
                register: 0x0918,
            })
            &&& latch_plan(list)[k].data.len() == 0
            &&& latch_plan(list)[k].len_override == Some(8u16)
            &&& latch_plan(list)[k + 1].command == (Command::Fprd {
                address: list[place].configured_address,
                register: 0x0900,
            })
            &&& latch_plan(list)[k + 1].data.len() == 0
            &&& latch_plan(list)[k + 1].len_override == Some(16u16)
        },
    decreases list.len(),
{
    lemma_latch_len(list);
    if 0 <= place < list.len() <= usize::MAX && list[place].dc_support !is Unsupported {
        let earlier = list.drop_last();
        lemma_latch_len(earlier);
        if place < list.len() - 1 {
            law_latched_times_go_with_their_subdevice(earlier, place);
            assert(earlier.take(place) =~= list.take(place));
        } else {
            assert(list.take(place) =~= earlier);
            let n = place as u16;
            assert(n as int == place % 0x1_0000) by {
                lemma_truncated(place);
            }
        }
    }
}

proof fn lemma_truncated(x: int)
    requires
        0 <= x <= usize::MAX,
    ensures
        (x as u16) as int == x % 0x1_0000,
{
    let u = x as usize;
    assert(u as u16 == u % 0x1_0000) by (bit_vector);
}

/// Each number that goes with a frame is the place in the list of a SubDevice that takes part in
/// distributed clocks, and the frame reads that SubDevice. Two frames in turn read each of them,
/// and the places go up.
pub proof fn law_frames_read_the_subdevice_at_their_place(list: Seq<SubDevice>, k: int)
    requires
        list.len() <= 0x1_0000,
        0 <= k < latch_plan(list).len(),
    ensures
        ({
            let place = latch_ids(list)[k] as int;
            &&& latch_ids(list).len() == latch_plan(list).len()
            &&& 0 <= place < list.len()
            &&& list[place].dc_support !is Unsupported
            &&& latch_plan(list)[k].command matches Command::Fprd { address, .. }
            &&& address == list[place].configured_address
            &&& k % 2 == 1 ==> latch_ids(list)[k - 1] == place
            &&& k >= 2 ==> latch_ids(list)[k - 2] < place
        }),
    decreases list.len(),
{
    let earlier = list.drop_last();
    lemma_latch_len(list);
    lemma_latch_len(earlier);
    if list.len() > 0 {
        let n = latch_plan(earlier).len();
        if k < n {
            law_frames_read_the_subdevice_at_their_place(earlier, k);
        } else if k >= 2 && k - 2 < n {
            law_frames_read_the_subdevice_at_their_place(earlier, k - 2);
        }
    }
}

/// What preparing a PDU says is what the slots say, claimed for sending, and nothing else of the
/// main device changes.
pub proof fn law_preparing_goes_by_the_slots(before: MainDeviceState, pdu: PduView)
    ensures
        ({
            let (slots, r) = before.pdu_loop.prepare(pdu, FrameState::Sending);
            &&& before.after_prep(pdu).pdu_loop == slots
            &&& before.after_prep(pdu).num_subdevices == before.num_subdevices
            &&& before.after_prep(pdu).dc_reference == before.dc_reference
            &&& before.after_prep(pdu).timeouts == before.timeouts
            &&& before.after_prep(pdu).config == before.config
            &&& match before.prep(pdu) {
                Ok(Some(prepared)) => r is Ok && r->Ok_0 == prepared,
                Ok(None) => false,
                Err(e) => r is Err && r->Err_0 == e,
            }
        }),
{
}

/// What the fields of a main device that everyone can see hold is what is said of it.
proof fn law_public_fields(d: MainDevice)
    ensures
        d@.dc_reference == d.dc_reference_configured_address,
        d@.config == d.config,
{
}

} // verus!
