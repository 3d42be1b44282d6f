//! Initialising a network.
//!
//! SubDevices are counted and reset, given their addresses, and loaded; the distributed clocks are
//! set up; each SubDevice is assigned to a group, and each group taken to `PRE-OP`. All of it that
//! is a decision is here. What takes the network, or belongs to the caller, is an [`InitAction`]:
//! the caller performs it and hands the outcome back as an [`InitEvent`].

use crate::collections;
use crate::collections::{GroupMap, GroupRef, SubDeviceQueue};
use crate::command::{Command, Pdu, PduView};
use crate::error::{Error, Item};
use crate::maindevice;
use crate::maindevice::{address_pdu, MainDevice, MainDeviceState};
use crate::pdu_loop::{ReceivedPdu, ReceivedPduView};
use crate::register::RegisterAddress;
use crate::reset;
use crate::reset::{reset_step, RESET_STEPS};
use crate::subdevice;
use crate::subdevice::{configured_address, AlControl, SubDevice, SubDeviceState};
use crate::wait;
use crate::wait::{WaitAction, WaitActionView, WaitEvent, WaitEventView, WaitForState};
use vstd::prelude::*;

verus! {

/// A place in the process data image.
#[derive(Clone, Copy, Debug, PartialEq, Eq, Structural)]
pub struct PdiOffset {
    /// The byte.
    pub start_address: u32,
    /// The bit of the byte.
    pub start_bit: u8,
}

impl PdiOffset {
    /// Where the process data image starts.
    pub open spec fn origin() -> PdiOffset {
        PdiOffset { start_address: 0, start_bit: 0 }
    }
}

/// How far an initialisation has come.
#[derive(Clone, Copy, Debug)]
pub enum InitPhase {
    /// Nothing has been done yet.
    Idle,
    /// The SubDevices are being counted.
    Counting,
    /// The SubDevices are being reset.
    Resetting {
        /// Which step of the reset has been taken.
        step: usize,
    },
    /// The SubDevices are being given their addresses.
    Addressing {
        /// The position of the SubDevice that has been given its address.
        position: u16,
    },
    /// The SubDevices are being loaded.
    Loading {
        /// The position of the SubDevice that is being loaded.
        position: u16,
    },
    /// The distributed clocks are being configured.
    ConfiguringDc,
    /// The drift of the distributed clocks is being levelled out.
    Syncing,
    /// A SubDevice is being assigned to a group.
    Assigning,
    /// A group is being taken to `PRE-OP`.
    EnteringPreOp {
        /// Which of the groups.
        next: usize,
    },
    /// The SubDevices are on their way to `PRE-OP`.
    Waiting(WaitForState),
    /// The initialisation is over.
    Finished(Result<(), Error>),
}

/// An initialisation of a network that has room for `N` SubDevices. `N` must be a power of two
/// greater than one; for any other the crate does not compile.
pub struct InitSequence<const N: usize> {
    phase: InitPhase,
    counted: u16,
    subdevices: SubDeviceQueue<N>,
    groups: GroupMap<N>,
    order: Vec<GroupRef>,
}

/// What there is to say of an [`InitSequence`].
#[verifier::ext_equal]
pub struct InitState {
    /// How far it has come.
    pub phase: InitPhase,
    /// How many SubDevices were counted.
    pub counted: u16,
    /// The SubDevices that were loaded and are not assigned to a group yet.
    pub subdevices: Seq<SubDevice>,
    /// The groups that SubDevices were assigned to, in the order in which each was first used.
    pub groups: Seq<GroupRef>,
    /// The groups in the order in which they are taken to `PRE-OP`.
    pub order: Seq<GroupRef>,
}

impl<const N: usize> View for InitSequence<N> {
    type V = InitState;

    closed spec fn view(&self) -> InitState {
        InitState {
            phase: self.phase,
            counted: self.counted,
            subdevices: self.subdevices.items(),
            groups: self.groups.groups(),
            order: self.order@,
        }
    }
}

/// What has happened since the last step.
#[derive(Debug)]
pub enum InitEvent {
    /// The initialisation begins.
    Begin,
    /// The PDU was answered, or was not.
    Reply(Result<ReceivedPdu, Error>),
    /// The SubDevice was loaded, or was not.
    Loaded(Result<SubDevice, Error>),
    /// The distributed clocks were configured, or were not. If a SubDevice takes part in them, the
    /// reference is given.
    DcConfigured(Result<Option<SubDevice>, Error>),
    /// The drift was levelled out, or was not.
    Synced(Result<(), Error>),
    /// The SubDevice was assigned to a group, or belongs to none.
    Assigned(Result<GroupRef, Error>),
    /// The group was taken to `PRE-OP`, or was not. The place after its process data is given.
    PreOpEntered(Result<PdiOffset, Error>),
    /// The pause is over.
    Ticked,
    /// The wait for `PRE-OP` has taken too long.
    TimedOut,
}

/// What an [`InitEvent`] says.
pub enum InitEventView {
    /// The initialisation begins.
    Begin,
    /// The PDU was answered, or was not.
    Reply(Result<ReceivedPduView, Error>),
    /// The SubDevice was loaded, or was not.
    Loaded(Result<SubDevice, Error>),
    /// The distributed clocks were configured, or were not.
    DcConfigured(Result<Option<SubDevice>, Error>),
    /// The drift was levelled out, or was not.
    Synced(Result<(), Error>),
    /// The SubDevice was assigned to a group, or belongs to none.
    Assigned(Result<GroupRef, Error>),
    /// The group was taken to `PRE-OP`, or was not.
    PreOpEntered(Result<PdiOffset, Error>),
    /// The pause is over.
    Ticked,
    /// The wait for `PRE-OP` has taken too long.
    TimedOut,
}

impl View for InitEvent {
    type V = InitEventView;

    open spec fn view(&self) -> InitEventView {
        match *self {
            InitEvent::Begin => InitEventView::Begin,
            InitEvent::Reply(reply) => InitEventView::Reply(wait::reply_view(reply)),
            InitEvent::Loaded(r) => InitEventView::Loaded(r),
            InitEvent::DcConfigured(r) => InitEventView::DcConfigured(r),
            InitEvent::Synced(r) => InitEventView::Synced(r),
            InitEvent::Assigned(r) => InitEventView::Assigned(r),
            InitEvent::PreOpEntered(r) => InitEventView::PreOpEntered(r),
            InitEvent::Ticked => InitEventView::Ticked,
            InitEvent::TimedOut => InitEventView::TimedOut,
        }
    }
}

/// What is to be done next.
#[derive(Debug)]
pub enum InitAction {
    /// Send a PDU, and give its answer as an [`InitEvent::Reply`].
    Transfer(Pdu),
    /// Load a SubDevice, and give it as an [`InitEvent::Loaded`].
    Load {
        /// The position of the SubDevice in the network.
        index: u16,
        /// The address it was given.
        configured_address: u16,
    },
    /// Configure the distributed clocks of the SubDevices in [`InitSequence::subdevices_mut`], and
    /// give the reference as an [`InitEvent::DcConfigured`].
    ConfigureDc,
    /// Send the system time of the reference round, and give an [`InitEvent::Synced`].
    StaticSync {
        /// The distributed clocks reference.
        reference: SubDevice,
        /// How often.
        iterations: u32,
    },
    /// Find the group of a SubDevice and put it there, and give the group as an
    /// [`InitEvent::Assigned`].
    Assign(SubDevice),
    /// Take a group to `PRE-OP`, with its process data from `offset` on, and give the place after
    /// it as an [`InitEvent::PreOpEntered`].
    IntoPreOp {
        /// The group.
        group: GroupRef,
        /// Where its process data goes.
        offset: PdiOffset,
    },
    /// Pause, and then give an [`InitEvent::Ticked`].
    Sleep,
    /// Nothing more: the initialisation is over.
    Finish(Result<(), Error>),
}

/// What an [`InitAction`] says.
#[verifier::ext_equal]
pub enum InitActionView {
    /// Send a PDU.
    Transfer(PduView),
    /// Load a SubDevice.
    Load {
        /// The position of the SubDevice in the network.
        index: u16,
        /// The address it was given.
        configured_address: u16,
    },
    /// Configure the distributed clocks.
    ConfigureDc,
    /// Send the system time of the reference round.
    StaticSync {
        /// The distributed clocks reference.
        reference: SubDevice,
        /// How often.
        iterations: u32,
    },
    /// Find the group of a SubDevice and put it there.
    Assign(SubDevice),
    /// Take a group to `PRE-OP`.
    IntoPreOp {
        /// The group.
        group: GroupRef,
        /// Where its process data goes.
        offset: PdiOffset,
    },
    /// Pause.
    Sleep,
    /// The initialisation is over.
    Finish(Result<(), Error>),
}

impl View for InitAction {
    type V = InitActionView;

    open spec fn view(&self) -> InitActionView {
        match *self {
            InitAction::Transfer(pdu) => InitActionView::Transfer(pdu@),
            InitAction::Load { index, configured_address } => InitActionView::Load {
                index,
                configured_address,
            },
            InitAction::ConfigureDc => InitActionView::ConfigureDc,
            InitAction::StaticSync { reference, iterations } => InitActionView::StaticSync {
                reference,
                iterations,
            },
            InitAction::Assign(subdevice) => InitActionView::Assign(subdevice),
            InitAction::IntoPreOp { group, offset } => InitActionView::IntoPreOp { group, offset },
            InitAction::Sleep => InitActionView::Sleep,
            InitAction::Finish(r) => InitActionView::Finish(r),
        }
    }
}

/// What a step of an initialisation leads to.
#[verifier::ext_equal]
pub struct InitStep {
    /// The main device after the step.
    pub device: MainDeviceState,
    /// The initialisation after the step.
    pub state: InitState,
    /// What is to be done next.
    pub action: InitActionView,
}

/// Counts the SubDevices: each one counts the working counter up.
pub open spec fn count_read() -> PduView {
    PduView::blank(Command::Brd { register: RegisterAddress::Type.at() }, 1)
}

/// The groups once a SubDevice has been assigned to one of them.
pub open spec fn with_group(groups: Seq<GroupRef>, group: GroupRef) -> Seq<GroupRef> {
    match collections::place_of(groups, group.id) {
        Some(at) => groups.update(at, group),
        None => groups.push(group),
    }
}

impl InitState {
    /// The initialisation at its beginning.
    pub open spec fn begun() -> InitState {
        InitState {
            phase: InitPhase::Idle,
            counted: 0,
            subdevices: Seq::empty(),
            groups: Seq::empty(),
            order: Seq::empty(),
        }
    }

    /// Whether an event can happen now.
    pub open spec fn expects(self, event: InitEventView) -> bool {
        match self.phase {
            InitPhase::Idle => event is Begin,
            InitPhase::Counting => event is Reply,
            InitPhase::Resetting { .. } => event is Reply,
            InitPhase::Addressing { .. } => event is Reply,
            InitPhase::Loading { .. } => event is Loaded,
            InitPhase::ConfiguringDc => event is DcConfigured,
            InitPhase::Syncing => event is Synced,
            InitPhase::Assigning => event is Assigned,
            InitPhase::EnteringPreOp { .. } => event is PreOpEntered,
            InitPhase::Waiting(w) => match wait_event(event) {
                Some(e) => w.expects(e),
                None => false,
            },
            InitPhase::Finished(_) => false,
        }
    }

    /// A SubDevice reports an error, but there are more SubDevices than there are addresses from
    /// the base address on.
    pub open spec fn beyond_addresses(self, event: InitEventView) -> bool {
        match (self.phase, wait_event(event)) {
            (InitPhase::Waiting(w), Some(e)) => w.beyond_addresses(e),
            _ => false,
        }
    }

    /// The step into a phase that calls for an action.
    pub open spec fn go(
        self,
        device: MainDeviceState,
        phase: InitPhase,
        action: InitActionView,
    ) -> InitStep {
        InitStep { device, state: InitState { phase, ..self }, action }
    }

    /// The step that ends the initialisation.
    pub open spec fn end(self, device: MainDeviceState, r: Result<(), Error>) -> InitStep {
        self.go(device, InitPhase::Finished(r), InitActionView::Finish(r))
    }

    /// The step that gives the SubDevice at a position its address.
    pub open spec fn address(self, device: MainDeviceState, position: u16) -> InitStep {
        self.go(
            device,
            InitPhase::Addressing { position },
            InitActionView::Transfer(maindevice::addressing(position)),
        )
    }

    /// The step that loads the SubDevice at a position.
    pub open spec fn load(self, device: MainDeviceState, position: u16) -> InitStep {
        self.go(
            device,
            InitPhase::Loading { position },
            InitActionView::Load {
                index: position,
                configured_address: subdevice::configured_address_of(position),
            },
        )
    }

    /// The step that follows an answer in a wait for `PRE-OP`.
    pub open spec fn wait(
        self,
        device: MainDeviceState,
        next: (WaitForState, WaitActionView),
    ) -> InitStep {
        match next.1 {
            WaitActionView::Finish(r) => self.end(device, r),
            WaitActionView::Transfer(pdu) => self.go(
                device,
                InitPhase::Waiting(next.0),
                InitActionView::Transfer(pdu),
            ),
            WaitActionView::Sleep => self.go(
                device,
                InitPhase::Waiting(next.0),
                InitActionView::Sleep,
            ),
        }
    }

    /// The step that begins the wait for `PRE-OP`.
    pub open spec fn begin_wait(self, device: MainDeviceState) -> InitStep {
        let w = WaitForState::begun(SubDeviceState::PreOp, device.num_subdevices);
        self.wait(device, w.next(WaitEventView::Begin))
    }

    /// The step that takes a group to `PRE-OP`, or begins the wait where there is none left.
    pub open spec fn enter_pre_op(
        self,
        device: MainDeviceState,
        next: int,
        offset: PdiOffset,
    ) -> InitStep {
        if next < self.order.len() {
            self.go(
                device,
                InitPhase::EnteringPreOp { next: next as usize },
                InitActionView::IntoPreOp { group: self.order[next], offset },
            )
        } else {
            self.begin_wait(device)
        }
    }

    /// The step that assigns the next SubDevice to a group. Where there is none left, the groups
    /// are taken to `PRE-OP`, the one whose first use came last going first.
    pub open spec fn assign(self, device: MainDeviceState) -> InitStep {
        if self.subdevices.len() > 0 {
            InitState { subdevices: self.subdevices.skip(1), ..self }.go(
                device,
                InitPhase::Assigning,
                InitActionView::Assign(self.subdevices[0]),
            )
        } else {
            InitState {
                groups: Seq::empty(),
                order: self.groups.reverse(),
                ..self
            }.enter_pre_op(device, 0, PdiOffset::origin())
        }
    }

    /// What an event leads to, with room for `capacity` SubDevices.
    pub open spec fn next(
        self,
        capacity: nat,
        device: MainDeviceState,
        event: InitEventView,
    ) -> InitStep {
        match (self.phase, event) {
            (InitPhase::Idle, InitEventView::Begin) => self.go(
                device,
                InitPhase::Counting,
                InitActionView::Transfer(count_read()),
            ),
            (InitPhase::Counting, InitEventView::Reply(Ok(pdu))) => {
                let counted = InitState { counted: pdu.working_counter, ..self };
                if pdu.working_counter == 0 {
                    counted.end(
                        MainDeviceState { num_subdevices: 0, dc_reference: 0, ..device },
                        Ok(()),
                    )
                } else {
                    counted.go(
                        device,
                        InitPhase::Resetting { step: 0 },
                        InitActionView::Transfer(reset::reset_plan()[0]),
                    )
                }
            },
            (InitPhase::Resetting { step }, InitEventView::Reply(Ok(_))) => if step + 1
                < RESET_STEPS {
                self.go(
                    device,
                    InitPhase::Resetting { step: (step + 1) as usize },
                    InitActionView::Transfer(reset::reset_plan()[step + 1]),
                )
            } else {
                self.address(MainDeviceState { num_subdevices: self.counted, ..device }, 0)
            },
            (InitPhase::Addressing { position }, InitEventView::Reply(Ok(pdu))) => {
                match pdu.counted(Some(1)) {
                    Err(e) => self.end(device, Err(e)),
                    Ok(_) => if position + 1 < self.counted {
                        self.address(device, (position + 1) as u16)
                    } else {
                        self.load(device, 0)
                    },
                }
            },
            (InitPhase::Loading { position }, InitEventView::Loaded(Ok(subdevice))) => {
                if self.subdevices.len() >= capacity {
                    self.end(device, Err(Error::Capacity(Item::SubDevice)))
                } else {
                    let loaded = InitState { subdevices: self.subdevices.push(subdevice), ..self };
                    if position + 1 < self.counted {
                        loaded.load(device, (position + 1) as u16)
                    } else {
                        loaded.go(device, InitPhase::ConfiguringDc, InitActionView::ConfigureDc)
                    }
                }
            },
            (InitPhase::ConfiguringDc, InitEventView::DcConfigured(Ok(reference))) => {
                match reference {
                    Some(reference) => self.go(
                        MainDeviceState { dc_reference: reference.configured_address, ..device },
                        InitPhase::Syncing,
                        InitActionView::StaticSync {
                            reference,
                            iterations: device.config.dc_static_sync_iterations,
                        },
                    ),
                    None => self.assign(MainDeviceState { dc_reference: 0, ..device }),
                }
            },
            (InitPhase::Syncing, InitEventView::Synced(Ok(_))) => self.assign(device),
            (InitPhase::Assigning, InitEventView::Assigned(Ok(group))) => {
                if collections::place_of(self.groups, group.id) is None && self.groups.len()
                    >= capacity {
                    self.end(device, Err(Error::Capacity(Item::Group)))
                } else {
                    InitState { groups: with_group(self.groups, group), ..self }.assign(device)
                }
            },
            (InitPhase::EnteringPreOp { next }, InitEventView::PreOpEntered(Ok(offset))) => {
                self.enter_pre_op(device, next + 1, offset)
            },
            (InitPhase::Waiting(w), _) => self.wait(device, w.next(wait_event(event)->Some_0)),
            (_, InitEventView::Reply(Err(e))) => self.end(device, Err(e)),
            (_, InitEventView::Loaded(Err(e))) => self.end(device, Err(e)),
            (_, InitEventView::DcConfigured(Err(e))) => self.end(device, Err(e)),
            (_, InitEventView::Synced(Err(e))) => self.end(device, Err(e)),
            (_, InitEventView::Assigned(Err(e))) => self.end(device, Err(e)),
            (_, InitEventView::PreOpEntered(Err(e))) => self.end(device, Err(e)),
            _ => self.end(device, Err(Error::Internal)),
        }
    }

    /// No two groups have the same number, there are no more SubDevices than there is room for, and
    /// what is counted off in a phase agrees with the lists. Once it is known how many SubDevices
    /// there are, the main device knows it too.
    pub open spec fn wf(self, capacity: nat, device: MainDeviceState) -> bool {
        &&& distinct(self.groups)
        &&& self.subdevices.len() <= capacity
        &&& match self.phase {
            InitPhase::Idle => self == InitState::begun(),
            InitPhase::Counting => self.subdevices.len() == 0 && self.groups.len() == 0,
            InitPhase::Resetting { step } => {
                &&& step < RESET_STEPS
                &&& self.counted > 0
                &&& self.subdevices.len() == 0
                &&& self.groups.len() == 0
            },
            InitPhase::Addressing { position } => {
                &&& position < self.counted == device.num_subdevices
                &&& self.subdevices.len() == 0
                &&& self.groups.len() == 0
            },
            InitPhase::Loading { position } => {
                &&& position < self.counted == device.num_subdevices
                &&& self.subdevices.len() == position
                &&& self.groups.len() == 0
            },
            InitPhase::ConfiguringDc | InitPhase::Syncing => {
                &&& self.subdevices.len() == self.counted == device.num_subdevices
                &&& self.counted > 0
                &&& self.groups.len() == 0
            },
            InitPhase::Assigning => {
                &&& self.groups.len() + self.subdevices.len() < self.counted <= capacity
                &&& self.counted == device.num_subdevices
            },
            InitPhase::EnteringPreOp { next } => {
                &&& next < self.order.len() <= self.counted
                &&& distinct(self.order)
                &&& 0 < self.counted == device.num_subdevices
            },
            InitPhase::Waiting(w) => {
                &&& w.wf()
                &&& w.desired_state is PreOp
                &&& w.num_subdevices == self.counted == device.num_subdevices
                &&& 0 < self.counted
            },
            InitPhase::Finished(r) => r is Ok ==> self.counted == device.num_subdevices,
        }
    }
}

/// Whether SubDevices may have been assigned to groups.
pub open spec fn late(phase: InitPhase) -> bool {
    phase is Assigning || phase is EnteringPreOp || phase is Waiting || phase is Finished
}

/// No two groups have the same number.
pub open spec fn distinct(groups: Seq<GroupRef>) -> bool {
    forall|i: int, j: int|
        0 <= i < j < groups.len() ==> (#[trigger] groups[i]).id != (#[trigger] groups[j]).id
}

/// The events that the wait for `PRE-OP` goes by.
pub open spec fn wait_event(event: InitEventView) -> Option<WaitEventView> {
    match event {
        InitEventView::Reply(reply) => Some(WaitEventView::Reply(reply)),
        InitEventView::Ticked => Some(WaitEventView::Ticked),
        InitEventView::TimedOut => Some(WaitEventView::TimedOut),
        _ => None,
    }
}

impl<const N: usize> InitSequence<N> {
    /// The initialisation is in order, and no SubDevice has left the queue before all are loaded.
    pub closed spec fn wf(&self, device: MainDeviceState) -> bool {
        &&& self@.wf(N as nat, device)
        &&& late(self.phase) || self.subdevices.front() == 0
    }

    fn new(device: &MainDevice) -> (r: InitSequence<N>)
        ensures
            r@ == InitState::begun(),
            r.wf(device@),
    {
        let r = InitSequence {
            phase: InitPhase::Idle,
            counted: 0,
            subdevices: SubDeviceQueue::new(),
            groups: GroupMap::new(),
            order: Vec::new(),
        };
        assert(r@ =~= InitState::begun());
        r
    }

    /// How far the initialisation has come.
    pub fn phase(&self) -> (r: InitPhase)
        ensures
            r == self@.phase,
    {
        self.phase
    }

    /// The SubDevices that were loaded, while the distributed clocks are being configured.
    pub fn subdevices_mut(&mut self, device: &MainDevice) -> (r: &mut [SubDevice])
        requires
            old(self).wf(device@),
            old(self)@.phase is ConfiguringDc,
        ensures
            r@ == old(self)@.subdevices,
            final(self)@ == (InitState { subdevices: final(r)@, ..old(self)@ }),
            final(self).wf(device@),
    {
        let ghost before = *self;
        let r = self.subdevices.first_slice_mut();
        assert(r@ =~= before@.subdevices);
        r
    }

    /// Whether a SubDevice reports an error while there are more SubDevices than there are
    /// addresses from the base address on. [`InitSequence::step`] must not be called then.
    pub fn is_beyond_addresses(&self, event: &InitEvent) -> (r: bool)
        ensures
            r == self@.beyond_addresses(event@),
    {
        match (&self.phase, event) {
            (InitPhase::Waiting(w), InitEvent::Reply(reply)) => w.status_is_beyond_addresses(reply),
            _ => false,
        }
    }

    fn end(&mut self, r: Result<(), Error>) -> (action: InitAction)
        ensures
            final(self)@ == (InitState { phase: InitPhase::Finished(r), ..old(self)@ }),
            action@ == InitActionView::Finish(r),
    {
        self.phase = InitPhase::Finished(r);
        InitAction::Finish(r)
    }

    fn address(&mut self, position: u16) -> (action: InitAction)
        ensures
            final(self)@ == (InitState {
                phase: InitPhase::Addressing { position },
                ..old(self)@
            }),
            action@ == InitActionView::Transfer(maindevice::addressing(position)),
            final(self).subdevices == old(self).subdevices,
    {
        self.phase = InitPhase::Addressing { position };
        InitAction::Transfer(address_pdu(position))
    }

    fn load(&mut self, position: u16) -> (action: InitAction)
        ensures
            final(self)@ == (InitState { phase: InitPhase::Loading { position }, ..old(self)@ }),
            action@ == (InitActionView::Load {
                index: position,
                configured_address: subdevice::configured_address_of(position),
            }),
            final(self).subdevices == old(self).subdevices,
    {
        self.phase = InitPhase::Loading { position };
        InitAction::Load { index: position, configured_address: configured_address(position) }
    }

    fn wait(&mut self, wait: WaitForState, event: WaitEvent, device: &MainDevice) -> (action:
        InitAction)
        requires
            wait.wf(),
            wait.expects(event@),
            !wait.beyond_addresses(event@),
        ensures
            (InitStep { device: device@, state: final(self)@, action: action@ }) == old(self)@.wait(
                device@,
                wait.next(event@),
            ),
            late(final(self)@.phase),
    {
        let mut wait = wait;
        match wait.step(event) {
            WaitAction::Finish(r) => self.end(r),
            WaitAction::Transfer(pdu) => {
                self.phase = InitPhase::Waiting(wait);
                InitAction::Transfer(pdu)
            },
            WaitAction::Sleep => {
                self.phase = InitPhase::Waiting(wait);
                InitAction::Sleep
            },
        }
    }

    fn enter_pre_op(&mut self, next: usize, offset: PdiOffset, device: &MainDevice) -> (action:
        InitAction)
        requires
            next <= old(self)@.order.len(),
        ensures
            (InitStep { device: device@, state: final(self)@, action: action@ }) == old(
                self,
            )@.enter_pre_op(device@, next as int, offset),
            late(final(self)@.phase),
    {
        if next < self.order.len() {
            self.phase = InitPhase::EnteringPreOp { next };
            InitAction::IntoPreOp { group: self.order[next], offset }
        } else {
            self.wait(device.wait_for_state(SubDeviceState::PreOp), WaitEvent::Begin, device)
        }
    }

    fn assign(&mut self, device: &MainDevice) -> (action: InitAction)
        ensures
            (InitStep { device: device@, state: final(self)@, action: action@ }) == old(
                self,
            )@.assign(device@),
            late(final(self)@.phase),
    {
        match self.subdevices.pop_front() {
            Some(subdevice) => {
                self.phase = InitPhase::Assigning;
                InitAction::Assign(subdevice)
            },
            None => {
                let mut groups = GroupMap::new();
                std::mem::swap(&mut groups, &mut self.groups);
                self.order = groups.into_groups();
                self.enter_pre_op(0, PdiOffset { start_address: 0, start_bit: 0 }, device)
            },
        }
    }

    /// Takes the next step.
    #[verifier::rlimit(40)]
    pub fn step(&mut self, device: &mut MainDevice, event: InitEvent) -> (action: InitAction)
        requires
            old(self).wf(old(device)@),
            old(self)@.expects(event@),
            !old(self)@.beyond_addresses(event@),
        ensures
            (InitStep { device: final(device)@, state: final(self)@, action: action@ }) == old(
                self,
            )@.next(N as nat, old(device)@, event@),
            final(self).wf(final(device)@),
    {
        proof {
            law_init_stays_in_order(self@, N as nat, device@, event@);
        }
        match (self.phase, event) {
            (InitPhase::Waiting(w), InitEvent::Reply(reply)) => self.wait(
                w,
                WaitEvent::Reply(reply),
                device,
            ),
            (InitPhase::Waiting(w), InitEvent::Ticked) => self.wait(w, WaitEvent::Ticked, device),
            (InitPhase::Waiting(w), InitEvent::TimedOut) => self.wait(
                w,
                WaitEvent::TimedOut,
                device,
            ),
            (_, InitEvent::Reply(Err(e))) => self.end(Err(e)),
            (_, InitEvent::Loaded(Err(e))) => self.end(Err(e)),
            (_, InitEvent::DcConfigured(Err(e))) => self.end(Err(e)),
            (_, InitEvent::Synced(Err(e))) => self.end(Err(e)),
            (_, InitEvent::Assigned(Err(e))) => self.end(Err(e)),
            (_, InitEvent::PreOpEntered(Err(e))) => self.end(Err(e)),
            (InitPhase::Counting, InitEvent::Reply(Ok(pdu))) => {
                self.counted = pdu.working_counter;
                if pdu.working_counter == 0 {
                    device.set_num_subdevices(0);
                    device.set_dc_reference(0);
                    return self.end(Ok(()));
                }
                self.phase = InitPhase::Resetting { step: 0 };
                InitAction::Transfer(reset_step(0))
            },
            (InitPhase::Resetting { step }, InitEvent::Reply(Ok(_))) => {
                if step + 1 < RESET_STEPS {
                    self.phase = InitPhase::Resetting { step: step + 1 };
                    return InitAction::Transfer(reset_step(step + 1));
                }
                device.set_num_subdevices(self.counted);
                self.address(0)
            },
            (InitPhase::Addressing { position }, InitEvent::Reply(Ok(pdu))) => {
                match pdu.maybe_wkc(Some(1)) {
                    Err(e) => self.end(Err(e)),
                    Ok(_) => {
                        if position + 1 < self.counted {
                            self.address(position + 1)
                        } else {
                            self.load(0)
                        }
                    },
                }
            },
            (InitPhase::Loading { position }, InitEvent::Loaded(Ok(subdevice))) => {
                match self.subdevices.push_back(subdevice) {
                    Err(_) => self.end(Err(Error::Capacity(Item::SubDevice))),
                    Ok(_) => {
                        if position + 1 < self.counted {
                            self.load(position + 1)
                        } else {
                            self.phase = InitPhase::ConfiguringDc;
                            InitAction::ConfigureDc
                        }
                    },
                }
            },
            (InitPhase::ConfiguringDc, InitEvent::DcConfigured(Ok(reference))) => {
                match reference {
                    Some(reference) => {
                        device.set_dc_reference(reference.configured_address());
                        self.phase = InitPhase::Syncing;
                        InitAction::StaticSync {
                            reference,
                            iterations: device.config().dc_static_sync_iterations,
                        }
                    },
                    None => {
                        device.set_dc_reference(0);
                        self.assign(device)
                    },
                }
            },
            (InitPhase::Syncing, InitEvent::Synced(Ok(_))) => self.assign(device),
            (InitPhase::Assigning, InitEvent::Assigned(Ok(group))) => {
                match self.groups.insert(group.id, group.handle) {
                    Err(_) => self.end(Err(Error::Capacity(Item::Group))),
                    Ok(_) => self.assign(device),
                }
            },
            (InitPhase::EnteringPreOp { next }, InitEvent::PreOpEntered(Ok(offset))) => {
                let groups: usize = self.order.len();
                assert(next < groups);
                self.enter_pre_op(next + 1, offset, device)
            },
            _ => {
                self.phase = InitPhase::Counting;
                InitAction::Transfer(Pdu::blank(Command::brd(RegisterAddress::Type.into()), 1))
            },
        }
    }
}

impl MainDevice {
    /// Detect SubDevices, set their configured station addresses, assign them to groups, and take
    /// the groups to `PRE-OP`.
    ///
    /// There is room for `MAX_SUBDEVICES` SubDevices, which must be a power of two greater than
    /// one.
    pub fn init<const MAX_SUBDEVICES: usize>(&self) -> (r: InitSequence<MAX_SUBDEVICES>)
        ensures
            r@ == InitState::begun(),
            r.wf(self@),
    {
        InitSequence::new(self)
    }
}

proof fn lemma_place_of(groups: Seq<GroupRef>, id: usize)
    ensures
        match collections::place_of(groups, id) {
            Some(at) => 0 <= at < groups.len() && groups[at].id == id,
            None => forall|i: int| 0 <= i < groups.len() ==> (#[trigger] groups[i]).id != id,
        },
    decreases groups.len(),
{
    if groups.len() > 0 && groups.last().id != id {
        lemma_place_of(groups.drop_last(), id);
        assert(forall|i: int|
            0 <= i < groups.len() - 1 ==> #[trigger] groups[i] == groups.drop_last()[i]);
    }
}

/// Once a SubDevice has been assigned to a group, the group is in the list, each other group still
/// is, and no number is in the list twice.
pub proof fn law_groups_stay_distinct(groups: Seq<GroupRef>, group: GroupRef)
    requires
        distinct(groups),
    ensures
        distinct(with_group(groups, group)),
        with_group(groups, group).contains(group),
        forall|g: GroupRef|
            groups.contains(g) && g.id != group.id ==> with_group(groups, group).contains(g),
        groups.len() <= with_group(groups, group).len() <= groups.len() + 1,
{
    lemma_place_of(groups, group.id);
    let after = with_group(groups, group);
    match collections::place_of(groups, group.id) {
        Some(at) => {
            assert(after[at] == group);
        },
        None => {
            assert(after[groups.len() as int] == group);
        },
    }
    assert forall|g: GroupRef| groups.contains(g) && g.id != group.id implies after.contains(g) by {
        let i = choose|i: int| 0 <= i < groups.len() && groups[i] == g;
        assert(after[i] == g);
    }
}

/// An initialisation that is in order stays in order, whatever happens.
#[verifier::rlimit(40)]
pub proof fn law_init_stays_in_order(
    s: InitState,
    capacity: nat,
    device: MainDeviceState,
    event: InitEventView,
)
    requires
        s.wf(capacity, device),
        s.expects(event),
        !s.beyond_addresses(event),
    ensures
        ({
            let step = s.next(capacity, device, event);
            step.state.wf(capacity, step.device)
        }),
{
    if let InitEventView::Assigned(Ok(group)) = event {
        law_groups_stay_distinct(s.groups, group);
    }
    assert(distinct(s.groups.reverse()));
}

/// An initialisation that is in order with a main device stays so while PDUs are sent and received
/// through the main device.
pub proof fn law_init_is_untouched_by_transfers<const N: usize>(
    sequence: InitSequence<N>,
    before: MainDeviceState,
    after: MainDeviceState,
)
    requires
        sequence.wf(before),
        after == (MainDeviceState { pdu_loop: after.pdu_loop, ..before }),
    ensures
        sequence.wf(after),
{
}

/// An initialisation ends well only where there is no SubDevice, or where the last answer says that
/// all SubDevices are in `PRE-OP` and none of them has an error. Either way the main device then
/// knows how many there are.
pub proof fn law_init_ends_well_only_in_pre_op(
    s: InitState,
    capacity: nat,
    device: MainDeviceState,
    event: InitEventView,
)
    requires
        s.wf(capacity, device),
        s.expects(event),
        !s.beyond_addresses(event),
        s.next(capacity, device, event).action == InitActionView::Finish(Ok(())),
    ensures
        ({
            let step = s.next(capacity, device, event);
            event matches InitEventView::Reply(Ok(pdu)) && {
                &&& pdu.working_counter == step.device.num_subdevices == step.state.counted
                &&& step.device.num_subdevices == 0 ==> step.device.dc_reference == 0
                &&& step.device.num_subdevices != 0 ==> {
                    &&& AlControl::unpacked(pdu.data) matches Ok(status)
                    &&& status.state is PreOp
                    &&& !status.error
                }
            }
        }),
{
}

/// The address of the distributed clocks reference is that of the SubDevice which was made the
/// reference, and is zero where none was.
pub proof fn law_dc_reference_is_recorded(
    s: InitState,
    capacity: nat,
    device: MainDeviceState,
    reference: Option<SubDevice>,
)
    requires
        s.wf(capacity, device),
        s.phase is ConfiguringDc,
    ensures
        s.next(capacity, device, InitEventView::DcConfigured(Ok(reference))).device.dc_reference
            == match reference {
            Some(reference) => reference.configured_address,
            None => 0,
        },
{
}

/// A SubDevice is refused exactly where as many as there is room for have been loaded before it.
pub proof fn law_room_for_subdevices(
    s: InitState,
    capacity: nat,
    device: MainDeviceState,
    subdevice: SubDevice,
)
    requires
        s.wf(capacity, device),
        s.phase is Loading,
    ensures
        s.next(capacity, device, InitEventView::Loaded(Ok(subdevice))).action
            == InitActionView::Finish(Err(Error::Capacity(Item::SubDevice)))
            <==> s.phase->Loading_position == capacity,
{
}

/// There is always room for a group: there are no more groups than SubDevices.
pub proof fn law_groups_always_fit(
    s: InitState,
    capacity: nat,
    device: MainDeviceState,
    group: GroupRef,
)
    requires
        s.wf(capacity, device),
        s.phase is Assigning,
    ensures
        s.next(capacity, device, InitEventView::Assigned(Ok(group))).action
            != InitActionView::Finish(Err(Error::Capacity(Item::Group))),
{
}

/// The groups lie one after the other in the process data image: the first one starts at its
/// beginning, and each further one where the one before it ended.
pub proof fn law_groups_are_laid_out_consecutively(
    s: InitState,
    device: MainDeviceState,
    capacity: nat,
    end: PdiOffset,
)
    requires
        s.wf(capacity, device),
    ensures
        s.subdevices.len() == 0 && s.groups.len() > 0 ==> s.assign(device).action == (
        InitActionView::IntoPreOp { group: s.groups.last(), offset: PdiOffset::origin() }),
        s.phase matches InitPhase::EnteringPreOp { next } ==> next + 1 < s.order.len() ==> s.next(
            capacity,
            device,
            InitEventView::PreOpEntered(Ok(end)),
        ).action == (InitActionView::IntoPreOp { group: s.order[next + 1], offset: end }),
{
}

/// The initialisation as it goes on from a step. While the distributed clocks are being configured,
/// the SubDevices are changed: they are then what `tuned` says.
pub open spec fn resumed(s: InitState, tuned: Seq<SubDevice>) -> InitState {
    if s.phase is ConfiguringDc {
        InitState { subdevices: tuned, ..s }
    } else {
        s
    }
}

/// A run of an initialisation: what the events since its beginning have led to. The first of the
/// events is that it begins. The configuration of the distributed clocks leaves the SubDevices as
/// `tuned` says.
pub open spec fn init_run(
    capacity: nat,
    device: MainDeviceState,
    tuned: Seq<SubDevice>,
    events: Seq<InitEventView>,
) -> InitStep
    recommends
        events.len() > 0,
    decreases events.len(),
{
    if events.len() <= 1 {
        InitState::begun().next(capacity, device, InitEventView::Begin)
    } else {
        let before = init_run(capacity, device, tuned, events.drop_last());
        resumed(before.state, tuned).next(capacity, before.device, events.last())
    }
}

/// Whether the events of a run can happen in that order, and as many SubDevices come out of the
/// configuration of the distributed clocks as went into it.
pub open spec fn init_possible(
    capacity: nat,
    device: MainDeviceState,
    tuned: Seq<SubDevice>,
    events: Seq<InitEventView>,
) -> bool
    decreases events.len(),
{
    if events.len() <= 1 {
        events.len() == 1 && events[0] is Begin
    } else {
        let before = init_run(capacity, device, tuned, events.drop_last());
        &&& init_possible(capacity, device, tuned, events.drop_last())
        &&& before.state.phase is ConfiguringDc ==> tuned.len() == before.state.subdevices.len()
        &&& before.state.expects(events.last())
        &&& !before.state.beyond_addresses(events.last())
    }
}

/// Every run of an initialisation is in order.
pub proof fn law_init_runs_in_order(
    capacity: nat,
    device: MainDeviceState,
    tuned: Seq<SubDevice>,
    events: Seq<InitEventView>,
)
    requires
        init_possible(capacity, device, tuned, events),
    ensures
        init_run(capacity, device, tuned, events).state.wf(
            capacity,
            init_run(capacity, device, tuned, events).device,
        ),
    decreases events.len(),
{
    if events.len() > 1 {
        law_init_runs_in_order(capacity, device, tuned, events.drop_last());
        let before = init_run(capacity, device, tuned, events.drop_last());
        let s = resumed(before.state, tuned);
        law_init_stays_in_order(s, capacity, before.device, events.last());
    } else {
        law_init_stays_in_order(InitState::begun(), capacity, device, InitEventView::Begin);
    }
}

/// The PDUs that were sent in a run, in the order in which they were.
pub open spec fn sent_in(
    capacity: nat,
    device: MainDeviceState,
    tuned: Seq<SubDevice>,
    events: Seq<InitEventView>,
) -> Seq<PduView>
    decreases events.len(),
{
    if events.len() == 0 {
        Seq::empty()
    } else {
        let earlier = sent_in(capacity, device, tuned, events.drop_last());
        match init_run(capacity, device, tuned, events).action {
            InitActionView::Transfer(pdu) => earlier.push(pdu),
            _ => earlier,
        }
    }
}

/// The PDUs that count the SubDevices and reset them.
pub open spec fn count_and_reset() -> Seq<PduView> {
    seq![count_read()] + reset::reset_plan()
}

/// What has been sent so far is what the phase calls for.
spec fn sends_in_order(s: InitState, sent: Seq<PduView>) -> bool {
    match s.phase {
        InitPhase::Idle => sent.len() == 0,
        InitPhase::Counting => sent == seq![count_read()],
        InitPhase::Resetting { step } => sent == count_and_reset().take(step + 2),
        InitPhase::Addressing { position } => sent == count_and_reset()
            + maindevice::addressing_plan(s.counted).take(position + 1),
        InitPhase::Waiting(_) | InitPhase::Finished(_) => true,
        _ => sent == count_and_reset() + maindevice::addressing_plan(s.counted),
    }
}

proof fn lemma_sends_step(
    s: InitState,
    capacity: nat,
    device: MainDeviceState,
    event: InitEventView,
    sent: Seq<PduView>,
)
    requires
        s.wf(capacity, device),
        s.expects(event),
        !s.beyond_addresses(event),
        sends_in_order(s, sent),
    ensures
        ({
            let step = s.next(capacity, device, event);
            let after = match step.action {
                InitActionView::Transfer(pdu) => sent.push(pdu),
                _ => sent,
            };
            sends_in_order(step.state, after)
        }),
{
    reset::law_reset_plan_len();
    let plan = count_and_reset();
    let addresses = maindevice::addressing_plan(s.counted);
    match s.phase {
        InitPhase::Idle => {
            assert(sent.push(count_read()) =~= seq![count_read()]);
        },
        InitPhase::Counting => {
            assert(sent.push(reset::reset_plan()[0]) =~= plan.take(2));
        },
        InitPhase::Resetting { step } => {
            if step + 1 < RESET_STEPS {
                assert(plan.take(step + 2).push(reset::reset_plan()[step + 1]) =~= plan.take(
                    step + 3,
                ));
            } else {
                assert(plan.take(step + 2) =~= plan);
                assert(plan.push(addresses[0]) =~= plan + addresses.take(1));
            }
        },
        InitPhase::Addressing { position } => {
            if position + 1 < s.counted {
                assert((plan + addresses.take(position + 1)).push(addresses[position + 1]) =~= plan
                    + addresses.take(position + 2));
            } else {
                assert(addresses.take(position + 1) =~= addresses);
            }
        },
        _ => {},
    }
}

proof fn lemma_run_sends_in_order(
    capacity: nat,
    device: MainDeviceState,
    tuned: Seq<SubDevice>,
    events: Seq<InitEventView>,
)
    requires
        init_possible(capacity, device, tuned, events),
    ensures
        sends_in_order(
            init_run(capacity, device, tuned, events).state,
            sent_in(capacity, device, tuned, events),
        ),
    decreases events.len(),
{
    let earlier = events.drop_last();
    let sent = sent_in(capacity, device, tuned, earlier);
    if events.len() > 1 {
        let before = init_run(capacity, device, tuned, earlier);
        let s = resumed(before.state, tuned);
        law_init_runs_in_order(capacity, device, tuned, earlier);
        lemma_run_sends_in_order(capacity, device, tuned, earlier);
        lemma_sends_step(s, capacity, before.device, events.last(), sent);
    } else {
        assert(sent =~= Seq::<PduView>::empty());
        assert(sent.push(count_read()) =~= seq![count_read()]);
    }
}

/// The first SubDevice is given its address once the SubDevices have been counted and every step of
/// the reset has been sent, in order; the others follow by their positions.
pub proof fn law_reset_is_complete_before_addressing(
    capacity: nat,
    device: MainDeviceState,
    tuned: Seq<SubDevice>,
    events: Seq<InitEventView>,
    position: u16,
)
    requires
        init_possible(capacity, device, tuned, events),
        init_run(capacity, device, tuned, events).state.phase == (InitPhase::Addressing {
            position,
        }),
    ensures
        sent_in(capacity, device, tuned, events) == count_and_reset()
            + maindevice::addressing_plan(
            init_run(capacity, device, tuned, events).state.counted,
        ).take(position + 1),
{
    lemma_run_sends_in_order(capacity, device, tuned, events);
}

/// No SubDevice is loaded before every SubDevice has been sent its address. A SubDevice that was
/// switched on with an address of its own could otherwise answer in the place of another one.
pub proof fn law_all_addresses_are_set_before_loading(
    capacity: nat,
    device: MainDeviceState,
    tuned: Seq<SubDevice>,
    events: Seq<InitEventView>,
)
    requires
        init_possible(capacity, device, tuned, events),
        init_run(capacity, device, tuned, events).state.phase is Loading,
    ensures
        sent_in(capacity, device, tuned, events) == count_and_reset()
            + maindevice::addressing_plan(init_run(capacity, device, tuned, events).state.counted),
{
    lemma_run_sends_in_order(capacity, device, tuned, events);
}

/// The SubDevices that were handed out in a run to be assigned to groups, in the order in which
/// they were.
pub open spec fn assigned_in(
    capacity: nat,
    device: MainDeviceState,
    tuned: Seq<SubDevice>,
    events: Seq<InitEventView>,
) -> Seq<SubDevice>
    decreases events.len(),
{
    if events.len() == 0 {
        Seq::empty()
    } else {
        let earlier = assigned_in(capacity, device, tuned, events.drop_last());
        match init_run(capacity, device, tuned, events).action {
            InitActionView::Assign(subdevice) => earlier.push(subdevice),
            _ => earlier,
        }
    }
}

/// The groups that were taken to `PRE-OP` in a run, in the order in which they were.
pub open spec fn entered_in(
    capacity: nat,
    device: MainDeviceState,
    tuned: Seq<SubDevice>,
    events: Seq<InitEventView>,
) -> Seq<GroupRef>
    decreases events.len(),
{
    if events.len() == 0 {
        Seq::empty()
    } else {
        let earlier = entered_in(capacity, device, tuned, events.drop_last());
        match init_run(capacity, device, tuned, events).action {
            InitActionView::IntoPreOp { group, .. } => earlier.push(group),
            _ => earlier,
        }
    }
}

/// The groups that SubDevices were assigned to, in the order in which each was first used.
pub open spec fn used_in(events: Seq<InitEventView>) -> Seq<GroupRef>
    decreases events.len(),
{
    if events.len() == 0 {
        Seq::empty()
    } else {
        let earlier = used_in(events.drop_last());
        match events.last() {
            InitEventView::Assigned(Ok(group)) => with_group(earlier, group),
            _ => earlier,
        }
    }
}

/// Whether a group number is in a list of groups.
pub open spec fn is_listed(groups: Seq<GroupRef>, id: usize) -> bool {
    exists|k: int| 0 <= k < groups.len() && (#[trigger] groups[k]).id == id
}

/// The distributed clocks reference that was found, if one was.
pub open spec fn reference_in(events: Seq<InitEventView>) -> Option<SubDevice>
    decreases events.len(),
{
    if events.len() == 0 {
        None
    } else {
        match events.last() {
            InitEventView::DcConfigured(Ok(reference)) => reference,
            _ => reference_in(events.drop_last()),
        }
    }
}

/// What has been handed out so far agrees with what is left in the queue.
spec fn assigns_in_order(
    s: InitState,
    tuned: Seq<SubDevice>,
    assigned: Seq<SubDevice>,
) -> bool {
    match s.phase {
        InitPhase::Syncing => s.subdevices == tuned && assigned.len() == 0,
        InitPhase::Assigning => assigned + s.subdevices == tuned,
        InitPhase::EnteringPreOp { .. } | InitPhase::Waiting(_) => assigned == tuned,
        InitPhase::Finished(Ok(_)) => if s.counted == 0 {
            assigned.len() == 0
        } else {
            assigned == tuned
        },
        InitPhase::Finished(Err(_)) => true,
        _ => assigned.len() == 0,
    }
}

/// The groups that have been entered so far are the first of those that are to be.
spec fn enters_in_order(s: InitState, used: Seq<GroupRef>, entered: Seq<GroupRef>) -> bool {
    match s.phase {
        InitPhase::Assigning => s.groups == used && entered.len() == 0,
        InitPhase::EnteringPreOp { next } => {
            &&& s.order == used.reverse()
            &&& entered == s.order.take(next + 1)
        },
        InitPhase::Waiting(_) => entered == used.reverse(),
        InitPhase::Finished(Ok(_)) => entered == used.reverse(),
        InitPhase::Finished(Err(_)) => true,
        _ => used.len() == 0 && entered.len() == 0,
    }
}

/// What the main device has recorded as the reference is what was found.
spec fn records_reference(s: InitState, device: MainDeviceState, found: Option<SubDevice>) -> bool {
    let recorded = device.dc_reference == match found {
        Some(reference) => reference.configured_address,
        None => 0,
    };
    match s.phase {
        InitPhase::Finished(Err(_)) => true,
        InitPhase::Syncing | InitPhase::Assigning | InitPhase::EnteringPreOp { .. } => recorded,
        InitPhase::Waiting(_) | InitPhase::Finished(Ok(_)) => recorded,
        _ => found is None,
    }
}

proof fn lemma_assigns_step(
    s: InitState,
    capacity: nat,
    device: MainDeviceState,
    tuned: Seq<SubDevice>,
    event: InitEventView,
    assigned: Seq<SubDevice>,
)
    requires
        s.wf(capacity, device),
        s.expects(event),
        !s.beyond_addresses(event),
        s.phase is ConfiguringDc ==> s.subdevices == tuned,
        assigns_in_order(s, tuned, assigned),
    ensures
        ({
            let step = s.next(capacity, device, event);
            let after = match step.action {
                InitActionView::Assign(subdevice) => assigned.push(subdevice),
                _ => assigned,
            };
            assigns_in_order(step.state, tuned, after)
        }),
{
    if s.subdevices.len() > 0 {
        assert(assigned.push(s.subdevices[0]) + s.subdevices.skip(1) =~= assigned + s.subdevices);
        assert(Seq::<SubDevice>::empty() + s.subdevices =~= s.subdevices);
        if assigned.len() == 0 {
            assert(assigned =~= Seq::<SubDevice>::empty());
        }
    } else {
        assert(assigned + s.subdevices =~= assigned);
    }
}

proof fn lemma_enters_step(
    s: InitState,
    capacity: nat,
    device: MainDeviceState,
    event: InitEventView,
    used: Seq<GroupRef>,
    entered: Seq<GroupRef>,
)
    requires
        s.wf(capacity, device),
        s.expects(event),
        !s.beyond_addresses(event),
        enters_in_order(s, used, entered),
    ensures
        ({
            let step = s.next(capacity, device, event);
            let used_after = match event {
                InitEventView::Assigned(Ok(group)) => with_group(used, group),
                _ => used,
            };
            let entered_after = match step.action {
                InitActionView::IntoPreOp { group, .. } => entered.push(group),
                _ => entered,
            };
            enters_in_order(step.state, used_after, entered_after)
        }),
{
    let step = s.next(capacity, device, event);
    assert(Seq::<GroupRef>::empty().reverse() =~= Seq::<GroupRef>::empty());
    if used.len() == 0 {
        assert(used =~= Seq::<GroupRef>::empty());
        assert(s.groups.len() == 0 ==> s.groups =~= used);
    }
    if entered.len() == 0 {
        assert(entered =~= Seq::<GroupRef>::empty());
    }
    match (s.phase, step.action) {
        (InitPhase::EnteringPreOp { next }, InitActionView::IntoPreOp { group, .. }) => {
            assert(s.order.take(next + 1).push(group) =~= s.order.take(next + 2));
        },
        (_, InitActionView::IntoPreOp { group, .. }) => {
            assert(Seq::<GroupRef>::empty().push(group) =~= step.state.order.take(1));
        },
        (InitPhase::EnteringPreOp { next }, _) => {
            if next + 1 == s.order.len() {
                assert(s.order.take(next + 1) =~= s.order);
            }
        },
        _ => {},
    }
}

proof fn lemma_reference_step(
    s: InitState,
    capacity: nat,
    device: MainDeviceState,
    event: InitEventView,
    found: Option<SubDevice>,
)
    requires
        s.wf(capacity, device),
        s.expects(event),
        !s.beyond_addresses(event),
        records_reference(s, device, found),
    ensures
        ({
            let step = s.next(capacity, device, event);
            let found_after = match event {
                InitEventView::DcConfigured(Ok(reference)) => reference,
                _ => found,
            };
            records_reference(step.state, step.device, found_after)
        }),
{
}

proof fn lemma_run_in_order(
    capacity: nat,
    device: MainDeviceState,
    tuned: Seq<SubDevice>,
    events: Seq<InitEventView>,
)
    requires
        init_possible(capacity, device, tuned, events),
    ensures
        ({
            let now = init_run(capacity, device, tuned, events);
            let assigned = assigned_in(capacity, device, tuned, events);
            let entered = entered_in(capacity, device, tuned, events);
            &&& assigns_in_order(now.state, tuned, assigned)
            &&& enters_in_order(now.state, used_in(events), entered)
            &&& records_reference(now.state, now.device, reference_in(events))
        }),
    decreases events.len(),
{
    let earlier = events.drop_last();
    if events.len() > 1 {
        let before = init_run(capacity, device, tuned, earlier);
        let s = resumed(before.state, tuned);
        let event = events.last();
        let assigned = assigned_in(capacity, device, tuned, earlier);
        let entered = entered_in(capacity, device, tuned, earlier);
        law_init_runs_in_order(capacity, device, tuned, earlier);
        lemma_run_in_order(capacity, device, tuned, earlier);
        lemma_assigns_step(s, capacity, before.device, tuned, event, assigned);
        lemma_enters_step(s, capacity, before.device, event, used_in(earlier), entered);
        lemma_reference_step(s, capacity, before.device, event, reference_in(earlier));
    } else {
        assert(assigned_in(capacity, device, tuned, earlier).len() == 0);
        assert(entered_in(capacity, device, tuned, earlier).len() == 0);
        assert(used_in(earlier).len() == 0);
        assert(reference_in(earlier) is None);
        assert(events.last() is Begin);
    }
}

/// In a run that ends well, every SubDevice has been handed out exactly once to be assigned to a
/// group: in the order of the network, and as the configuration of the distributed clocks has left
/// it.
pub proof fn law_every_subdevice_is_assigned_once(
    capacity: nat,
    device: MainDeviceState,
    tuned: Seq<SubDevice>,
    events: Seq<InitEventView>,
)
    requires
        init_possible(capacity, device, tuned, events),
        init_run(capacity, device, tuned, events).state.phase matches InitPhase::Finished(Ok(_)),
    ensures
        assigned_in(capacity, device, tuned, events) == if init_run(
            capacity,
            device,
            tuned,
            events,
        ).state.counted == 0 {
            Seq::empty()
        } else {
            tuned
        },
{
    lemma_run_in_order(capacity, device, tuned, events);
}

/// In a run that ends well, every group that a SubDevice was assigned to has been taken to `PRE-OP`
/// exactly once, and no other group has been: the one whose first use came last went first.
pub proof fn law_every_group_enters_pre_op_once(
    capacity: nat,
    device: MainDeviceState,
    tuned: Seq<SubDevice>,
    events: Seq<InitEventView>,
)
    requires
        init_possible(capacity, device, tuned, events),
        init_run(capacity, device, tuned, events).state.phase matches InitPhase::Finished(Ok(_)),
    ensures
        entered_in(capacity, device, tuned, events) == used_in(events).reverse(),
        distinct(entered_in(capacity, device, tuned, events)),
        forall|i: int|
            0 <= i < events.len() ==> (#[trigger] events[i] matches InitEventView::Assigned(
                Ok(group),
            ) ==> is_listed(used_in(events), group.id)),
{
    lemma_run_in_order(capacity, device, tuned, events);
    lemma_used(events);
    let used = used_in(events);
    let entered = entered_in(capacity, device, tuned, events);
    assert forall|i: int, j: int| 0 <= i < j < entered.len() implies (#[trigger] entered[i]).id != (
    #[trigger] entered[j]).id by {
        assert(entered[i] == used[used.len() - 1 - i]);
        assert(entered[j] == used[used.len() - 1 - j]);
    }
}

proof fn lemma_used(events: Seq<InitEventView>)
    ensures
        distinct(used_in(events)),
        forall|i: int|
            0 <= i < events.len() ==> (#[trigger] events[i] matches InitEventView::Assigned(
                Ok(group),
            ) ==> is_listed(used_in(events), group.id)),
    decreases events.len(),
{
    if events.len() > 0 {
        let earlier = events.drop_last();
        let before = used_in(earlier);
        let used = used_in(events);
        lemma_used(earlier);
        if let InitEventView::Assigned(Ok(last)) = events.last() {
            law_groups_stay_distinct(before, last);
        }
        assert forall|i: int| 0 <= i < events.len() implies (#[trigger] events[i] matches
            InitEventView::Assigned(Ok(group)) ==> is_listed(used, group.id)) by {
            if let InitEventView::Assigned(Ok(group)) = events[i] {
                if i < earlier.len() {
                    assert(earlier[i] == events[i]);
                    lemma_stays_listed(before, events.last(), group.id);
                } else {
                    let m = choose|m: int| 0 <= m < used.len() && used[m] == group;
                    assert(used[m].id == group.id);
                }
            }
        }
    }
}

proof fn lemma_stays_listed(groups: Seq<GroupRef>, event: InitEventView, id: usize)
    requires
        distinct(groups),
        is_listed(groups, id),
    ensures
        event matches InitEventView::Assigned(Ok(group)) ==> is_listed(
            with_group(groups, group),
            id,
        ),
{
    if let InitEventView::Assigned(Ok(group)) = event {
        law_groups_stay_distinct(groups, group);
        let after = with_group(groups, group);
        let k = choose|k: int| 0 <= k < groups.len() && (#[trigger] groups[k]).id == id;
        assert(groups.contains(groups[k]));
        if group.id == id {
            let m = choose|m: int| 0 <= m < after.len() && after[m] == group;
            assert(after[m].id == id);
        } else {
            let m = choose|m: int| 0 <= m < after.len() && after[m] == groups[k];
            assert(after[m].id == id);
        }
    }
}

/// In a run that ends well, the main device knows the distributed clocks reference that was found:
/// its configured address, or zero where there is none.
pub proof fn law_run_records_the_dc_reference(
    capacity: nat,
    device: MainDeviceState,
    tuned: Seq<SubDevice>,
    events: Seq<InitEventView>,
)
    requires
        init_possible(capacity, device, tuned, events),
        init_run(capacity, device, tuned, events).state.phase matches InitPhase::Finished(Ok(_)),
    ensures
        init_run(capacity, device, tuned, events).device.dc_reference == match reference_in(
            events,
        ) {
            Some(reference) => reference.configured_address,
            None => 0,
        },
{
    lemma_run_in_order(capacity, device, tuned, events);
}

/// Whether no group but one has been used.
spec fn is_single(s: InitState, id: usize) -> bool {
    match s.phase {
        InitPhase::Assigning => s.groups.len() == 0 || s.groups.len() == 1 && s.groups[0].id == id,
        InitPhase::EnteringPreOp { .. } | InitPhase::Waiting(_) => {
            &&& s.order.len() == 1
            &&& s.order[0].id == id
        },
        _ => true,
    }
}

/// Where every SubDevice is assigned to one and the same group, that group alone is taken to
/// `PRE-OP`.
pub proof fn law_single_group(
    capacity: nat,
    device: MainDeviceState,
    tuned: Seq<SubDevice>,
    events: Seq<InitEventView>,
    id: usize,
)
    requires
        init_possible(capacity, device, tuned, events),
        forall|i: int|
            0 <= i < events.len() ==> (#[trigger] events[i] matches InitEventView::Assigned(
                Ok(group),
            ) ==> group.id == id),
    ensures
        ({
            let s = init_run(capacity, device, tuned, events).state;
            s.phase is EnteringPreOp || s.phase is Waiting ==> s.order.len() == 1 && s.order[0].id
                == id
        }),
        init_run(capacity, device, tuned, events).action matches InitActionView::IntoPreOp {
            group,
            offset,
        } ==> group.id == id && offset == PdiOffset::origin(),
{
    lemma_single(capacity, device, tuned, events, id);
}

proof fn lemma_single(
    capacity: nat,
    device: MainDeviceState,
    tuned: Seq<SubDevice>,
    events: Seq<InitEventView>,
    id: usize,
)
    requires
        init_possible(capacity, device, tuned, events),
        forall|i: int|
            0 <= i < events.len() ==> (#[trigger] events[i] matches InitEventView::Assigned(
                Ok(group),
            ) ==> group.id == id),
    ensures
        is_single(init_run(capacity, device, tuned, events).state, id),
        init_run(capacity, device, tuned, events).action matches InitActionView::IntoPreOp {
            group,
            offset,
        } ==> group.id == id && offset == PdiOffset::origin(),
    decreases events.len(),
{
    if events.len() > 1 {
        let earlier = events.drop_last();
        let before = init_run(capacity, device, tuned, earlier);
        let s = resumed(before.state, tuned);
        let event = events.last();
        law_init_runs_in_order(capacity, device, tuned, earlier);
        assert forall|i: int| 0 <= i < earlier.len() implies (#[trigger] earlier[i] matches
            InitEventView::Assigned(Ok(group)) ==> group.id == id) by {
            assert(earlier[i] == events[i]);
        }
        lemma_single(capacity, device, tuned, earlier, id);
        assert(events[events.len() - 1] == event);
        if let InitEventView::Assigned(Ok(group)) = event {
            lemma_place_of(s.groups, group.id);
            let after = with_group(s.groups, group);
            assert(after.len() == 1 && after[0].id == id);
            assert(after.reverse()[0] == after[0]);
        }
    }
}

/// Counting is a read of one byte from the first register of every SubDevice. The process data
/// image starts at its first bit.
pub proof fn law_where_things_start()
    ensures
        count_read().command == (Command::Brd { register: 0 }),
        count_read().data.len() == 0,
        count_read().len_override == Some(1u16),
        PdiOffset::origin().start_address == 0,
        PdiOffset::origin().start_bit == 0,
        InitState::begun().phase is Idle,
        InitState::begun().counted == 0,
        InitState::begun().subdevices.len() == 0,
        InitState::begun().groups.len() == 0,
        InitState::begun().order.len() == 0,
{
}

/// An initialisation begins with counting. As many SubDevices are counted as have handled the read,
/// however many those are. Where there is none, the initialisation is over, and the main device
/// knows of no SubDevice and no reference; else the reset begins.
pub proof fn law_counting(
    s: InitState,
    capacity: nat,
    device: MainDeviceState,
    pdu: ReceivedPduView,
)
    ensures
        s.phase is Idle ==> {
            let step = s.next(capacity, device, InitEventView::Begin);
            &&& step.state == (InitState { phase: InitPhase::Counting, ..s })
            &&& step.device == device
            &&& step.action == InitActionView::Transfer(count_read())
        },
        s.phase is Counting ==> {
            let step = s.next(capacity, device, InitEventView::Reply(Ok(pdu)));
            &&& step.state.counted == pdu.working_counter
            &&& step.state.subdevices == s.subdevices
            &&& step.state.groups == s.groups
            &&& step.state.order == s.order
            &&& if pdu.working_counter == 0 {
                &&& step.action == InitActionView::Finish(Ok(()))
                &&& step.state.phase == InitPhase::Finished(Ok(()))
                &&& step.device == (MainDeviceState {
                    num_subdevices: 0,
                    dc_reference: 0,
                    ..device
                })
            } else {
                &&& step.action == InitActionView::Transfer(reset::reset_plan()[0])
                &&& step.state.phase == (InitPhase::Resetting { step: 0 })
                &&& step.device == device
            }
        },
{
}

/// Each step of the reset follows the one before it, however many SubDevices have handled that one.
/// After the last one the main device knows how many SubDevices were counted, and the first one is
/// given its address.
pub proof fn law_resetting(
    s: InitState,
    capacity: nat,
    device: MainDeviceState,
    pdu: ReceivedPduView,
    k: usize,
)
    requires
        s.phase == (InitPhase::Resetting { step: k }),
        k < 44,
    ensures
        ({
            let step = s.next(capacity, device, InitEventView::Reply(Ok(pdu)));
            if k < 43 {
                &&& step.state == (InitState {
                    phase: InitPhase::Resetting { step: (k + 1) as usize },
                    ..s
                })
                &&& step.device == device
                &&& step.action == InitActionView::Transfer(reset::reset_plan()[k + 1])
            } else {
                &&& step.state == (InitState { phase: InitPhase::Addressing { position: 0 }, ..s })
                &&& step.device == (MainDeviceState { num_subdevices: s.counted, ..device })
                &&& step.action == InitActionView::Transfer(maindevice::addressing(0))
            }
        }),
{
}

/// An address must have been taken by exactly one SubDevice. Then the SubDevice at the next
/// position is given its address, or, after the last one, the first SubDevice is loaded.
pub proof fn law_addressing_step(
    s: InitState,
    capacity: nat,
    device: MainDeviceState,
    pdu: ReceivedPduView,
    position: u16,
)
    requires
        s.phase == (InitPhase::Addressing { position }),
        position < s.counted,
    ensures
        ({
            let step = s.next(capacity, device, InitEventView::Reply(Ok(pdu)));
            &&& step.device == device
            &&& if pdu.working_counter != 1 {
                let e = Error::WorkingCounter { expected: 1, received: pdu.working_counter };
                &&& step.action == InitActionView::Finish(Err(e))
                &&& step.state == (InitState { phase: InitPhase::Finished(Err(e)), ..s })
            } else if position + 1 < s.counted {
                let next = (position + 1) as u16;
                &&& step.action == InitActionView::Transfer(maindevice::addressing(next))
                &&& step.state == (InitState {
                    phase: InitPhase::Addressing { position: next },
                    ..s
                })
            } else {
                &&& step.action == (InitActionView::Load { index: 0, configured_address: 0x1000 })
                &&& step.state == (InitState { phase: InitPhase::Loading { position: 0 }, ..s })
            }
        }),
{
}

/// A SubDevice that was loaded goes to the end of the list, if there is room; then the one at the
/// next position is loaded, by the address it was given, or, after the last one, the distributed
/// clocks are configured.
pub proof fn law_loading_step(
    s: InitState,
    capacity: nat,
    device: MainDeviceState,
    subdevice: SubDevice,
    position: u16,
)
    requires
        s.phase == (InitPhase::Loading { position }),
        position < s.counted,
    ensures
        ({
            let step = s.next(capacity, device, InitEventView::Loaded(Ok(subdevice)));
            &&& step.device == device
            &&& step.state.counted == s.counted
            &&& step.state.groups == s.groups
            &&& if s.subdevices.len() >= capacity {
                step.action == InitActionView::Finish(Err(Error::Capacity(Item::SubDevice)))
            } else {
                &&& step.state.subdevices == s.subdevices.push(subdevice)
                &&& if position + 1 < s.counted {
                    &&& step.state.phase == (InitPhase::Loading {
                        position: (position + 1) as u16,
                    })
                    &&& step.action matches InitActionView::Load { index, configured_address }
                    &&& index == position + 1
                    &&& configured_address == (0x1000 + position + 1) % 0x1_0000
                } else {
                    &&& step.state.phase is ConfiguringDc
                    &&& step.action is ConfigureDc
                }
            }
        }),
{
}

/// Whether the first SubDevice of the list is handed out to be assigned to a group, and has left
/// the list; or, where there is none left, the group that was used last is taken to `PRE-OP`, from
/// the start of the process data image on; or, where there is no group either, the wait begins.
pub open spec fn hands_out_next(s: InitState, step: InitStep) -> bool {
    if s.subdevices.len() > 0 {
        &&& step.action == InitActionView::Assign(s.subdevices[0])
        &&& step.state == (InitState {
            phase: InitPhase::Assigning,
            subdevices: s.subdevices.skip(1),
            ..s
        })
    } else if s.groups.len() > 0 {
        &&& step.action == (InitActionView::IntoPreOp {
            group: s.groups[s.groups.len() - 1],
            offset: PdiOffset { start_address: 0, start_bit: 0 },
        })
        &&& step.state.phase == (InitPhase::EnteringPreOp { next: 0 })
        &&& step.state.order == s.groups.reverse()
        &&& step.state.counted == s.counted
    } else {
        waits_for_everyone(s, step)
    }
}

/// Whether a wait for `PRE-OP` of as many SubDevices as the main device knows of begins.
pub open spec fn waits_for_everyone(s: InitState, step: InitStep) -> bool {
    &&& step.state.phase matches InitPhase::Waiting(w)
    &&& w.desired_state is PreOp
    &&& w.num_subdevices == step.device.num_subdevices
    &&& w.phase is Polling
    &&& step.state.counted == s.counted
    &&& step.action matches InitActionView::Transfer(pdu)
    &&& pdu.command == (Command::Brd { register: 0x0130 })
    &&& pdu.data.len() == 0
    &&& pdu.len_override == Some(2u16)
}

/// Once the distributed clocks are configured, the main device knows the address of the reference,
/// or zero where there is none. The drift to the reference is levelled out as often as the
/// configuration says, and after that, or at once where there is none, SubDevices are assigned to
/// groups.
pub proof fn law_dc_step(
    s: InitState,
    capacity: nat,
    device: MainDeviceState,
    reference: SubDevice,
)
    ensures
        s.phase is ConfiguringDc ==> {
            let found = s.next(capacity, device, InitEventView::DcConfigured(Ok(Some(reference))));
            let none = s.next(capacity, device, InitEventView::DcConfigured(Ok(None)));
            &&& found.device == (MainDeviceState {
                dc_reference: reference.configured_address,
                ..device
            })
            &&& found.state == (InitState { phase: InitPhase::Syncing, ..s })
            &&& found.action matches InitActionView::StaticSync { reference: by, iterations }
            &&& by == reference
            &&& iterations == device.config.dc_static_sync_iterations
            &&& none.device == (MainDeviceState { dc_reference: 0, ..device })
            &&& hands_out_next(s, none)
        },
        s.phase is Syncing ==> {
            let step = s.next(capacity, device, InitEventView::Synced(Ok(())));
            &&& step.device == device
            &&& hands_out_next(s, step)
        },
{
}

/// Once a SubDevice is assigned to a group, the group is in the list, if it was there or there is
/// room; and the next SubDevice is handed out.
pub proof fn law_assigning_step(
    s: InitState,
    capacity: nat,
    device: MainDeviceState,
    group: GroupRef,
)
    requires
        s.phase is Assigning,
    ensures
        ({
            let step = s.next(capacity, device, InitEventView::Assigned(Ok(group)));
            &&& step.device == device
            &&& if is_listed(s.groups, group.id) || s.groups.len() < capacity {
                hands_out_next(InitState { groups: with_group(s.groups, group), ..s }, step)
            } else {
                step.action == InitActionView::Finish(Err(Error::Capacity(Item::Group)))
            }
        }),
{
    lemma_place_of(s.groups, group.id);
    if let Some(at) = collections::place_of(s.groups, group.id) {
        assert(s.groups[at].id == group.id);
    }
}

/// The list of groups once a SubDevice is assigned to one of them: where the number of the group is
/// in the list, its handle is replaced there, and where it is not, the group goes to the end. All
/// else stays where it was.
pub proof fn law_group_list(groups: Seq<GroupRef>, group: GroupRef, i: int)
    requires
        distinct(groups),
    ensures
        0 <= i < groups.len() ==> with_group(groups, group)[i] == if groups[i].id == group.id {
            group
        } else {
            groups[i]
        },
        is_listed(groups, group.id) ==> with_group(groups, group).len() == groups.len(),
        !is_listed(groups, group.id) ==> with_group(groups, group).len() == groups.len() + 1
            && with_group(groups, group)[groups.len() as int] == group,
{
    lemma_place_of(groups, group.id);
    if let Some(at) = collections::place_of(groups, group.id) {
        assert(groups[at].id == group.id);
    }
}

/// Once a group is in `PRE-OP`, the next one of the order is taken there, with its process data
/// from the place on where that of the one before it ended; after the last one the wait begins.
pub proof fn law_pre_op_step(
    s: InitState,
    capacity: nat,
    device: MainDeviceState,
    end: PdiOffset,
    next: usize,
)
    requires
        s.wf(capacity, device),
        s.phase == (InitPhase::EnteringPreOp { next }),
    ensures
        ({
            let step = s.next(capacity, device, InitEventView::PreOpEntered(Ok(end)));
            &&& step.device == device
            &&& if next + 1 < s.order.len() {
                &&& step.action == (InitActionView::IntoPreOp {
                    group: s.order[next + 1],
                    offset: end,
                })
                &&& step.state == (InitState {
                    phase: InitPhase::EnteringPreOp { next: (next + 1) as usize },
                    ..s
                })
            } else {
                waits_for_everyone(s, step)
            }
        }),
{
}

/// While `PRE-OP` is waited for, what happens is what happens to the wait, and the initialisation
/// ends as the wait does.
pub proof fn law_waiting_step(
    s: InitState,
    capacity: nat,
    device: MainDeviceState,
    w: WaitForState,
    reply: Result<ReceivedPduView, Error>,
)
    requires
        s.phase == InitPhase::Waiting(w),
    ensures
        follows(
            s,
            device,
            s.next(capacity, device, InitEventView::Reply(reply)),
            w.next(WaitEventView::Reply(reply)),
        ),
        follows(
            s,
            device,
            s.next(capacity, device, InitEventView::Ticked),
            w.next(WaitEventView::Ticked),
        ),
        follows(
            s,
            device,
            s.next(capacity, device, InitEventView::TimedOut),
            w.next(WaitEventView::TimedOut),
        ),
{
}

/// Whether a step of an initialisation is a step of the wait at its end.
pub open spec fn follows(
    s: InitState,
    device: MainDeviceState,
    step: InitStep,
    waited: (WaitForState, WaitActionView),
) -> bool {
    &&& step.device == device
    &&& match waited.1 {
        WaitActionView::Finish(r) => {
            &&& step.action == InitActionView::Finish(r)
            &&& step.state == (InitState { phase: InitPhase::Finished(r), ..s })
        },
        WaitActionView::Transfer(pdu) => {
            &&& step.action == InitActionView::Transfer(pdu)
            &&& step.state == (InitState { phase: InitPhase::Waiting(waited.0), ..s })
        },
        WaitActionView::Sleep => {
            &&& step.action is Sleep
            &&& step.state == (InitState { phase: InitPhase::Waiting(waited.0), ..s })
        },
    }
}

/// Whatever fails before the wait, the initialisation ends with that very error, and the main
/// device stays as it was.
pub proof fn law_failure_ends_the_initialisation(
    s: InitState,
    capacity: nat,
    device: MainDeviceState,
    event: InitEventView,
    e: Error,
)
    requires
        s.expects(event),
        s.phase !is Waiting,
        ({
            ||| event == InitEventView::Reply(Err(e))
            ||| event == InitEventView::Loaded(Err(e))
            ||| event == InitEventView::DcConfigured(Err(e))
            ||| event == InitEventView::Synced(Err(e))
            ||| event == InitEventView::Assigned(Err(e))
            ||| event == InitEventView::PreOpEntered(Err(e))
        }),
    ensures
        s.next(capacity, device, event).action == InitActionView::Finish(Err(e)),
        s.next(capacity, device, event).state.phase == InitPhase::Finished(Err(e)),
        s.next(capacity, device, event).device == device,
{
}

/// In every run, as many SubDevices are counted as have handled the read that counts them, which is
/// answered by the second event. Once the reset is over, the main device knows that number, and
/// once SubDevices are loaded, exactly that many have been sent their addresses, the one for each
/// position after the other. In the end the wait is for that many.
pub proof fn law_everyone_who_answers_is_counted(
    capacity: nat,
    device: MainDeviceState,
    tuned: Seq<SubDevice>,
    events: Seq<InitEventView>,
    pdu: ReceivedPduView,
    position: int,
)
    requires
        init_possible(capacity, device, tuned, events),
        events.len() >= 2,
        events[1] == InitEventView::Reply(Ok(pdu)),
    ensures
        ({
            let now = init_run(capacity, device, tuned, events);
            let sent = sent_in(capacity, device, tuned, events);
            let phase = now.state.phase;
            &&& now.state.counted == pdu.working_counter
            &&& !(phase is Resetting || phase is Finished && phase->Finished_0 is Err)
                ==> now.device.num_subdevices == pdu.working_counter
            &&& phase is Loading || phase is ConfiguringDc || phase is Syncing || phase is Assigning
                || phase is EnteringPreOp ==> {
                &&& sent.len() == 1 + 44 + pdu.working_counter
                &&& 0 <= position < pdu.working_counter ==> sent[45 + position]
                    == maindevice::addressing(position as u16)
            }
            &&& phase matches InitPhase::Waiting(w) ==> w.num_subdevices == pdu.working_counter
                && w.desired_state is PreOp
        }),
{
    lemma_counted(capacity, device, tuned, events, pdu);
    law_init_runs_in_order(capacity, device, tuned, events);
    lemma_run_sends_in_order(capacity, device, tuned, events);
    reset::law_reset_plan_len();
}

proof fn lemma_counted(
    capacity: nat,
    device: MainDeviceState,
    tuned: Seq<SubDevice>,
    events: Seq<InitEventView>,
    pdu: ReceivedPduView,
)
    requires
        init_possible(capacity, device, tuned, events),
        events.len() >= 2,
        events[1] == InitEventView::Reply(Ok(pdu)),
    ensures
        init_run(capacity, device, tuned, events).state.counted == pdu.working_counter,
        init_run(capacity, device, tuned, events).state.phase !is Idle,
        init_run(capacity, device, tuned, events).state.phase !is Counting,
    decreases events.len(),
{
    let earlier = events.drop_last();
    let before = init_run(capacity, device, tuned, earlier);
    if events.len() > 2 {
        lemma_counted(capacity, device, tuned, earlier, pdu);
        lemma_count_stays(resumed(before.state, tuned), capacity, before.device, events.last());
    } else {
        assert(earlier.len() == 1);
        assert(before.state.phase is Counting);
        assert(events.last() == events[1]);
    }
}

proof fn lemma_count_stays(
    s: InitState,
    capacity: nat,
    device: MainDeviceState,
    event: InitEventView,
)
    requires
        s.expects(event),
        s.phase !is Idle,
        s.phase !is Counting,
    ensures
        s.next(capacity, device, event).state.counted == s.counted,
        s.next(capacity, device, event).state.phase !is Idle,
        s.next(capacity, device, event).state.phase !is Counting,
{
}

/// The SubDevices that were to be loaded in a run: their positions and their addresses.
pub open spec fn loads_in(
    capacity: nat,
    device: MainDeviceState,
    tuned: Seq<SubDevice>,
    events: Seq<InitEventView>,
) -> Seq<(u16, u16)>
    decreases events.len(),
{
    if events.len() == 0 {
        Seq::empty()
    } else {
        let earlier = loads_in(capacity, device, tuned, events.drop_last());
        match init_run(capacity, device, tuned, events).action {
            InitActionView::Load { index, configured_address } => earlier.push(
                (index, configured_address),
            ),
            _ => earlier,
        }
    }
}

/// The SubDevices that were loaded in a run.
pub open spec fn loaded_in(events: Seq<InitEventView>) -> Seq<SubDevice>
    decreases events.len(),
{
    if events.len() == 0 {
        Seq::empty()
    } else {
        let earlier = loaded_in(events.drop_last());
        match events.last() {
            InitEventView::Loaded(Ok(subdevice)) => earlier.push(subdevice),
            _ => earlier,
        }
    }
}

/// What has been loaded so far is what the phase calls for.
spec fn loads_in_order(s: InitState, loads: Seq<(u16, u16)>, loaded: Seq<SubDevice>) -> bool {
    &&& forall|k: int|
        0 <= k < loads.len() ==> (#[trigger] loads[k]).0 == k && loads[k].1 == (0x1000 + k)
            % 0x1_0000
    &&& match s.phase {
        InitPhase::Loading { position } => {
            &&& loads.len() == position + 1
            &&& s.subdevices == loaded
        },
        InitPhase::ConfiguringDc => {
            &&& loads.len() == s.counted
            &&& s.subdevices == loaded
        },
        InitPhase::Syncing | InitPhase::Assigning => loads.len() == s.counted,
        InitPhase::EnteringPreOp { .. } | InitPhase::Waiting(_) => loads.len() == s.counted,
        InitPhase::Finished(Ok(_)) => loads.len() == s.counted,
        InitPhase::Finished(Err(_)) => true,
        _ => loads.len() == 0 && loaded.len() == 0,
    }
}

proof fn lemma_loads_step(
    s: InitState,
    capacity: nat,
    device: MainDeviceState,
    event: InitEventView,
    loads: Seq<(u16, u16)>,
    loaded: Seq<SubDevice>,
)
    requires
        s.wf(capacity, device),
        s.expects(event),
        !s.beyond_addresses(event),
        loads_in_order(s, loads, loaded),
    ensures
        ({
            let step = s.next(capacity, device, event);
            let loads_after = match step.action {
                InitActionView::Load { index, configured_address } => loads.push(
                    (index, configured_address),
                ),
                _ => loads,
            };
            let loaded_after = match event {
                InitEventView::Loaded(Ok(subdevice)) => loaded.push(subdevice),
                _ => loaded,
            };
            loads_in_order(step.state, loads_after, loaded_after)
        }),
{
    if loaded.len() == 0 && s.subdevices.len() == 0 {
        assert(s.subdevices =~= loaded);
    }
}

proof fn lemma_run_loads_in_order(
    capacity: nat,
    device: MainDeviceState,
    tuned: Seq<SubDevice>,
    events: Seq<InitEventView>,
)
    requires
        init_possible(capacity, device, tuned, events),
    ensures
        loads_in_order(
            init_run(capacity, device, tuned, events).state,
            loads_in(capacity, device, tuned, events),
            loaded_in(events),
        ),
    decreases events.len(),
{
    let earlier = events.drop_last();
    let loads = loads_in(capacity, device, tuned, earlier);
    let loaded = loaded_in(earlier);
    if events.len() > 1 {
        let before = init_run(capacity, device, tuned, earlier);
        let s = resumed(before.state, tuned);
        law_init_runs_in_order(capacity, device, tuned, earlier);
        lemma_run_loads_in_order(capacity, device, tuned, earlier);
        if before.state.phase is ConfiguringDc {
            lemma_loads_step(before.state, capacity, before.device, events.last(), loads, loaded);
            lemma_tuning_is_not_loading(before.state, s, capacity, before.device, events.last());
        } else {
            lemma_loads_step(s, capacity, before.device, events.last(), loads, loaded);
        }
    } else {
        assert(loads.len() == 0);
        assert(loaded.len() == 0);
        assert(events.last() is Begin);
    }
}

proof fn lemma_tuning_is_not_loading(
    s: InitState,
    tuned: InitState,
    capacity: nat,
    device: MainDeviceState,
    event: InitEventView,
)
    requires
        s.phase is ConfiguringDc,
        s.expects(event),
        tuned == (InitState { subdevices: tuned.subdevices, ..s }),
        tuned.subdevices.len() == s.subdevices.len(),
        s.wf(capacity, device),
    ensures
        ({
            let a = s.next(capacity, device, event);
            let b = tuned.next(capacity, device, event);
            &&& a.state.phase == b.state.phase
            &&& a.state.counted == b.state.counted
            &&& a.state.phase !is ConfiguringDc
            &&& a.state.phase !is Loading
            &&& a.action !is Load
            &&& b.action !is Load
        }),
{
}

/// In every run the SubDevices are loaded one after the other by their positions, each by the
/// address it was given, and none is left out. When the distributed clocks are to be configured,
/// the list holds what was loaded, in that order.
pub proof fn law_everyone_is_loaded_once(
    capacity: nat,
    device: MainDeviceState,
    tuned: Seq<SubDevice>,
    events: Seq<InitEventView>,
    k: int,
)
    requires
        init_possible(capacity, device, tuned, events),
    ensures
        ({
            let s = init_run(capacity, device, tuned, events).state;
            let loads = loads_in(capacity, device, tuned, events);
            &&& 0 <= k < loads.len() ==> loads[k].0 == k && loads[k].1 == (0x1000 + k) % 0x1_0000
            &&& s.phase is ConfiguringDc ==> loads.len() == s.counted && s.subdevices == loaded_in(
                events,
            )
            &&& s.phase matches InitPhase::Finished(Ok(_)) ==> loads.len() == s.counted
        }),
{
    lemma_run_loads_in_order(capacity, device, tuned, events);
}

/// Where the process data of the groups was put in a run, one group after the other.
pub open spec fn offsets_in(
    capacity: nat,
    device: MainDeviceState,
    tuned: Seq<SubDevice>,
    events: Seq<InitEventView>,
) -> Seq<PdiOffset>
    decreases events.len(),
{
    if events.len() == 0 {
        Seq::empty()
    } else {
        let earlier = offsets_in(capacity, device, tuned, events.drop_last());
        match init_run(capacity, device, tuned, events).action {
            InitActionView::IntoPreOp { offset, .. } => earlier.push(offset),
            _ => earlier,
        }
    }
}

/// Where the process data of the groups ended in a run.
pub open spec fn ends_in(events: Seq<InitEventView>) -> Seq<PdiOffset>
    decreases events.len(),
{
    if events.len() == 0 {
        Seq::empty()
    } else {
        let earlier = ends_in(events.drop_last());
        match events.last() {
            InitEventView::PreOpEntered(Ok(end)) => earlier.push(end),
            _ => earlier,
        }
    }
}

/// Each group starts where the one before it ended.
spec fn lies_in_order(s: InitState, offsets: Seq<PdiOffset>, ends: Seq<PdiOffset>) -> bool {
    &&& offsets.len() > 0 ==> offsets[0] == (PdiOffset { start_address: 0, start_bit: 0 })
    &&& forall|k: int|
        0 < k < offsets.len() ==> k <= ends.len() && #[trigger] offsets[k] == ends[k - 1]
    &&& match s.phase {
        InitPhase::EnteringPreOp { next } => offsets.len() == next + 1 && ends.len() == next,
        InitPhase::Waiting(_) | InitPhase::Finished(Ok(_)) => offsets.len() == ends.len(),
        InitPhase::Finished(Err(_)) => true,
        _ => offsets.len() == 0 && ends.len() == 0,
    }
}

proof fn lemma_lies_step(
    s: InitState,
    capacity: nat,
    device: MainDeviceState,
    event: InitEventView,
    offsets: Seq<PdiOffset>,
    ends: Seq<PdiOffset>,
)
    requires
        s.wf(capacity, device),
        s.expects(event),
        !s.beyond_addresses(event),
        lies_in_order(s, offsets, ends),
    ensures
        ({
            let step = s.next(capacity, device, event);
            let offsets_after = match step.action {
                InitActionView::IntoPreOp { offset, .. } => offsets.push(offset),
                _ => offsets,
            };
            let ends_after = match event {
                InitEventView::PreOpEntered(Ok(end)) => ends.push(end),
                _ => ends,
            };
            lies_in_order(step.state, offsets_after, ends_after)
        }),
{
}

proof fn lemma_run_lies_in_order(
    capacity: nat,
    device: MainDeviceState,
    tuned: Seq<SubDevice>,
    events: Seq<InitEventView>,
)
    requires
        init_possible(capacity, device, tuned, events),
    ensures
        lies_in_order(
            init_run(capacity, device, tuned, events).state,
            offsets_in(capacity, device, tuned, events),
            ends_in(events),
        ),
    decreases events.len(),
{
    let earlier = events.drop_last();
    let offsets = offsets_in(capacity, device, tuned, earlier);
    let ends = ends_in(earlier);
    if events.len() > 1 {
        let before = init_run(capacity, device, tuned, earlier);
        let s = resumed(before.state, tuned);
        law_init_runs_in_order(capacity, device, tuned, earlier);
        lemma_run_lies_in_order(capacity, device, tuned, earlier);
        lemma_lies_step(s, capacity, before.device, events.last(), offsets, ends);
    } else {
        assert(offsets.len() == 0);
        assert(ends.len() == 0);
        assert(events.last() is Begin);
    }
}

/// In every run the process data of the first group starts at the first bit of the image, and that
/// of each further group where that of the one before it ended.
pub proof fn law_process_data_is_consecutive(
    capacity: nat,
    device: MainDeviceState,
    tuned: Seq<SubDevice>,
    events: Seq<InitEventView>,
    k: int,
)
    requires
        init_possible(capacity, device, tuned, events),
    ensures
        ({
            let offsets = offsets_in(capacity, device, tuned, events);
            &&& offsets.len() > 0 ==> offsets[0].start_address == 0 && offsets[0].start_bit == 0
            &&& 0 < k < offsets.len() ==> k <= ends_in(events).len() && offsets[k] == ends_in(
                events,
            )[k - 1]
        }),
{
    lemma_run_lies_in_order(capacity, device, tuned, events);
    lemma_lies(
        init_run(capacity, device, tuned, events).state,
        offsets_in(capacity, device, tuned, events),
        ends_in(events),
        k,
    );
}

proof fn lemma_lies(s: InitState, offsets: Seq<PdiOffset>, ends: Seq<PdiOffset>, k: int)
    requires
        lies_in_order(s, offsets, ends),
    ensures
        offsets.len() > 0 ==> offsets[0].start_address == 0 && offsets[0].start_bit == 0,
        0 < k < offsets.len() ==> k <= ends.len() && offsets[k] == ends[k - 1],
{
    if 0 < k < offsets.len() {
        assert(offsets[k] == ends[k - 1]);
    }
}

/// What is said of an event and of an action is what is in them.
pub proof fn law_init_events_are_what_they_hold(
    pdu: ReceivedPdu,
    e: Error,
    loaded: Result<SubDevice, Error>,
    found: Result<Option<SubDevice>, Error>,
    done: Result<(), Error>,
    group: Result<GroupRef, Error>,
    end: Result<PdiOffset, Error>,
)
    ensures
        InitEvent::Begin@ is Begin,
        InitEvent::Ticked@ is Ticked,
        InitEvent::TimedOut@ is TimedOut,
        InitEvent::Reply(Ok(pdu))@ == InitEventView::Reply(Ok(pdu@)),
        InitEvent::Reply(Err(e))@ == InitEventView::Reply(Err(e)),
        InitEvent::Loaded(loaded)@ == InitEventView::Loaded(loaded),
        InitEvent::DcConfigured(found)@ == InitEventView::DcConfigured(found),
        InitEvent::Synced(done)@ == InitEventView::Synced(done),
        InitEvent::Assigned(group)@ == InitEventView::Assigned(group),
        InitEvent::PreOpEntered(end)@ == InitEventView::PreOpEntered(end),
{
}

/// What is said of an action is what is in it.
pub proof fn law_init_actions_are_what_they_hold(
    send: Pdu,
    index: u16,
    configured_address: u16,
    reference: SubDevice,
    iterations: u32,
    group: GroupRef,
    offset: PdiOffset,
    done: Result<(), Error>,
)
    ensures
        InitAction::Transfer(send)@ == InitActionView::Transfer(send@),
        (InitAction::Load { index, configured_address })@ == (InitActionView::Load {
            index,
            configured_address,
        }),
        InitAction::ConfigureDc@ is ConfigureDc,
        (InitAction::StaticSync { reference, iterations })@ == (InitActionView::StaticSync {
            reference,
            iterations,
        }),
        InitAction::Assign(reference)@ == InitActionView::Assign(reference),
        (InitAction::IntoPreOp { group, offset })@ == (InitActionView::IntoPreOp { group, offset }),
        InitAction::Sleep@ is Sleep,
        InitAction::Finish(done)@ == InitActionView::Finish(done),
{
}

/// What [`InitSequence::step`] does: an event leads to what it leads to, with room for as many
/// SubDevices as the list has places. In particular every SubDevice that has handled the count is
/// counted, and a failure ends the initialisation with its error.
pub proof fn law_step<const N: usize>(event: InitEvent)
    ensures
        forall|i: &mut InitSequence<N>, d: &mut MainDevice, action: InitAction|
            #[trigger] call_ensures(InitSequence::<N>::step, (i, d, event), action) ==> {
                let step = (*i)@.next(N as nat, (*d)@, event@);
                &&& (*final(i))@ == step.state
                &&& (*final(d))@ == step.device
                &&& action@ == step.action
                &&& (*i)@.phase is Counting ==> (event@ matches InitEventView::Reply(Ok(pdu)) ==> (
                *final(i))@.counted == pdu.working_counter)
            },
{
}

/// What the functions around an initialisation do: it starts from nothing, tells how far it has
/// come, and is asked beforehand whether addresses run out. The SubDevices that it gives out while
/// the distributed clocks are configured are those that were loaded, and it goes on with what was
/// made of them.
pub proof fn law_init_functions<const N: usize>(
    d: &MainDevice,
    begun: InitSequence<N>,
    i: &InitSequence<N>,
    phase: InitPhase,
    event: &InitEvent,
    beyond: bool,
)
    requires
        call_ensures(MainDevice::init::<N>, (d,), begun),
        call_ensures(InitSequence::<N>::phase, (i,), phase),
        call_ensures(InitSequence::<N>::is_beyond_addresses, (i, event), beyond),
    ensures
        begun@.phase is Idle,
        begun@.counted == 0,
        begun@.subdevices.len() == 0,
        begun@.groups.len() == 0,
        phase == i@.phase,
        beyond <==> (i@.phase matches InitPhase::Waiting(w) && (event@ matches InitEventView::Reply(
            reply,
        ) && w.beyond_addresses(WaitEventView::Reply(reply)))),
        forall|q: &mut InitSequence<N>, r: &mut [SubDevice]|
            #[trigger] call_ensures(InitSequence::<N>::subdevices_mut, (q, d), r) ==> {
                &&& (*r)@ == (*q)@.subdevices
                &&& (*final(q))@.subdevices == (*final(r))@
                &&& (*final(q))@.phase == (*q)@.phase
                &&& (*final(q))@.counted == (*q)@.counted
                &&& (*final(q))@.groups == (*q)@.groups
            },
{
}

} // verus!
