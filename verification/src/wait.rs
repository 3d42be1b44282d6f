//! Waiting for every SubDevice to reach a state.
//!
//! The state that the SubDevices are in is looked at again and again. Once a SubDevice reports an
//! error, the reason is read from each of them, and the wait is over.

use crate::command::{Command, Pdu, PduView};
use crate::error::Error;
use crate::pdu_loop::{ReceivedPdu, ReceivedPduView};
use crate::register::RegisterAddress;
use crate::subdevice::{
    AlControl, AlStatusCode, SubDeviceState, AL_CONTROL_LEN, AL_STATUS_CODE_LEN,
    BASE_SUBDEVICE_ADDRESS, UNSPECIFIED_ERROR,
};
use vstd::prelude::*;

verus! {

/// How far a wait has come.
#[derive(Clone, Copy, Debug)]
pub enum WaitPhase {
    /// Nothing has been done yet.
    Idle,
    /// The state that the SubDevices are in has been asked for.
    Polling,
    /// There is a pause before the next look.
    Sleeping,
    /// The SubDevice with this address has been asked why it did not reach the state.
    ReadingCode {
        /// The configured address of the SubDevice.
        address: u16,
    },
    /// The wait is over.
    Finished(Result<(), Error>),
}

/// A wait for every SubDevice to reach a state.
#[derive(Clone, Copy, Debug)]
pub struct WaitForState {
    /// The state.
    pub desired_state: SubDeviceState,
    /// The number of SubDevices on the network.
    pub num_subdevices: u16,
    /// How far the wait has come.
    pub phase: WaitPhase,
}

/// What has happened since the last step.
#[derive(Debug)]
pub enum WaitEvent {
    /// The wait begins.
    Begin,
    /// The PDU was answered, or was not.
    Reply(Result<ReceivedPdu, Error>),
    /// The pause is over.
    Ticked,
    /// The wait has taken too long.
    TimedOut,
}

/// What a [`WaitEvent`] says.
pub enum WaitEventView {
    /// The wait begins.
    Begin,
    /// The PDU was answered, or was not.
    Reply(Result<ReceivedPduView, Error>),
    /// The pause is over.
    Ticked,
    /// The wait has taken too long.
    TimedOut,
}

/// What a reply says.
pub open spec fn reply_view(reply: Result<ReceivedPdu, Error>) -> Result<ReceivedPduView, Error> {
    match reply {
        Ok(pdu) => Ok(pdu@),
        Err(e) => Err(e),
    }
}

impl View for WaitEvent {
    type V = WaitEventView;

    open spec fn view(&self) -> WaitEventView {
        match *self {
            WaitEvent::Begin => WaitEventView::Begin,
            WaitEvent::Reply(reply) => WaitEventView::Reply(reply_view(reply)),
            WaitEvent::Ticked => WaitEventView::Ticked,
            WaitEvent::TimedOut => WaitEventView::TimedOut,
        }
    }
}

/// What is to be done next.
#[derive(Debug)]
pub enum WaitAction {
    /// Send a PDU, and give its answer as a [`WaitEvent::Reply`].
    Transfer(Pdu),
    /// Pause, and then give a [`WaitEvent::Ticked`].
    Sleep,
    /// Nothing more: the wait is over.
    Finish(Result<(), Error>),
}

/// What a [`WaitAction`] says.
#[verifier::ext_equal]
pub enum WaitActionView {
    /// Send a PDU.
    Transfer(PduView),
    /// Pause.
    Sleep,
    /// The wait is over.
    Finish(Result<(), Error>),
}

impl View for WaitAction {
    type V = WaitActionView;

    open spec fn view(&self) -> WaitActionView {
        match *self {
            WaitAction::Transfer(pdu) => WaitActionView::Transfer(pdu@),
            WaitAction::Sleep => WaitActionView::Sleep,
            WaitAction::Finish(r) => WaitActionView::Finish(r),
        }
    }
}

/// Asks for the state that the SubDevices are in.
pub open spec fn status_read() -> PduView {
    PduView::blank(Command::Brd { register: RegisterAddress::AlStatus.at() }, AL_CONTROL_LEN)
}

/// Asks a SubDevice why it did not reach a state.
pub open spec fn code_read(address: u16) -> PduView {
    PduView::blank(
        Command::Fprd { address, register: RegisterAddress::AlStatusCode.at() },
        AL_STATUS_CODE_LEN,
    )
}

/// The state that the SubDevices are in, read from the answer that all of them have handled.
pub open spec fn common_status(
    reply: Result<ReceivedPduView, Error>,
    num_subdevices: u16,
) -> Result<AlControl, Error> {
    match reply {
        Err(e) => Err(e),
        Ok(pdu) => match pdu.counted(Some(num_subdevices)) {
            Err(e) => Err(e),
            Ok(pdu) => match AlControl::unpacked(pdu.data) {
                Err(e) => Err(Error::Wire(e)),
                Ok(status) => Ok(status),
            },
        },
    }
}

impl WaitForState {
    /// The wait at its beginning.
    pub open spec fn begun(desired_state: SubDeviceState, num_subdevices: u16) -> WaitForState {
        WaitForState { desired_state, num_subdevices, phase: WaitPhase::Idle }
    }

    /// Whether an event can happen now.
    pub open spec fn expects(self, event: WaitEventView) -> bool {
        match self.phase {
            WaitPhase::Idle => event is Begin,
            WaitPhase::Polling => event is Reply || event is TimedOut,
            WaitPhase::Sleeping => event is Ticked || event is TimedOut,
            WaitPhase::ReadingCode { .. } => event is Reply || event is TimedOut,
            WaitPhase::Finished(_) => false,
        }
    }

    /// A SubDevice reports an error, but there are more SubDevices than there are addresses from
    /// the base address on.
    pub open spec fn beyond_addresses(self, event: WaitEventView) -> bool {
        &&& self.phase is Polling
        &&& BASE_SUBDEVICE_ADDRESS + self.num_subdevices > u16::MAX
        &&& event matches WaitEventView::Reply(reply)
        &&& common_status(reply, self.num_subdevices) matches Ok(status)
        &&& status.error
    }

    /// The step into a phase that calls for an action.
    pub open spec fn go(self, phase: WaitPhase, action: WaitActionView) -> (
        WaitForState,
        WaitActionView,
    ) {
        (WaitForState { phase, ..self }, action)
    }

    /// The step that ends the wait.
    pub open spec fn end(self, r: Result<(), Error>) -> (WaitForState, WaitActionView) {
        self.go(WaitPhase::Finished(r), WaitActionView::Finish(r))
    }

    /// What an event leads to.
    pub open spec fn next(self, event: WaitEventView) -> (WaitForState, WaitActionView) {
        match (self.phase, event) {
            (_, WaitEventView::TimedOut) => self.end(Err(Error::Timeout)),
            (WaitPhase::Polling, WaitEventView::Reply(reply)) => match common_status(
                reply,
                self.num_subdevices,
            ) {
                Err(e) => self.end(Err(e)),
                Ok(status) => if status.error {
                    if self.num_subdevices == 0 {
                        self.end(Err(Error::StateTransition))
                    } else {
                        self.go(
                            WaitPhase::ReadingCode { address: BASE_SUBDEVICE_ADDRESS },
                            WaitActionView::Transfer(code_read(BASE_SUBDEVICE_ADDRESS)),
                        )
                    }
                } else if status.state == self.desired_state {
                    self.end(Ok(()))
                } else {
                    self.go(WaitPhase::Sleeping, WaitActionView::Sleep)
                },
            },
            (WaitPhase::ReadingCode { address }, WaitEventView::Reply(_)) => {
                let following = address + 1;
                if following < BASE_SUBDEVICE_ADDRESS + self.num_subdevices {
                    self.go(
                        WaitPhase::ReadingCode { address: following as u16 },
                        WaitActionView::Transfer(code_read(following as u16)),
                    )
                } else {
                    self.end(Err(Error::StateTransition))
                }
            },
            _ => self.go(WaitPhase::Polling, WaitActionView::Transfer(status_read())),
        }
    }

    /// While reasons are read, the address is that of a SubDevice on the network.
    pub open spec fn wf(self) -> bool {
        self.phase matches WaitPhase::ReadingCode { address } ==> BASE_SUBDEVICE_ADDRESS <= address
            < BASE_SUBDEVICE_ADDRESS + self.num_subdevices <= u16::MAX
    }

    /// A wait for `num_subdevices` SubDevices to reach a state.
    pub fn new(desired_state: SubDeviceState, num_subdevices: u16) -> (r: WaitForState)
        ensures
            r == WaitForState::begun(desired_state, num_subdevices),
            r.wf(),
    {
        WaitForState { desired_state, num_subdevices, phase: WaitPhase::Idle }
    }

    /// Whether a SubDevice reports an error while there are more SubDevices than there are
    /// addresses from the base address on. [`WaitForState::step`] must not be called then.
    pub fn is_beyond_addresses(&self, event: &WaitEvent) -> (r: bool)
        ensures
            r == self.beyond_addresses(event@),
    {
        match event {
            WaitEvent::Reply(reply) => self.status_is_beyond_addresses(reply),
            _ => false,
        }
    }

    /// As [`WaitForState::is_beyond_addresses`], for the answer to a PDU.
    pub fn status_is_beyond_addresses(&self, reply: &Result<ReceivedPdu, Error>) -> (r: bool)
        ensures
            r == self.beyond_addresses(WaitEventView::Reply(reply_view(*reply))),
    {
        if !matches!(self.phase, WaitPhase::Polling) || self.num_subdevices <= u16::MAX
            - BASE_SUBDEVICE_ADDRESS {
            return false;
        }
        match reply {
            Ok(pdu) => {
                if pdu.working_counter != self.num_subdevices {
                    return false;
                }
                match AlControl::unpack_from_slice(pdu.data.as_slice()) {
                    Ok(status) => status.error,
                    Err(_) => false,
                }
            },
            Err(_) => false,
        }
    }

    /// Takes the next step.
    pub fn step(&mut self, event: WaitEvent) -> (action: WaitAction)
        requires
            old(self).wf(),
            old(self).expects(event@),
            !old(self).beyond_addresses(event@),
        ensures
            (*final(self), action@) == old(self).next(event@),
            final(self).wf(),
    {
        match event {
            WaitEvent::TimedOut => self.finish(Err(Error::Timeout)),
            WaitEvent::Begin => self.poll(),
            WaitEvent::Ticked => self.poll(),
            WaitEvent::Reply(reply) => {
                if let WaitPhase::ReadingCode { address } = self.phase {
                    if address + 1 < BASE_SUBDEVICE_ADDRESS + self.num_subdevices {
                        return self.read_code(address + 1);
                    }
                    return self.finish(Err(Error::StateTransition));
                }
                match read_common_status(reply, self.num_subdevices) {
                    Err(e) => self.finish(Err(e)),
                    Ok(status) => {
                        if status.error {
                            if self.num_subdevices == 0 {
                                return self.finish(Err(Error::StateTransition));
                            }
                            return self.read_code(BASE_SUBDEVICE_ADDRESS);
                        }
                        if status.state == self.desired_state {
                            return self.finish(Ok(()));
                        }
                        self.phase = WaitPhase::Sleeping;
                        WaitAction::Sleep
                    },
                }
            },
        }
    }

    fn poll(&mut self) -> (action: WaitAction)
        ensures
            (*final(self), action@) == old(self).go(
                WaitPhase::Polling,
                WaitActionView::Transfer(status_read()),
            ),
    {
        self.phase = WaitPhase::Polling;
        WaitAction::Transfer(
            Pdu::blank(Command::brd(RegisterAddress::AlStatus.into()), AL_CONTROL_LEN),
        )
    }

    fn read_code(&mut self, address: u16) -> (action: WaitAction)
        ensures
            (*final(self), action@) == old(self).go(
                WaitPhase::ReadingCode { address },
                WaitActionView::Transfer(code_read(address)),
            ),
    {
        self.phase = WaitPhase::ReadingCode { address };
        WaitAction::Transfer(
            Pdu::blank(
                Command::fprd(address, RegisterAddress::AlStatusCode.into()),
                AL_STATUS_CODE_LEN,
            ),
        )
    }

    fn finish(&mut self, r: Result<(), Error>) -> (action: WaitAction)
        ensures
            (*final(self), action@) == old(self).end(r),
    {
        self.phase = WaitPhase::Finished(r);
        WaitAction::Finish(r)
    }
}

/// The state that the SubDevices are in, read from the answer that all of them have handled.
fn read_common_status(reply: Result<ReceivedPdu, Error>, num_subdevices: u16) -> (r: Result<
    AlControl,
    Error,
>)
    ensures
        r == common_status(reply_view(reply), num_subdevices),
{
    match reply {
        Err(e) => Err(e),
        Ok(pdu) => match pdu.maybe_wkc(Some(num_subdevices)) {
            Err(e) => Err(e),
            Ok(pdu) => match AlControl::unpack_from_slice(pdu.data.as_slice()) {
                Err(e) => Err(Error::Wire(e)),
                Ok(status) => Ok(status),
            },
        },
    }
}

/// Why a SubDevice did not reach a state: what it answered, or that nothing more is known.
pub open spec fn reason(reply: Result<ReceivedPduView, Error>) -> AlStatusCode {
    match reply {
        Ok(pdu) => match AlStatusCode::unpacked(pdu.data) {
            Ok(code) => code,
            Err(_) => AlStatusCode { code: UNSPECIFIED_ERROR },
        },
        Err(_) => AlStatusCode { code: UNSPECIFIED_ERROR },
    }
}

/// Why a SubDevice did not reach a state: what it answered, or that nothing more is known.
pub fn status_code(reply: &Result<ReceivedPdu, Error>) -> (r: AlStatusCode)
    ensures
        r == reason(reply_view(*reply)),
{
    match reply {
        Ok(pdu) => match AlStatusCode::unpack_from_slice(pdu.data.as_slice()) {
            Ok(code) => code,
            Err(_) => AlStatusCode { code: UNSPECIFIED_ERROR },
        },
        Err(_) => AlStatusCode { code: UNSPECIFIED_ERROR },
    }
}

/// A wait ends well only where all SubDevices have answered that they are in the state, and none
/// of them that there is an error.
pub proof fn law_wait_ends_well_only_in_the_state(w: WaitForState, event: WaitEventView)
    requires
        w.expects(event),
        w.next(event).1 == WaitActionView::Finish(Ok(())),
    ensures
        event matches WaitEventView::Reply(Ok(pdu)) && {
            &&& pdu.working_counter == w.num_subdevices
            &&& AlControl::unpacked(pdu.data) matches Ok(status)
            &&& status.state == w.desired_state
            &&& !status.error
        },
{
}

/// The last step of a wait that is answered with these replies, one after the other.
pub open spec fn answered_with(w: WaitForState, replies: Seq<Result<ReceivedPduView, Error>>) -> (
    WaitForState,
    WaitActionView,
)
    recommends
        replies.len() > 0,
    decreases replies.len(),
{
    if replies.len() <= 1 {
        w.next(WaitEventView::Reply(replies[0]))
    } else {
        answered_with(w, replies.drop_last()).0.next(WaitEventView::Reply(replies.last()))
    }
}

/// Once a SubDevice has reported an error, every SubDevice on the network is asked for its reason,
/// in the order of their addresses, and after the last one the wait ends with an error, whatever
/// they answer.
pub proof fn law_reported_error_ends_the_wait(
    w: WaitForState,
    replies: Seq<Result<ReceivedPduView, Error>>,
)
    requires
        w.phase is Polling,
        BASE_SUBDEVICE_ADDRESS + w.num_subdevices <= u16::MAX,
        1 <= replies.len() <= w.num_subdevices + 1,
        common_status(replies[0], w.num_subdevices) matches Ok(status) && status.error,
    ensures
        answered_with(w, replies) == if replies.len() == w.num_subdevices + 1 {
            w.end(Err(Error::StateTransition))
        } else {
            let address = (BASE_SUBDEVICE_ADDRESS + replies.len() - 1) as u16;
            w.go(WaitPhase::ReadingCode { address }, WaitActionView::Transfer(code_read(address)))
        },
    decreases replies.len(),
{
    if replies.len() > 1 {
        assert(replies.drop_last()[0] == replies[0]);
        law_reported_error_ends_the_wait(w, replies.drop_last());
    }
}

/// Whether the four lowest bits of an answer stand for a state.
pub open spec fn stands_for(code: int, state: SubDeviceState) -> bool {
    match state {
        SubDeviceState::NoState => code == 0,
        SubDeviceState::Init => code == 1,
        SubDeviceState::PreOp => code == 2,
        SubDeviceState::Bootstrap => code == 3,
        SubDeviceState::SafeOp => code == 4,
        SubDeviceState::Op => code == 8,
        SubDeviceState::Other(bits) => code == bits && code > 4 && code != 8,
    }
}

/// A wait ends well as soon as all SubDevices have answered that they are in the state, whichever
/// state that is, and none of them that there is an error.
pub proof fn law_wait_ends_well_in_the_state(w: WaitForState, pdu: ReceivedPduView)
    requires
        w.phase is Polling,
        pdu.working_counter == w.num_subdevices,
        AlControl::unpacked(pdu.data) matches Ok(status) && status.state == w.desired_state
            && !status.error,
    ensures
        w.next(WaitEventView::Reply(Ok(pdu))).1 == WaitActionView::Finish(Ok(())),
        w.next(WaitEventView::Reply(Ok(pdu))).0.phase == WaitPhase::Finished(Ok(())),
{
}

/// What every answer to the question for the state leads to. It must have been handled by all
/// SubDevices, and hold two bytes. Where bit 4 of the first one is set, a SubDevice has an error,
/// and the first SubDevice is asked for its reason, if there is one. Else the wait ends well
/// exactly where the four lowest bits stand for the state that is waited for, and pauses where they
/// do not.
pub proof fn law_answer_decides_the_wait(w: WaitForState, reply: Result<ReceivedPduView, Error>)
    requires
        w.phase is Polling,
    ensures
        ({
            let (after, action) = w.next(WaitEventView::Reply(reply));
            &&& after.desired_state == w.desired_state
            &&& after.num_subdevices == w.num_subdevices
            &&& action matches WaitActionView::Finish(r) ==> after.phase == WaitPhase::Finished(r)
            &&& match reply {
                Err(e) => action == WaitActionView::Finish(Err(e)),
                Ok(pdu) => {
                    if pdu.working_counter != w.num_subdevices {
                        action == WaitActionView::Finish(
                            Err(
                                Error::WorkingCounter {
                                    expected: w.num_subdevices,
                                    received: pdu.working_counter,
                                },
                            ),
                        )
                    } else if pdu.data.len() < 2 {
                        action == WaitActionView::Finish(
                            Err(Error::Wire(crate::wire::WireError::ReadBufferTooShort)),
                        )
                    } else if pdu.data[0] / 16 % 2 == 1 {
                        if w.num_subdevices == 0 {
                            action == WaitActionView::Finish(Err(Error::StateTransition))
                        } else {
                            &&& after.phase == (WaitPhase::ReadingCode { address: 0x1000 })
                            &&& asks_for_reason(action, 0x1000)
                        }
                    } else if stands_for(pdu.data[0] as int % 16, w.desired_state) {
                        action == WaitActionView::Finish(Ok(()))
                    } else {
                        after.phase is Sleeping && action is Sleep
                    }
                },
            }
        }),
{
}

/// Whether the next thing to do is to read the status code of the SubDevice with an address: two
/// bytes from 0x0134 on.
pub open spec fn asks_for_reason(action: WaitActionView, address: int) -> bool {
    &&& action matches WaitActionView::Transfer(pdu)
    &&& pdu.command matches Command::Fprd { address: asked, register }
    &&& asked == address
    &&& register == 0x0134
    &&& pdu.data.len() == 0
    &&& pdu.len_override == Some(2u16)
}

/// Whether the next thing to do is to read the state that all SubDevices are in: two bytes from
/// 0x0130 on.
pub open spec fn asks_for_state(action: WaitActionView) -> bool {
    &&& action matches WaitActionView::Transfer(pdu)
    &&& pdu.command matches Command::Brd { register }
    &&& register == 0x0130
    &&& pdu.data.len() == 0
    &&& pdu.len_override == Some(2u16)
}

/// A wait begins with asking all SubDevices for their state, and asks again after each pause.
pub proof fn law_wait_asks_again(w: WaitForState, state: SubDeviceState, count: u16)
    ensures
        WaitForState::begun(state, count).desired_state == state,
        WaitForState::begun(state, count).num_subdevices == count,
        WaitForState::begun(state, count).phase is Idle,
        w.phase is Idle ==> asks_for_state(w.next(WaitEventView::Begin).1)
            && w.next(WaitEventView::Begin).0 == (WaitForState { phase: WaitPhase::Polling, ..w }),
        w.phase is Sleeping ==> asks_for_state(w.next(WaitEventView::Ticked).1)
            && w.next(WaitEventView::Ticked).0 == (WaitForState { phase: WaitPhase::Polling, ..w }),
{
}

/// Whenever the time is up, the wait ends with that error.
pub proof fn law_wait_times_out(w: WaitForState)
    ensures
        w.next(WaitEventView::TimedOut).1 == WaitActionView::Finish(Err(Error::Timeout)),
        w.next(WaitEventView::TimedOut).0.phase == WaitPhase::Finished(Err(Error::Timeout)),
{
}

/// Whatever a SubDevice gives as its reason, the SubDevice with the next address is asked; after
/// the last one of those on the network the wait ends with an error.
pub proof fn law_reasons_are_read_in_order(
    w: WaitForState,
    address: u16,
    reply: Result<ReceivedPduView, Error>,
)
    requires
        w.wf(),
        w.phase == (WaitPhase::ReadingCode { address }),
    ensures
        0x1000 <= address < 0x1000 + w.num_subdevices,
        ({
            let (after, action) = w.next(WaitEventView::Reply(reply));
            &&& after.desired_state == w.desired_state
            &&& after.num_subdevices == w.num_subdevices
            &&& if address + 1 == 0x1000 + w.num_subdevices {
                &&& action == WaitActionView::Finish(Err(Error::StateTransition))
                &&& after.phase == WaitPhase::Finished(Err(Error::StateTransition))
            } else {
                &&& after.phase matches WaitPhase::ReadingCode { address: next }
                &&& next == address + 1
                &&& asks_for_reason(action, address + 1)
            }
        }),
{
}

/// There are more SubDevices than addresses exactly where an error is reported by more SubDevices
/// than there are numbers from 0x1000 to the last one of sixteen bits.
pub proof fn law_addresses_run_out(w: WaitForState, pdu: ReceivedPduView)
    ensures
        w.beyond_addresses(WaitEventView::Reply(Ok(pdu))) <==> {
            &&& w.phase is Polling
            &&& w.num_subdevices >= 0xf000
            &&& pdu.working_counter == w.num_subdevices
            &&& pdu.data.len() >= 2
            &&& pdu.data[0] / 16 % 2 == 1
        },
        !w.beyond_addresses(WaitEventView::Begin),
        !w.beyond_addresses(WaitEventView::Ticked),
        !w.beyond_addresses(WaitEventView::TimedOut),
{
}

/// The reason that a SubDevice gives is the number in the two bytes it answers, the lower one
/// first; one that does not answer, or answers less, has failed for a reason that is not specified,
/// whose number is one.
pub proof fn law_reason_is_what_was_answered(reply: Result<ReceivedPduView, Error>)
    ensures
        reason(reply).code == match reply {
            Ok(pdu) => if pdu.data.len() >= 2 {
                pdu.data[0] + 256 * pdu.data[1]
            } else {
                1
            },
            Err(_) => 1int,
        },
{
}

/// What is said of an event and of an action is what is in them.
pub proof fn law_wait_events_are_what_they_hold(
    pdu: ReceivedPdu,
    e: Error,
    send: Pdu,
    r: Result<(), Error>,
)
    ensures
        WaitEvent::Begin@ is Begin,
        WaitEvent::Ticked@ is Ticked,
        WaitEvent::TimedOut@ is TimedOut,
        WaitEvent::Reply(Ok(pdu))@ == WaitEventView::Reply(Ok(pdu@)),
        WaitEvent::Reply(Err(e))@ == WaitEventView::Reply(Err(e)),
        reply_view(Ok(pdu)) == Ok::<ReceivedPduView, Error>(pdu@),
        reply_view(Err(e)) == Err::<ReceivedPduView, Error>(e),
        WaitAction::Transfer(send)@ == WaitActionView::Transfer(send@),
        WaitAction::Sleep@ is Sleep,
        WaitAction::Finish(r)@ == WaitActionView::Finish(r),
{
}

/// What [`WaitForState::step`] makes of an answer to the question for the state: it ends the wait
/// well exactly where all SubDevices have answered two bytes, without the error bit, whose four
/// lowest bits stand for the state.
pub proof fn law_step_ends_the_wait_in_the_state(pdu: ReceivedPdu)
    ensures
        forall|w: &mut WaitForState, action: WaitAction|
            (*w).phase is Polling && #[trigger] call_ensures(
                WaitForState::step,
                (w, WaitEvent::Reply(Ok(pdu))),
                action,
            ) ==> (action == WaitAction::Finish(Ok(())) <==> {
                &&& pdu.working_counter == (*w).num_subdevices
                &&& pdu.data@.len() >= 2
                &&& pdu.data@[0] / 16 % 2 == 0
                &&& stands_for(pdu.data@[0] as int % 16, (*w).desired_state)
            }),
{
    assert forall|w: &mut WaitForState, action: WaitAction|
        (*w).phase is Polling && #[trigger] call_ensures(
            WaitForState::step,
            (w, WaitEvent::Reply(Ok(pdu))),
            action,
        ) implies (action == WaitAction::Finish(Ok(())) <==> {
        &&& pdu.working_counter == (*w).num_subdevices
        &&& pdu.data@.len() >= 2
        &&& pdu.data@[0] / 16 % 2 == 0
        &&& stands_for(pdu.data@[0] as int % 16, (*w).desired_state)
    }) by {
        law_answer_decides_the_wait(*w, Ok(pdu@));
        if let WaitAction::Finish(Ok(_)) = action {
            assert(action == WaitAction::Finish(Ok(())));
        }
    }
}

/// What the functions around a wait do: it is begun with the state and the number it is given, it
/// is asked beforehand whether addresses run out, and a reason is read from an answer.
pub proof fn law_wait_functions(
    state: SubDeviceState,
    count: u16,
    begun: WaitForState,
    w: &WaitForState,
    event: &WaitEvent,
    beyond: bool,
    reply: &Result<ReceivedPdu, Error>,
    code: AlStatusCode,
)
    requires
        call_ensures(WaitForState::new, (state, count), begun),
        call_ensures(WaitForState::is_beyond_addresses, (w, event), beyond),
        call_ensures(status_code, (reply,), code),
    ensures
        begun.desired_state == state,
        begun.num_subdevices == count,
        begun.phase is Idle,
        beyond == w.beyond_addresses(event@),
        code.code == match *reply {
            Ok(pdu) => if pdu.data@.len() >= 2 {
                pdu.data@[0] + 256 * pdu.data@[1]
            } else {
                1
            },
            Err(_) => 1int,
        },
{
}

/// What [`WaitForState::step`] does: an event leads to what it leads to.
pub proof fn law_wait_step(event: WaitEvent)
    ensures
        forall|w: &mut WaitForState, action: WaitAction|
            #[trigger] call_ensures(WaitForState::step, (w, event), action) ==> *final(w) == (
            *w).next(event@).0 && action@ == (*w).next(event@).1,
{
}

} // verus!
