//! Frames that are prepared one after the other and handed to a callback.

use crate::command::{Command, Pdu, PduView};
use crate::error::Error;
use crate::maindevice;
use crate::maindevice::{MainDevice, MainDeviceState, Prepared};
use crate::pdu_loop;
use crate::pdu_loop::{FrameState, PDU_OVERHEAD_BYTES};
use crate::reset;
use crate::subdevice::SubDevice;
use vstd::prelude::*;

verus! {

/// A frame that was handed to a callback, and what the callback made of it.
pub struct HandOut {
    /// The main device when the PDU was prepared.
    pub before: MainDeviceState,
    /// The frame, or why there is none.
    pub prepared: Prepared,
    /// The main device when the callback was called.
    pub ready: MainDeviceState,
    /// What the callback answered.
    pub answer: Result<(), Error>,
    /// The main device as the callback left it.
    pub after: MainDeviceState,
}

/// The main device when the PDU at a place of a plan is prepared: as it was at the start, or as the
/// callback left it the time before.
pub open spec fn device_at(start: MainDeviceState, run: Seq<HandOut>, i: int) -> MainDeviceState {
    if i == 0 {
        start
    } else {
        run[i - 1].after
    }
}

/// The PDUs of a plan were prepared one after the other, and each result handed out, until an
/// answer was an error.
pub open spec fn handed_out(
    start: MainDeviceState,
    plan: Seq<PduView>,
    run: Seq<HandOut>,
    end: MainDeviceState,
) -> bool {
    &&& run.len() <= plan.len()
    &&& forall|i: int|
        #![trigger run[i]]
        0 <= i < run.len() ==> {
            &&& run[i].before == device_at(start, run, i)
            &&& maindevice::prepared_view(run[i].prepared) == run[i].before.prep(plan[i])
            &&& run[i].ready == run[i].before.after_prep(plan[i])
        }
    &&& forall|i: int| 0 <= i < run.len() - 1 ==> (#[trigger] run[i]).answer is Ok
    &&& run.len() < plan.len() ==> run.len() > 0 && run.last().answer is Err
    &&& end == device_at(start, run, run.len() as int)
}

/// The callback that a frame was handed to took the main device from one state to another.
pub open spec fn passed(h: HandOut, ready: MainDeviceState, after: MainDeviceState) -> bool {
    ready == h.ready && after == h.after
}

/// What was prepared is the frame for a PDU.
#[verifier::opaque]
spec fn is_prepared(
    before: MainDeviceState,
    pdu: PduView,
    prepared: Prepared,
    ready: MainDeviceState,
) -> bool {
    &&& maindevice::prepared_view(prepared) == before.prep(pdu)
    &&& ready == before.after_prep(pdu)
}

/// The first PDUs of a plan were prepared and handed out, which led to the state `now`. The last
/// answer was `error`, if it was one; all others were none.
spec fn under_way(
    start: MainDeviceState,
    plan: Seq<PduView>,
    run: Seq<HandOut>,
    error: Option<Error>,
    now: MainDeviceState,
) -> bool {
    &&& forall|i: int|
        #![trigger run[i]]
        0 <= i < run.len() ==> {
            &&& run[i].before == device_at(start, run, i)
            &&& is_prepared(run[i].before, plan[i], run[i].prepared, run[i].ready)
            &&& i < run.len() - 1 ==> run[i].answer is Ok
        }
    &&& run.len() > 0 ==> match error {
        Some(e) => run.last().answer is Err && run.last().answer->Err_0 == e,
        None => run.last().answer is Ok,
    }
    &&& error is Some ==> run.len() > 0
    &&& now == device_at(start, run, run.len() as int)
}

proof fn lemma_under_way(
    start: MainDeviceState,
    plan: Seq<PduView>,
    run: Seq<HandOut>,
    h: HandOut,
)
    requires
        under_way(start, plan, run, None, h.before),
        is_prepared(h.before, plan[run.len() as int], h.prepared, h.ready),
    ensures
        under_way(
            start,
            plan,
            run.push(h),
            match h.answer {
                Ok(_) => None,
                Err(e) => Some(e),
            },
            h.after,
        ),
{
    let after = run.push(h);
    assert forall|i: int| #![trigger after[i]] 0 <= i < after.len() implies {
        &&& after[i].before == device_at(start, after, i)
        &&& is_prepared(after[i].before, plan[i], after[i].prepared, after[i].ready)
        &&& i < after.len() - 1 ==> after[i].answer is Ok
    } by {
        if i < run.len() {
            assert(after[i] == run[i]);
        }
        if i > 0 {
            assert(after[i - 1] == run[i - 1]);
        }
    }
}

proof fn lemma_handed_out(
    start: MainDeviceState,
    plan: Seq<PduView>,
    run: Seq<HandOut>,
    error: Option<Error>,
    now: MainDeviceState,
)
    requires
        under_way(start, plan, run, error, now),
        run.len() <= plan.len(),
        error is None ==> run.len() == plan.len(),
    ensures
        handed_out(start, plan, run, now),
        verdict(run) == match error {
            Some(e) => Err::<(), Error>(e),
            None => Ok::<(), Error>(()),
        },
{
    reveal(is_prepared);
}

/// What comes of handing out frames: the error that ended it, if one did.
pub open spec fn verdict(run: Seq<HandOut>) -> Result<(), Error> {
    if run.len() > 0 && run.last().answer is Err {
        Err(run.last().answer->Err_0)
    } else {
        Ok(())
    }
}

/// What a list of PDUs says.
pub open spec fn plan_of(pdus: Seq<Pdu>) -> Seq<PduView> {
    Seq::new(pdus.len(), |i: int| pdus[i]@)
}

/// A frame is there to be handed out exactly where a slot was free, at the start or because the
/// callback had left one free the time before, and the PDU fits into a frame.
pub proof fn law_freed_slots_are_used_again(
    start: MainDeviceState,
    plan: Seq<PduView>,
    run: Seq<HandOut>,
    end: MainDeviceState,
    i: int,
)
    requires
        handed_out(start, plan, run, end),
        0 <= i < run.len(),
        device_at(start, run, i).wf(),
    ensures
        ({
            let slots = device_at(start, run, i).pdu_loop;
            run[i].prepared matches Ok(Some(_)) <==> {
                &&& exists|slot: int|
                    0 <= slot < slots.frames.len() && (#[trigger] slots.frames[slot]) is Free
                &&& pdu_loop::data_len(plan[i]) + PDU_OVERHEAD_BYTES <= slots.max_frame_data
            }
        }),
{
    let before = device_at(start, run, i);
    assert(run[i].before == before);
    pdu_loop::law_prepare_takes_a_free_slot(before.pdu_loop, plan[i], FrameState::Sending);
}

impl MainDevice {
    /// Prepares the next PDU.
    fn prep_next(&mut self, pdu: &Pdu) -> (r: Prepared)
        requires
            old(self)@.wf(),
        ensures
            is_prepared(old(self)@, pdu@, r, final(self)@),
            final(self)@.wf(),
            maindevice::in_place(final(self)@, r),
    {
        let r = self.prep_pdu(pdu);
        proof {
            reveal(is_prepared);
        }
        r
    }

    /// Prepares PDUs one after the other and hands each result to `f`, until `f` answers with an
    /// error.
    pub(crate) fn hand_out<F: FnMut(&mut MainDevice, Prepared) -> Result<(), Error>>(
        &mut self,
        pdus: Vec<Pdu>,
        f: F,
    ) -> (r: Result<(), Error>)
        requires
            old(self)@.wf(),
            forall|d: &mut MainDevice, frame: Prepared|
                (*d)@.wf() && maindevice::in_place((*d)@, frame) ==> #[trigger] call_requires(
                    f,
                    (d, frame),
                ),
            forall|d: &mut MainDevice, frame: Prepared, r: Result<(), Error>|
                (*d)@.wf() && maindevice::in_place((*d)@, frame) && #[trigger] call_ensures(
                    f,
                    (d, frame),
                    r,
                )
                    ==> (*final(d))@.wf(),
        ensures
            final(self)@.wf(),
            exists|run: Seq<HandOut>|
                {
                    &&& #[trigger] handed_out(old(self)@, plan_of(pdus@), run, final(self)@)
                    &&& forall|i: int|
                        #![trigger run[i]]
                        0 <= i < run.len() ==> exists|d: &mut MainDevice|
                            {
                                &&& passed(run[i], (*d)@, (*final(d))@)
                                &&& #[trigger] call_ensures(f, (d, run[i].prepared), run[i].answer)
                            }
                    &&& r == verdict(run)
                },
    {
        let ghost plan = plan_of(pdus@);
        let ghost mut run: Seq<HandOut> = Seq::empty();
        let mut callback = f;
        let mut step: usize = 0;
        let mut error: Option<Error> = None;
        while step < pdus.len() && error.is_none()
            invariant
                step <= pdus@.len(),
                plan == plan_of(pdus@),
                run.len() == step,
                self@.wf(),
                under_way(old(self)@, plan, run, error, self@),
                callback == f,
                forall|d: &mut MainDevice, frame: Prepared|
                    (*d)@.wf() && maindevice::in_place((*d)@, frame) ==> #[trigger] call_requires(
                        f,
                        (d, frame),
                    ),
                forall|d: &mut MainDevice, frame: Prepared, r: Result<(), Error>|
                    (*d)@.wf() && maindevice::in_place((*d)@, frame) && #[trigger] call_ensures(
                        f,
                        (d, frame),
                        r,
                    )
                        ==> (*final(d))@.wf(),
                forall|i: int|
                    #![trigger run[i]]
                    0 <= i < run.len() ==> exists|d: &mut MainDevice|
                        {
                            &&& passed(run[i], (*d)@, (*final(d))@)
                            &&& #[trigger] call_ensures(f, (d, run[i].prepared), run[i].answer)
                        },
            decreases pdus@.len() - step,
        {
            let ghost before = self@;
            let frame = self.prep_next(&pdus[step]);
            let ghost sent = frame;
            let ghost ready = self@;
            let answer = callback(self, frame);
            proof {
                let h = HandOut { before, prepared: sent, ready, answer, after: self@ };
                assert(exists|d: &mut MainDevice|
                    {
                        &&& passed(h, (*d)@, (*final(d))@)
                        &&& #[trigger] call_ensures(f, (d, sent), answer)
                    });
                lemma_under_way(old(self)@, plan, run, h);
                run = run.push(h);
            }
            step = step + 1;
            if let Err(e) = answer {
                error = Some(e);
            }
        }
        proof {
            lemma_handed_out(old(self)@, plan, run, error, self@);
        }
        match error {
            Some(e) => Err(e),
            None => Ok(()),
        }
    }

    /// As [`MainDevice::hand_out`], with a number along with each result. Where no answer was an
    /// error, `count` is given back.
    pub(crate) fn hand_out_for<F: FnMut(&mut MainDevice, Prepared, u16) -> Result<(), Error>>(
        &mut self,
        pdus: Vec<Pdu>,
        ids: Vec<u16>,
        count: u16,
        f: F,
    ) -> (r: Result<u16, Error>)
        requires
            old(self)@.wf(),
            ids@.len() == pdus@.len(),
            forall|d: &mut MainDevice, frame: Prepared, id: u16|
                (*d)@.wf() && maindevice::in_place((*d)@, frame) ==> #[trigger] call_requires(
                    f,
                    (d, frame, id),
                ),
            forall|d: &mut MainDevice, frame: Prepared, id: u16, r: Result<(), Error>|
                (*d)@.wf() && maindevice::in_place((*d)@, frame) && #[trigger] call_ensures(
                    f,
                    (d, frame, id),
                    r,
                )
                    ==> (*final(d))@.wf(),
        ensures
            final(self)@.wf(),
            exists|run: Seq<HandOut>|
                {
                    &&& #[trigger] handed_out(old(self)@, plan_of(pdus@), run, final(self)@)
                    &&& forall|i: int|
                        #![trigger run[i]]
                        0 <= i < run.len() ==> exists|d: &mut MainDevice|
                            {
                                &&& passed(run[i], (*d)@, (*final(d))@)
                                &&& #[trigger] call_ensures(
                                    f,
                                    (d, run[i].prepared, ids@[i]),
                                    run[i].answer,
                                )
                            }
                    &&& r == match verdict(run) {
                        Ok(_) => Ok::<u16, Error>(count),
                        Err(e) => Err::<u16, Error>(e),
                    }
                },
    {
        let ghost plan = plan_of(pdus@);
        let ghost mut run: Seq<HandOut> = Seq::empty();
        let mut callback = f;
        let mut step: usize = 0;
        let mut error: Option<Error> = None;
        while step < pdus.len() && error.is_none()
            invariant
                step <= pdus@.len(),
                ids@.len() == pdus@.len(),
                plan == plan_of(pdus@),
                run.len() == step,
                self@.wf(),
                under_way(old(self)@, plan, run, error, self@),
                callback == f,
                forall|d: &mut MainDevice, frame: Prepared, id: u16|
                    (*d)@.wf() && maindevice::in_place((*d)@, frame) ==> #[trigger] call_requires(
                        f,
                        (d, frame, id),
                    ),
                forall|d: &mut MainDevice, frame: Prepared, id: u16, r: Result<(), Error>|
                    (*d)@.wf() && maindevice::in_place((*d)@, frame) && #[trigger] call_ensures(
                        f,
                        (d, frame, id),
                        r,
                    )
                        ==> (*final(d))@.wf(),
                forall|i: int|
                    #![trigger run[i]]
                    0 <= i < run.len() ==> exists|d: &mut MainDevice|
                        {
                            &&& passed(run[i], (*d)@, (*final(d))@)
                            &&& #[trigger] call_ensures(
                                f,
                                (d, run[i].prepared, ids@[i]),
                                run[i].answer,
                            )
                        },
            decreases pdus@.len() - step,
        {
            let id: u16 = ids[step];
            let ghost before = self@;
            let frame = self.prep_next(&pdus[step]);
            let ghost sent = frame;
            let ghost ready = self@;
            let answer = callback(self, frame, id);
            proof {
                let h = HandOut { before, prepared: sent, ready, answer, after: self@ };
                assert(exists|d: &mut MainDevice|
                    {
                        &&& passed(h, (*d)@, (*final(d))@)
                        &&& #[trigger] call_ensures(f, (d, sent, id), answer)
                    });
                lemma_under_way(old(self)@, plan, run, h);
                run = run.push(h);
            }
            step = step + 1;
            if let Err(e) = answer {
                error = Some(e);
            }
        }
        proof {
            lemma_handed_out(old(self)@, plan, run, error, self@);
        }
        match error {
            Some(e) => Err(e),
            None => Ok(count),
        }
    }

    /// As [`MainDevice::hand_out`], with a position and an address along with each result.
    pub(crate) fn hand_out_addresses<
        F: FnMut(&mut MainDevice, Prepared, u16, u16) -> Result<(), Error>,
    >(
        &mut self,
        pdus: Vec<Pdu>,
        positions: Vec<u16>,
        addresses: Vec<u16>,
        f: F,
    ) -> (r: Result<(), Error>)
        requires
            old(self)@.wf(),
            positions@.len() == pdus@.len(),
            addresses@.len() == pdus@.len(),
            forall|d: &mut MainDevice, frame: Prepared, position: u16, address: u16|
                (*d)@.wf() && maindevice::in_place((*d)@, frame) ==> #[trigger] call_requires(
                    f,
                    (d, frame, position, address),
                ),
            forall|
                d: &mut MainDevice,
                frame: Prepared,
                position: u16,
                address: u16,
                r: Result<(), Error>,
            |
                (*d)@.wf() && maindevice::in_place((*d)@, frame) && #[trigger] call_ensures(
                    f,
                    (d, frame, position, address),
                    r,
                )
                    ==> (*final(d))@.wf(),
        ensures
            final(self)@.wf(),
            exists|run: Seq<HandOut>|
                {
                    &&& #[trigger] handed_out(old(self)@, plan_of(pdus@), run, final(self)@)
                    &&& forall|i: int|
                        #![trigger run[i]]
                        0 <= i < run.len() ==> exists|d: &mut MainDevice|
                            {
                                &&& passed(run[i], (*d)@, (*final(d))@)
                                &&& #[trigger] call_ensures(
                                    f,
                                    (d, run[i].prepared, positions@[i], addresses@[i]),
                                    run[i].answer,
                                )
                            }
                    &&& r == verdict(run)
                },
    {
        let ghost plan = plan_of(pdus@);
        let ghost mut run: Seq<HandOut> = Seq::empty();
        let mut callback = f;
        let mut step: usize = 0;
        let mut error: Option<Error> = None;
        while step < pdus.len() && error.is_none()
            invariant
                step <= pdus@.len(),
                positions@.len() == pdus@.len(),
                addresses@.len() == pdus@.len(),
                plan == plan_of(pdus@),
                run.len() == step,
                self@.wf(),
                under_way(old(self)@, plan, run, error, self@),
                callback == f,
                forall|d: &mut MainDevice, frame: Prepared, position: u16, address: u16|
                    (*d)@.wf() && maindevice::in_place((*d)@, frame) ==> #[trigger] call_requires(
                        f,
                        (d, frame, position, address),
                    ),
                forall|
                    d: &mut MainDevice,
                    frame: Prepared,
                    position: u16,
                    address: u16,
                    r: Result<(), Error>,
                |
                    (*d)@.wf() && maindevice::in_place((*d)@, frame) && #[trigger] call_ensures(
                        f,
                        (d, frame, position, address),
                        r,
                    )
                        ==> (*final(d))@.wf(),
                forall|i: int|
                    #![trigger run[i]]
                    0 <= i < run.len() ==> exists|d: &mut MainDevice|
                        {
                            &&& passed(run[i], (*d)@, (*final(d))@)
                            &&& #[trigger] call_ensures(
                                f,
                                (d, run[i].prepared, positions@[i], addresses@[i]),
                                run[i].answer,
                            )
                        },
            decreases pdus@.len() - step,
        {
            let position: u16 = positions[step];
            let address: u16 = addresses[step];
            let ghost before = self@;
            let frame = self.prep_next(&pdus[step]);
            let ghost sent = frame;
            let ghost ready = self@;
            let answer = callback(self, frame, position, address);
            proof {
                let h = HandOut { before, prepared: sent, ready, answer, after: self@ };
                assert(exists|d: &mut MainDevice|
                    {
                        &&& passed(h, (*d)@, (*final(d))@)
                        &&& #[trigger] call_ensures(f, (d, sent, position, address), answer)
                    });
                lemma_under_way(old(self)@, plan, run, h);
                run = run.push(h);
            }
            step = step + 1;
            if let Err(e) = answer {
                error = Some(e);
            }
        }
        proof {
            lemma_handed_out(old(self)@, plan, run, error, self@);
        }
        match error {
            Some(e) => Err(e),
            None => Ok(()),
        }
    }
}

/// Each PDU is prepared by the main device as it was at the start, or as the callback left it the
/// time before. If every answer is good, every PDU of the plan has been handed out, and that is the
/// outcome; an answer that is not good is the last one, and its error is the outcome.
pub proof fn law_hand_outs_follow_each_other(
    start: MainDeviceState,
    plan: Seq<PduView>,
    run: Seq<HandOut>,
    end: MainDeviceState,
    i: int,
)
    requires
        handed_out(start, plan, run, end),
    ensures
        run.len() <= plan.len(),
        run.len() == 0 ==> plan.len() == 0 && end == start,
        run.len() > 0 ==> run[0].before == start && end == run[run.len() - 1].after,
        0 < i < run.len() ==> run[i].before == run[i - 1].after && run[i - 1].answer is Ok,
        0 <= i < run.len() ==> {
            let (slots, prepared) = run[i].before.pdu_loop.prepare(plan[i], FrameState::Sending);
            &&& run[i].ready.pdu_loop == slots
            &&& run[i].ready.num_subdevices == run[i].before.num_subdevices
            &&& run[i].ready.dc_reference == run[i].before.dc_reference
            &&& run[i].ready.timeouts == run[i].before.timeouts
            &&& run[i].ready.config == run[i].before.config
            &&& match run[i].prepared {
                Ok(Some((frame, handle))) => prepared == Ok::<
                    (pdu_loop::SendableFrameView, pdu_loop::PduResponseHandle),
                    Error,
                >((frame@, handle)),
                Ok(None) => false,
                Err(e) => prepared is Err && prepared->Err_0 == e,
            }
        },
        match verdict(run) {
            Ok(_) => run.len() == plan.len() && (run.len() > 0 ==> run[run.len() - 1].answer is Ok),
            Err(e) => run.len() > 0 && run[run.len() - 1].answer is Err && run[run.len()
                - 1].answer->Err_0 == e,
        },
{
    if run.len() > 0 {
        assert(run[0].before == start);
    }
    if 0 < i < run.len() {
        assert(run[i - 1].answer is Ok);
        assert(run[i].before == run[i - 1].after);
    }
    if 0 <= i < run.len() {
        assert(maindevice::prepared_view(run[i].prepared) == run[i].before.prep(plan[i]));
    }
}

/// A callback is called with the main device as it was made ready, and what it leaves is what is
/// gone on with. A list of PDUs says what each of them says.
pub proof fn law_callback_has_the_device(
    h: HandOut,
    ready: MainDeviceState,
    after: MainDeviceState,
    pdus: Seq<Pdu>,
    i: int,
)
    ensures
        passed(h, ready, after) <==> h.ready == ready && h.after == after,
        plan_of(pdus).len() == pdus.len(),
        0 <= i < pdus.len() ==> plan_of(pdus)[i] == pdus[i]@,
{
}

/// Whether frames were handed out in turn, of the `n` that there were to be: each was prepared by
/// the main device as the callback had left it the time before; all answers but the last one were
/// good; and the outcome is good exactly where the last one was good too, and all had their turn.
pub open spec fn in_turn(
    start: MainDeviceState,
    run: Seq<HandOut>,
    end: MainDeviceState,
    n: int,
    r: Result<(), Error>,
) -> bool {
    &&& run.len() <= n
    &&& run.len() == 0 ==> n == 0 && end == start && r is Ok
    &&& run.len() > 0 ==> {
        &&& run[0].before == start
        &&& end == run[run.len() - 1].after
        &&& r is Ok <==> run[run.len() - 1].answer is Ok
        &&& r matches Err(e) ==> run[run.len() - 1].answer->Err_0 == e
    }
    &&& r is Ok ==> run.len() == n
    &&& forall|i: int|
        0 < i < run.len() ==> (#[trigger] run[i]).before == run[i - 1].after && run[i
            - 1].answer is Ok
}

/// What is handed out as a plan says is handed out in turn.
pub proof fn law_hand_outs_are_in_turn(
    start: MainDeviceState,
    plan: Seq<PduView>,
    run: Seq<HandOut>,
    end: MainDeviceState,
)
    requires
        handed_out(start, plan, run, end),
    ensures
        in_turn(start, run, end, plan.len() as int, verdict(run)),
{
    if run.len() > 0 {
        assert(run[0].before == start);
    }
    assert forall|i: int| 0 < i < run.len() implies (#[trigger] run[i]).before == run[i - 1].after
        && run[i - 1].answer is Ok by {
        assert(run[i - 1].answer is Ok);
    }
}

/// What [`MainDevice::prep_reset_subdevices`] does with a callback: it hands out the steps of a
/// reset in turn, each with the main device in hand.
pub proof fn law_reset_is_handed_out<
    F: FnMut(&mut MainDevice, Prepared) -> Result<(), Error>,
>(f: F)
    ensures
        forall|d: &mut MainDevice, r: Result<(), Error>|
            #[trigger] call_ensures(MainDevice::prep_reset_subdevices::<F>, (d, f), r) ==> exists|
                run: Seq<HandOut>,
            |
                {
                    &&& #[trigger] handed_out((*d)@, reset::reset_plan(), run, (*final(d))@)
                    &&& in_turn((*d)@, run, (*final(d))@, 44, r)
                    &&& forall|i: int|
                        #![trigger run[i]]
                        0 <= i < run.len() ==> exists|e: &mut MainDevice|
                            {
                                &&& (*e)@ == run[i].ready
                                &&& (*final(e))@ == run[i].after
                                &&& #[trigger] call_ensures(f, (e, run[i].prepared), run[i].answer)
                            }
                },
{
    reset::law_reset_plan_len();
    lemma_in_turn(reset::reset_plan());
}

proof fn lemma_in_turn(plan: Seq<PduView>)
    ensures
        forall|start: MainDeviceState, run: Seq<HandOut>, end: MainDeviceState|
            #[trigger] handed_out(start, plan, run, end) ==> in_turn(
                start,
                run,
                end,
                plan.len() as int,
                verdict(run),
            ),
{
    assert forall|start: MainDeviceState, run: Seq<HandOut>, end: MainDeviceState|
        #[trigger] handed_out(start, plan, run, end) implies in_turn(
        start,
        run,
        end,
        plan.len() as int,
        verdict(run),
    ) by {
        law_hand_outs_are_in_turn(start, plan, run, end);
    }
}

/// What [`MainDevice::prep_device_properties`] does with a callback: it hands out the three reads
/// in turn, each with the main device in hand.
pub proof fn law_properties_are_handed_out<
    F: FnMut(&mut MainDevice, Prepared) -> Result<(), Error>,
>(address: u16, f: F)
    ensures
        forall|d: &mut MainDevice, r: Result<(), Error>|
            #[trigger] call_ensures(MainDevice::prep_device_properties::<F>, (d, address, f), r)
                ==> exists|run: Seq<HandOut>|
                {
                    &&& #[trigger] handed_out(
                        (*d)@,
                        maindevice::properties_plan(address),
                        run,
                        (*final(d))@,
                    )
                    &&& in_turn((*d)@, run, (*final(d))@, 3, r)
                    &&& forall|i: int|
                        #![trigger run[i]]
                        0 <= i < run.len() ==> exists|e: &mut MainDevice|
                            {
                                &&& (*e)@ == run[i].ready
                                &&& (*final(e))@ == run[i].after
                                &&& #[trigger] call_ensures(f, (e, run[i].prepared), run[i].answer)
                            }
                },
{
    lemma_in_turn(maindevice::properties_plan(address));
}

/// What [`MainDevice::prep_configure_subdev_addrs`] does with a callback: it hands out as many
/// writes as there are SubDevices in turn, the one for each position with that position and the
/// address that goes with it, and with the main device in hand.
pub proof fn law_addresses_are_handed_out<
    F: FnMut(&mut MainDevice, Prepared, u16, u16) -> Result<(), Error>,
>(count: u16, f: F)
    ensures
        forall|d: &mut MainDevice, r: Result<(), Error>|
            #[trigger] call_ensures(MainDevice::prep_configure_subdev_addrs::<F>, (d, count, f), r)
                ==> exists|run: Seq<HandOut>|
                {
                    &&& #[trigger] handed_out(
                        (*d)@,
                        maindevice::addressing_plan(count),
                        run,
                        (*final(d))@,
                    )
                    &&& in_turn((*d)@, run, (*final(d))@, count as int, r)
                    &&& forall|i: int|
                        #![trigger run[i]]
                        0 <= i < run.len() ==> exists|
                            e: &mut MainDevice,
                            position: u16,
                            address: u16,
                        |
                            {
                                &&& (*e)@ == run[i].ready
                                &&& (*final(e))@ == run[i].after
                                &&& position == i
                                &&& address == (0x1000 + i) % 0x1_0000
                                &&& #[trigger] call_ensures(
                                    f,
                                    (e, run[i].prepared, position, address),
                                    run[i].answer,
                                )
                            }
                },
{
    lemma_in_turn(maindevice::addressing_plan(count));
    assert forall|i: int| 0 <= i < count implies (#[trigger] maindevice::addressing_positions(
        count,
    )[i]) == i && maindevice::addressing_addresses(count)[i] == (0x1000 + i) % 0x1_0000 by {
        maindevice::law_everyone_is_addressed(count, i);
    }
}

/// What [`MainDevice::prep_latch_dc_times`] does with a callback: it hands out two reads for each
/// SubDevice that takes part in distributed clocks in turn, each with the place in the list of the
/// very SubDevice that the frame reads, and with the main device in hand.
pub proof fn law_latched_times_are_handed_out<
    F: FnMut(&mut MainDevice, Prepared, u16) -> Result<(), Error>,
>(list: &[SubDevice], f: F)
    requires
        list@.len() <= 0x1_0000,
    ensures
        forall|d: &mut MainDevice, r: Result<u16, Error>|
            #[trigger] call_ensures(MainDevice::prep_latch_dc_times::<F>, (d, list, f), r)
                ==> exists|run: Seq<HandOut>|
                {
                    &&& #[trigger] handed_out(
                        (*d)@,
                        maindevice::latch_plan(list@),
                        run,
                        (*final(d))@,
                    )
                    &&& in_turn(
                        (*d)@,
                        run,
                        (*final(d))@,
                        maindevice::latch_plan(list@).len() as int,
                        match r {
                            Ok(_) => Ok::<(), Error>(()),
                            Err(e) => Err(e),
                        },
                    )
                    &&& forall|i: int|
                        #![trigger run[i]]
                        0 <= i < run.len() ==> exists|e: &mut MainDevice, place: u16|
                            {
                                &&& (*e)@ == run[i].ready
                                &&& (*final(e))@ == run[i].after
                                &&& reads_place(list@, maindevice::latch_plan(list@)[i], place)
                                &&& #[trigger] call_ensures(
                                    f,
                                    (e, run[i].prepared, place),
                                    run[i].answer,
                                )
                            }
                },
{
    let plan = maindevice::latch_plan(list@);
    lemma_in_turn(plan);
    assert forall|i: int| 0 <= i < plan.len() implies reads_place(
        list@,
        plan[i],
        #[trigger] maindevice::latch_ids(list@)[i],
    ) by {
        maindevice::law_frames_read_the_subdevice_at_their_place(list@, i);
    }
}

/// Whether a PDU is a read of the SubDevice at a place in a list, which takes part in distributed
/// clocks.
pub open spec fn reads_place(list: Seq<SubDevice>, pdu: PduView, place: u16) -> bool {
    &&& place < list.len()
    &&& list[place as int].dc_support !is Unsupported
    &&& pdu.command matches Command::Fprd { address, .. }
    &&& address == list[place as int].configured_address
}

} // verus!
