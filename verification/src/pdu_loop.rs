//! Frames: which slots are in use, how a PDU is laid out in a frame, and how its response is read.

use crate::command::{Command, PduView};
use crate::error::{Error, PduError};
use crate::wire;
use crate::wire::{pack_u16, push_zeros, unpack_u16};
use vstd::prelude::*;

verus! {

/// How far the frame in a slot has come.
#[derive(Clone, Copy, Debug, PartialEq, Eq, Structural)]
pub enum FrameState {
    /// The slot is not in use.
    Free,
    /// PDUs are being put into the frame.
    Created,
    /// The frame waits for the sender.
    Sendable,
    /// The frame has been handed to the sender, and its response is awaited.
    Sending,
}

/// The largest number of PDU bytes in a frame: the length field of a frame is eleven bits wide.
pub const MAX_FRAME_DATA: usize = 2047;

/// What a PDU takes besides its data: ten bytes of header and two of working counter.
pub const PDU_OVERHEAD_BYTES: usize = 12;

/// The frame slots that a main device sends and receives through.
#[derive(Debug)]
pub struct PduLoop {
    frames: Vec<FrameState>,
    next_frame: usize,
    next_pdu: u8,
    max_frame_data: usize,
    exiting: bool,
    sender_woken: bool,
}

/// What there is to say of a [`PduLoop`].
#[verifier::ext_equal]
pub struct PduLoopState {
    /// How far the frame in each slot has come.
    pub frames: Seq<FrameState>,
    /// The slot where the search for a free one begins.
    pub next_frame: int,
    /// The index of the next PDU.
    pub next_pdu: u8,
    /// How many PDU bytes fit into a frame.
    pub max_frame_data: nat,
    /// Whether the sender and the receiver are to stop and give up the network interface.
    pub exiting: bool,
    /// Whether the sender has been told that there is something to do.
    pub sender_woken: bool,
}

/// A frame that PDUs are being put into.
pub(crate) struct CreatedFrame {
    pub(crate) slot: usize,
    pub(crate) payload: Vec<u8>,
}

/// A frame that is ready to be sent: the EtherCAT frame header and the PDUs. The Ethernet header is
/// the network interface's to add.
#[derive(Debug)]
pub struct SendableFrame {
    /// The slot it takes up until its response has been dealt with.
    pub slot: usize,
    /// The bytes to send.
    pub bytes: Vec<u8>,
}

/// What a [`SendableFrame`] says.
#[verifier::ext_equal]
pub struct SendableFrameView {
    /// The slot it takes up.
    pub slot: int,
    /// The bytes to send.
    pub bytes: Seq<u8>,
}

impl View for SendableFrame {
    type V = SendableFrameView;

    open spec fn view(&self) -> SendableFrameView {
        SendableFrameView { slot: self.slot as int, bytes: self.bytes@ }
    }
}

/// What the response to a PDU is recognised by.
#[derive(Clone, Copy, Debug, PartialEq, Eq, Structural)]
pub struct PduResponseHandle {
    /// The index of the PDU.
    pub pdu_idx: u8,
    /// The code of its command.
    pub command_code: u8,
    /// How many bytes it takes in the frame.
    pub alloc_size: usize,
}

/// The response to a PDU.
#[derive(Debug)]
pub struct ReceivedPdu {
    /// The data.
    pub data: Vec<u8>,
    /// How often SubDevices have handled the PDU.
    pub working_counter: u16,
}

/// What a [`ReceivedPdu`] says.
#[verifier::ext_equal]
pub struct ReceivedPduView {
    /// The data.
    pub data: Seq<u8>,
    /// How often SubDevices have handled the PDU.
    pub working_counter: u16,
}

impl View for ReceivedPdu {
    type V = ReceivedPduView;

    open spec fn view(&self) -> ReceivedPduView {
        ReceivedPduView { data: self.data@, working_counter: self.working_counter }
    }
}

/// How many data bytes a PDU has in its frame.
pub open spec fn data_len(pdu: PduView) -> nat {
    match pdu.len_override {
        Some(len) => if len > pdu.data.len() {
            len as nat
        } else {
            pdu.data.len()
        },
        None => pdu.data.len(),
    }
}

/// A PDU on the wire: the code of its command and its index, its address, the length of its data
/// with no further PDU announced, no interrupts, the data, and the working counter.
pub open spec fn pdu_layout(
    code: u8,
    index: u8,
    address: Seq<u8>,
    data: Seq<u8>,
    working_counter: u16,
) -> Seq<u8> {
    seq![code, index] + address + wire::le16(data.len() as u16) + wire::le16(0) + data
        + wire::le16(working_counter)
}

/// The data of a PDU, filled up with zeros to its length in the frame.
pub open spec fn padded(pdu: PduView) -> Seq<u8> {
    pdu.data + wire::zeros((data_len(pdu) - pdu.data.len()) as nat)
}

/// A PDU as it is sent with an index.
pub open spec fn pdu_bytes(pdu: PduView, index: u8) -> Seq<u8> {
    pdu_layout(pdu.command.raw(), index, pdu.command.address_bytes(), padded(pdu), 0)
}

/// A frame on the wire: the number of PDU bytes, the type that stands for PDUs, and the PDUs.
pub open spec fn frame_layout(payload: Seq<u8>) -> Seq<u8> {
    wire::le16((0x1000 + payload.len()) as u16) + payload
}

/// The first free slot among `tries` slots, going round from `start`.
pub open spec fn first_free(frames: Seq<FrameState>, start: int, tries: nat) -> Option<int>
    decreases tries,
{
    if tries == 0 {
        None
    } else if frames[start] is Free {
        Some(start)
    } else {
        first_free(frames, (start + 1) % frames.len() as int, (tries - 1) as nat)
    }
}

impl PduLoopState {
    /// There are slots, the search begins at one of them, and a full frame can state its length.
    pub open spec fn wf(self) -> bool {
        &&& 0 <= self.next_frame < self.frames.len()
        &&& self.max_frame_data <= MAX_FRAME_DATA
    }

    /// The slot that the next frame takes, if any is free.
    pub open spec fn free_slot(self) -> Option<int> {
        first_free(self.frames, self.next_frame, self.frames.len())
    }

    /// Puts a PDU into a frame of its own and leaves the frame in the state `queued`. The slot is
    /// given back where the PDU does not fit, but its turn has passed, and the index is used up.
    pub open spec fn prepare(self, pdu: PduView, queued: FrameState) -> (
        PduLoopState,
        Result<(SendableFrameView, PduResponseHandle), Error>,
    ) {
        match self.free_slot() {
            None => (self, Err(Error::Pdu(PduError::SwapState))),
            Some(slot) => {
                let passed = PduLoopState {
                    next_frame: (slot + 1) % self.frames.len() as int,
                    next_pdu: ((self.next_pdu + 1) % 256) as u8,
                    ..self
                };
                if data_len(pdu) + PDU_OVERHEAD_BYTES > self.max_frame_data {
                    (passed, Err(Error::Pdu(PduError::TooLong)))
                } else {
                    let frame = SendableFrameView {
                        slot,
                        bytes: frame_layout(pdu_bytes(pdu, self.next_pdu)),
                    };
                    let handle = PduResponseHandle {
                        pdu_idx: self.next_pdu,
                        command_code: pdu.command.raw(),
                        alloc_size: (data_len(pdu) + PDU_OVERHEAD_BYTES) as usize,
                    };
                    (
                        PduLoopState { frames: self.frames.update(slot, queued), ..passed },
                        Ok((frame, handle)),
                    )
                }
            },
        }
    }

    /// Every slot is free again, and the counts start over.
    pub open spec fn cleared(self) -> PduLoopState {
        PduLoopState {
            frames: Seq::new(self.frames.len(), |i: int| FrameState::Free),
            next_frame: 0,
            next_pdu: 0,
            ..self
        }
    }
}

/// What the response `bytes` to a PDU says: the response must carry the command and the index that
/// were sent, and be as long as it says it is.
pub open spec fn response(bytes: Seq<u8>, handle: PduResponseHandle) -> Result<
    ReceivedPduView,
    Error,
> {
    if bytes.len() < 12 {
        Err(Error::Pdu(PduError::Decode))
    } else if bytes[2] != handle.command_code {
        Err(
            Error::Pdu(
                PduError::CommandMismatch { sent: handle.command_code, received: bytes[2] },
            ),
        )
    } else if bytes[3] != handle.pdu_idx {
        Err(Error::Pdu(PduError::IndexMismatch { sent: handle.pdu_idx, received: bytes[3] }))
    } else {
        let len = wire::u16_of(bytes[8], bytes[9]) as int % 2048;
        if bytes.len() < 14 + len {
            Err(Error::Pdu(PduError::Decode))
        } else {
            Ok(
                ReceivedPduView {
                    data: bytes.subrange(12, 12 + len),
                    working_counter: wire::u16_of(bytes[12 + len], bytes[13 + len]),
                },
            )
        }
    }
}

/// The frame slots seen from outside.
impl View for PduLoop {
    type V = PduLoopState;

    closed spec fn view(&self) -> PduLoopState {
        PduLoopState {
            frames: self.frames@,
            next_frame: self.next_frame as int,
            next_pdu: self.next_pdu,
            max_frame_data: self.max_frame_data as nat,
            exiting: self.exiting,
            sender_woken: self.sender_woken,
        }
    }
}

impl PduLoop {
    /// Slots for `num_frames` frames of at most `max_frame_data` PDU bytes each.
    pub fn new(num_frames: usize, max_frame_data: usize) -> (r: PduLoop)
        requires
            num_frames > 0,
            max_frame_data <= MAX_FRAME_DATA,
        ensures
            r@.wf(),
            r@ == (PduLoopState {
                frames: Seq::new(num_frames as nat, |i: int| FrameState::Free),
                next_frame: 0,
                next_pdu: 0,
                max_frame_data: max_frame_data as nat,
                exiting: false,
                sender_woken: false,
            }),
    {
        let mut frames: Vec<FrameState> = Vec::new();
        let mut i: usize = 0;
        while i < num_frames
            invariant
                i <= num_frames,
                frames@ == Seq::new(i as nat, |i: int| FrameState::Free),
            decreases num_frames - i,
        {
            frames.push(FrameState::Free);
            i = i + 1;
            assert(frames@ =~= Seq::new(i as nat, |i: int| FrameState::Free));
        }
        PduLoop {
            frames,
            next_frame: 0,
            next_pdu: 0,
            max_frame_data,
            exiting: false,
            sender_woken: false,
        }
    }

    /// How many PDU bytes fit into a frame.
    pub fn max_frame_data(&self) -> (r: usize)
        ensures
            r == self@.max_frame_data,
    {
        self.max_frame_data
    }

    /// Whether the sender and the receiver are to stop and give up the network interface.
    pub fn is_exiting(&self) -> (r: bool)
        ensures
            r == self@.exiting,
    {
        self.exiting
    }

    /// Takes a free slot for a new frame, the first one that comes round.
    #[verifier::rlimit(40)]
    pub(crate) fn alloc_frame(&mut self) -> (r: Result<CreatedFrame, PduError>)
        requires
            old(self)@.wf(),
        ensures
            match old(self)@.free_slot() {
                None => r == Err::<CreatedFrame, PduError>(PduError::SwapState) && final(self)@
                    == old(self)@,
                Some(slot) => {
                    &&& r matches Ok(frame) && frame.slot == slot && frame.payload@.len() == 0
                    &&& 0 <= slot < old(self)@.frames.len()
                    &&& old(self)@.frames[slot] is Free
                    &&& final(self)@ == (PduLoopState {
                        frames: old(self)@.frames.update(slot, FrameState::Created),
                        next_frame: (slot + 1) % old(self)@.frames.len() as int,
                        ..old(self)@
                    })
                },
            },
    {
        let n: usize = self.frames.len();
        let mut slot: usize = self.next_frame;
        let mut tries: usize = n;
        while tries > 0
            invariant
                n == self.frames@.len(),
                slot < n,
                tries <= n,
                self@ == old(self)@,
                old(self)@.free_slot() == first_free(self.frames@, slot as int, tries as nat),
            decreases tries,
        {
            let following: usize = if slot + 1 == n {
                0
            } else {
                slot + 1
            };
            assert(following == (slot + 1) % n as int) by {
                if slot + 1 < n {
                    vstd::arithmetic::div_mod::lemma_small_mod((slot + 1) as nat, n as nat);
                } else {
                    vstd::arithmetic::div_mod::lemma_mod_self_0(n as int);
                }
            }
            if self.frames[slot] == FrameState::Free {
                self.frames.set(slot, FrameState::Created);
                self.next_frame = following;
                return Ok(CreatedFrame { slot, payload: Vec::new() });
            }
            slot = following;
            tries = tries - 1;
        }
        Err(PduError::SwapState)
    }

    /// Puts a PDU into a frame that has none yet. The PDU gets the next index, even where it turns
    /// out not to fit.
    #[verifier::rlimit(40)]
    pub(crate) fn push_pdu(
        &mut self,
        frame: &mut CreatedFrame,
        command: Command,
        data: &[u8],
        len_override: Option<u16>,
    ) -> (r: Result<PduResponseHandle, PduError>)
        requires
            old(self)@.wf(),
            old(frame).payload@.len() == 0,
        ensures
            final(self)@ == (PduLoopState {
                next_pdu: ((old(self)@.next_pdu + 1) % 256) as u8,
                ..old(self)@
            }),
            final(frame).slot == old(frame).slot,
            ({
                let pdu = PduView { command, data: data@, len_override };
                let size = data_len(pdu) + PDU_OVERHEAD_BYTES;
                if size > old(self)@.max_frame_data {
                    r == Err::<PduResponseHandle, PduError>(PduError::TooLong)
                        && final(frame).payload@ == old(frame).payload@
                } else {
                    &&& r == Ok::<PduResponseHandle, PduError>(
                        PduResponseHandle {
                            pdu_idx: old(self)@.next_pdu,
                            command_code: command.raw(),
                            alloc_size: size as usize,
                        },
                    )
                    &&& final(frame).payload@ == pdu_bytes(pdu, old(self)@.next_pdu)
                }
            }),
    {
        let ghost pdu = PduView { command, data: data@, len_override };
        let data_length: usize = match len_override {
            Some(len) => if len as usize > data.len() {
                len as usize
            } else {
                data.len()
            },
            None => data.len(),
        };
        let pdu_idx: u8 = self.next_pdu;
        self.next_pdu = pdu_idx.wrapping_add(1);

        if self.max_frame_data < PDU_OVERHEAD_BYTES || data_length > self.max_frame_data
            - PDU_OVERHEAD_BYTES {
            return Err(PduError::TooLong);
        }
        let command_code: u8 = command.code();
        let address = command.pack();
        let length = pack_u16(data_length as u16);
        let mut payload: Vec<u8> = Vec::new();
        payload.push(command_code);
        payload.push(pdu_idx);
        payload.extend_from_slice(&address);
        payload.extend_from_slice(&length);
        push_zeros(&mut payload, 2);
        payload.extend_from_slice(data);
        push_zeros(&mut payload, data_length - data.len());
        push_zeros(&mut payload, 2);
        assert(wire::le16(0) =~= wire::zeros(2));
        assert(payload@ =~= pdu_bytes(pdu, pdu_idx));
        frame.payload = payload;
        Ok(
            PduResponseHandle {
                pdu_idx,
                command_code,
                alloc_size: data_length + PDU_OVERHEAD_BYTES,
            },
        )
    }

    /// Gives up a frame that is not going to be sent.
    pub(crate) fn drop_frame(&mut self, frame: CreatedFrame)
        requires
            old(self)@.wf(),
            frame.slot < old(self)@.frames.len(),
        ensures
            final(self)@ == (PduLoopState {
                frames: old(self)@.frames.update(frame.slot as int, FrameState::Free),
                ..old(self)@
            }),
    {
        self.frames.set(frame.slot, FrameState::Free);
    }

    /// Closes a frame: its header is put before the PDUs, and its slot goes into the state
    /// `queued`.
    pub(crate) fn close_frame(&mut self, frame: CreatedFrame, queued: FrameState) -> (r:
        SendableFrame)
        requires
            old(self)@.wf(),
            frame.slot < old(self)@.frames.len(),
            frame.payload@.len() <= MAX_FRAME_DATA,
        ensures
            r@ == (SendableFrameView {
                slot: frame.slot as int,
                bytes: frame_layout(frame.payload@),
            }),
            final(self)@ == (PduLoopState {
                frames: old(self)@.frames.update(frame.slot as int, queued),
                ..old(self)@
            }),
    {
        let header = pack_u16(0x1000 + frame.payload.len() as u16);
        let mut bytes: Vec<u8> = Vec::new();
        bytes.extend_from_slice(&header);
        bytes.extend_from_slice(frame.payload.as_slice());
        assert(bytes@ =~= frame_layout(frame.payload@));
        self.frames.set(frame.slot, queued);
        SendableFrame { slot: frame.slot, bytes }
    }

    /// Makes a slot free again, once the response to its frame has been dealt with or given up.
    pub fn release_frame(&mut self, slot: usize)
        requires
            old(self)@.wf(),
            slot < old(self)@.frames.len(),
        ensures
            final(self)@ == (PduLoopState {
                frames: old(self)@.frames.update(slot as int, FrameState::Free),
                ..old(self)@
            }),
    {
        self.frames.set(slot, FrameState::Free);
    }

    /// Tells the sender that there is something to do.
    pub fn wake_sender(&mut self)
        ensures
            final(self)@ == (PduLoopState { sender_woken: true, ..old(self)@ }),
    {
        self.sender_woken = true;
    }

    /// Makes every slot free again and starts the counts over.
    pub fn reset(&mut self)
        requires
            old(self)@.wf(),
        ensures
            final(self)@ == old(self)@.cleared(),
            final(self)@.wf(),
    {
        let n: usize = self.frames.len();
        let mut i: usize = 0;
        while i < n
            invariant
                i <= n,
                n == self.frames@.len(),
                n == old(self)@.frames.len(),
                forall|j: int| 0 <= j < i ==> self.frames@[j] is Free,
                self@ == (PduLoopState { frames: self.frames@, ..old(self)@ }),
            decreases n - i,
        {
            self.frames.set(i, FrameState::Free);
            i = i + 1;
        }
        self.next_frame = 0;
        self.next_pdu = 0;
        assert(self@.frames =~= old(self)@.cleared().frames);
    }

    /// As [`PduLoop::reset`], and tells the sender and the receiver to stop.
    pub fn reset_all(&mut self)
        requires
            old(self)@.wf(),
        ensures
            final(self)@ == (PduLoopState { exiting: true, ..old(self)@.cleared() }),
            final(self)@.wf(),
    {
        self.reset();
        self.exiting = true;
    }
}

impl ReceivedPduView {
    /// The response, if SubDevices have handled the PDU as often as was called for.
    pub open spec fn counted(self, expected: Option<u16>) -> Result<ReceivedPduView, Error> {
        match expected {
            Some(expected) => if self.working_counter == expected {
                Ok(self)
            } else {
                Err(Error::WorkingCounter { expected, received: self.working_counter })
            },
            None => Ok(self),
        }
    }
}

impl ReceivedPdu {
    /// The response, if SubDevices have handled the PDU as often as was called for. With no
    /// expectation any count is accepted.
    pub fn maybe_wkc(self, expected: Option<u16>) -> (r: Result<ReceivedPdu, Error>)
        ensures
            match r {
                Ok(pdu) => self@.counted(expected) == Ok::<ReceivedPduView, Error>(pdu@),
                Err(e) => self@.counted(expected) == Err::<ReceivedPduView, Error>(e),
            },
    {
        match expected {
            Some(expected) => {
                let received: u16 = self.working_counter;
                if received == expected {
                    Ok(self)
                } else {
                    Err(Error::WorkingCounter { expected, received })
                }
            },
            None => Ok(self),
        }
    }
}

/// Reads the response to a PDU.
pub fn first_pdu(bytes: &[u8], handle: &PduResponseHandle) -> (r: Result<ReceivedPdu, Error>)
    ensures
        match r {
            Ok(pdu) => response(bytes@, *handle) == Ok::<ReceivedPduView, Error>(pdu@),
            Err(e) => response(bytes@, *handle) == Err::<ReceivedPduView, Error>(e),
        },
{
    if bytes.len() < 12 {
        return Err(Error::Pdu(PduError::Decode));
    }
    if bytes[2] != handle.command_code {
        return Err(
            Error::Pdu(
                PduError::CommandMismatch { sent: handle.command_code, received: bytes[2] },
            ),
        );
    }
    if bytes[3] != handle.pdu_idx {
        return Err(
            Error::Pdu(PduError::IndexMismatch { sent: handle.pdu_idx, received: bytes[3] }),
        );
    }
    let len: usize = (unpack_u16(bytes[8], bytes[9]) % 2048) as usize;
    if bytes.len() < 14 + len {
        return Err(Error::Pdu(PduError::Decode));
    }
    let mut data: Vec<u8> = Vec::new();
    let mut i: usize = 0;
    while i < len
        invariant
            i <= len,
            len < 2048,
            14 + len <= bytes@.len(),
            data@ == bytes@.subrange(12, 12 + i),
        decreases len - i,
    {
        data.push(bytes[12 + i]);
        i = i + 1;
        assert(data@ =~= bytes@.subrange(12, 12 + i));
    }
    Ok(ReceivedPdu { data, working_counter: unpack_u16(bytes[12 + len], bytes[13 + len]) })
}

proof fn lemma_first_free(frames: Seq<FrameState>, start: int, tries: nat)
    requires
        0 <= start < frames.len(),
        tries <= frames.len(),
    ensures
        match first_free(frames, start, tries) {
            Some(slot) => 0 <= slot < frames.len() && frames[slot] is Free,
            None => forall|d: int|
                0 <= d < tries ==> frames[#[trigger] ((start + d) % frames.len() as int)] !is Free,
        },
    decreases tries,
{
    let n = frames.len() as int;
    if tries > 0 && frames[start] !is Free {
        let following = (start + 1) % n;
        lemma_first_free(frames, following, (tries - 1) as nat);
        if first_free(frames, start, tries) is None {
            assert forall|d: int| 0 <= d < tries implies frames[#[trigger] ((start + d) % n)]
                !is Free by {
                if d == 0 {
                    vstd::arithmetic::div_mod::lemma_small_mod(start as nat, n as nat);
                } else {
                    assert((following + (d - 1)) % n == (start + d) % n) by {
                        vstd::arithmetic::div_mod::lemma_add_mod_noop_right(d - 1, start + 1, n);
                    }
                    assert(frames[(following + (d - 1)) % n] !is Free);
                }
            }
        }
    }
}

/// A frame is refused a slot only where every slot is in use, and is given none that is in use.
pub proof fn law_free_slot(s: PduLoopState)
    requires
        s.wf(),
    ensures
        s.free_slot() is None <==> forall|i: int| 0 <= i < s.frames.len() ==> s.frames[i] !is Free,
        s.free_slot() matches Some(slot) ==> 0 <= slot < s.frames.len() && s.frames[slot] is Free,
{
    let n = s.frames.len() as int;
    lemma_first_free(s.frames, s.next_frame, s.frames.len());
    if s.free_slot() is None {
        assert forall|i: int| 0 <= i < n implies s.frames[i] !is Free by {
            let d = (i - s.next_frame) % n;
            assert((s.next_frame + d) % n == i) by {
                vstd::arithmetic::div_mod::lemma_add_mod_noop_right(
                    s.next_frame,
                    i - s.next_frame,
                    n,
                );
                vstd::arithmetic::div_mod::lemma_small_mod(i as nat, n as nat);
            }
            assert(0 <= d < n);
        }
    }
}

/// Preparing a PDU fails only where no slot is free or the PDU is too long. It takes at most one
/// slot, one that was free, and leaves every other slot as it was.
pub proof fn law_prepare_takes_a_free_slot(s: PduLoopState, pdu: PduView, queued: FrameState)
    requires
        s.wf(),
    ensures
        s.prepare(pdu, queued).0.wf(),
        s.prepare(pdu, queued).1 is Ok <==> (exists|i: int|
            0 <= i < s.frames.len() && s.frames[i] is Free) && data_len(pdu) + PDU_OVERHEAD_BYTES
            <= s.max_frame_data,
        match s.prepare(pdu, queued).1 {
            Ok((frame, handle)) => {
                &&& 0 <= frame.slot < s.frames.len()
                &&& s.frames[frame.slot] is Free
                &&& s.prepare(pdu, queued).0.frames == s.frames.update(frame.slot, queued)
            },
            Err(e) => s.prepare(pdu, queued).0.frames == s.frames,
        },
{
    law_free_slot(s);
    if let Some(slot) = s.free_slot() {
        vstd::arithmetic::div_mod::lemma_mod_bound(slot + 1, s.frames.len() as int);
    }
}

/// The frame for a PDU, and what its response is recognised by, do not depend on whether the frame
/// waits for the sender or is claimed for sending at once. The slots differ in that state alone.
pub proof fn law_queued_and_claimed_frames_are_alike(s: PduLoopState, pdu: PduView)
    requires
        s.wf(),
    ensures
        s.prepare(pdu, FrameState::Sendable).1 == s.prepare(pdu, FrameState::Sending).1,
        ({
            let queued = s.prepare(pdu, FrameState::Sendable).0;
            let claimed = s.prepare(pdu, FrameState::Sending).0;
            queued == (PduLoopState {
                frames: match s.prepare(pdu, FrameState::Sending).1 {
                    Ok((frame, _)) => claimed.frames.update(frame.slot, FrameState::Sendable),
                    Err(_) => claimed.frames,
                },
                ..claimed
            })
        }),
{
    law_free_slot(s);
    if let Some(slot) = s.free_slot() {
        assert(s.frames.update(slot, FrameState::Sending).update(slot, FrameState::Sendable)
            =~= s.frames.update(slot, FrameState::Sendable));
    }
}

/// Two frames that are prepared one after the other are in different slots, and their PDUs have
/// different indices, if the first is still in use.
pub proof fn law_prepared_frames_are_distinct(
    s: PduLoopState,
    first: PduView,
    second: PduView,
    queued: FrameState,
)
    requires
        s.wf(),
        queued !is Free,
        s.prepare(first, queued).1 is Ok,
        s.prepare(first, queued).0.prepare(second, queued).1 is Ok,
    ensures
        ({
            let (frame, handle) = s.prepare(first, queued).1->Ok_0;
            let (next_frame, next_handle) = s.prepare(first, queued).0.prepare(
                second,
                queued,
            ).1->Ok_0;
            frame.slot != next_frame.slot && handle.pdu_idx != next_handle.pdu_idx
        }),
{
    law_prepare_takes_a_free_slot(s, first, queued);
    law_prepare_takes_a_free_slot(s.prepare(first, queued).0, second, queued);
}

/// Data and working counter are read from a response as the SubDevices left them, whatever they
/// made of the address, if the response carries the command and the index that were sent.
#[verifier::rlimit(40)]
pub proof fn law_response_is_read_back(
    handle: PduResponseHandle,
    address: Seq<u8>,
    data: Seq<u8>,
    working_counter: u16,
    rest: Seq<u8>,
)
    requires
        address.len() == 4,
        data.len() + PDU_OVERHEAD_BYTES <= MAX_FRAME_DATA,
    ensures
        response(
            frame_layout(
                pdu_layout(handle.command_code, handle.pdu_idx, address, data, working_counter),
            ) + rest,
            handle,
        ) == Ok::<ReceivedPduView, Error>(ReceivedPduView { data, working_counter }),
{
    let payload = pdu_layout(
        handle.command_code,
        handle.pdu_idx,
        address,
        data,
        working_counter,
    );
    let bytes = frame_layout(payload) + rest;
    let len = data.len() as int;
    assert(bytes[2] == payload[0] && bytes[3] == payload[1]);
    assert(bytes[8] == wire::le16(len as u16)[0]);
    assert(bytes[9] == wire::le16(len as u16)[1]);
    wire::law_u16_round_trip(len as u16);
    assert(bytes.subrange(12, 12 + len) =~= data);
    assert(bytes[12 + len] == wire::le16(working_counter)[0]);
    assert(bytes[13 + len] == wire::le16(working_counter)[1]);
    wire::law_u16_round_trip(working_counter);
}

/// A frame that comes back as it was sent, with the working counter counted up on the way, is read
/// as the data that was sent, filled up to its length.
#[verifier::rlimit(40)]
pub proof fn law_sent_frame_is_read_back(
    s: PduLoopState,
    pdu: PduView,
    queued: FrameState,
    working_counter: u16,
)
    requires
        s.wf(),
        s.prepare(pdu, queued).1 is Ok,
    ensures
        ({
            let (frame, handle) = s.prepare(pdu, queued).1->Ok_0;
            let sent = frame.bytes;
            let came_back = sent.take(sent.len() - 2) + wire::le16(working_counter);
            response(came_back, handle) == Ok::<ReceivedPduView, Error>(
                ReceivedPduView { data: padded(pdu), working_counter },
            )
        }),
{
    let (frame, handle) = s.prepare(pdu, queued).1->Ok_0;
    let sent = frame.bytes;
    let came_back = sent.take(sent.len() - 2) + wire::le16(working_counter);
    let address = pdu.command.address_bytes();
    let data = padded(pdu);
    law_response_is_read_back(handle, address, data, working_counter, Seq::empty());
    let expected = frame_layout(
        pdu_layout(handle.command_code, handle.pdu_idx, address, data, working_counter),
    );
    assert(came_back =~= expected + Seq::<u8>::empty());
}

proof fn lemma_first_free_in_turn(frames: Seq<FrameState>, start: int, tries: nat, turn: int)
    requires
        0 <= start < frames.len(),
        0 <= turn < tries <= frames.len(),
        frames[(start + turn) % frames.len() as int] is Free,
        forall|d: int|
            0 <= d < turn ==> frames[#[trigger] ((start + d) % frames.len() as int)] !is Free,
    ensures
        first_free(frames, start, tries) == Some((start + turn) % frames.len() as int),
    decreases tries,
{
    let n = frames.len() as int;
    vstd::arithmetic::div_mod::lemma_small_mod(start as nat, n as nat);
    if turn > 0 {
        let following = (start + 1) % n;
        vstd::arithmetic::div_mod::lemma_mod_bound(start + 1, n);
        assert(frames[(start + 0) % n] !is Free);
        assert((following + (turn - 1)) % n == (start + turn) % n) by {
            vstd::arithmetic::div_mod::lemma_add_mod_noop_right(turn - 1, start + 1, n);
        }
        assert forall|d: int| 0 <= d < turn - 1 implies frames[#[trigger] ((following + d) % n)]
            !is Free by {
            assert((following + d) % n == (start + (d + 1)) % n) by {
                vstd::arithmetic::div_mod::lemma_add_mod_noop_right(d, start + 1, n);
            }
        }
        lemma_first_free_in_turn(frames, following, (tries - 1) as nat, turn - 1);
    }
}

/// The slots are tried in turn, from the one after the last that was taken, and the first free one
/// is taken. Its turn has then passed, and the PDU has the next of 256 indices, even where it is
/// too long for a frame: its data, or the length that was asked for if that is more, and twelve
/// further bytes must fit. A slot is in use afterwards only where the PDU fits. Nothing else
/// changes.
pub proof fn law_slots_are_taken_in_turn(
    s: PduLoopState,
    pdu: PduView,
    queued: FrameState,
    turn: int,
)
    requires
        s.wf(),
        0 <= turn < s.frames.len(),
        s.frames[(s.next_frame + turn) % s.frames.len() as int] is Free,
        forall|d: int|
            0 <= d < turn ==> s.frames[#[trigger] ((s.next_frame + d) % s.frames.len() as int)]
                !is Free,
    ensures
        ({
            let slot = (s.next_frame + turn) % s.frames.len() as int;
            let asked: int = match pdu.len_override {
                Some(len) => len as int,
                None => 0,
            };
            let fits = pdu.data.len() + 12 <= s.max_frame_data && asked + 12 <= s.max_frame_data;
            let (after, r) = s.prepare(pdu, queued);
            &&& s.free_slot() == Some(slot)
            &&& slot + 1 < s.frames.len() ==> after.next_frame == slot + 1
            &&& slot + 1 == s.frames.len() ==> after.next_frame == 0
            &&& s.next_pdu < 255 ==> after.next_pdu == s.next_pdu + 1
            &&& s.next_pdu == 255 ==> after.next_pdu == 0
            &&& after.max_frame_data == s.max_frame_data
            &&& after.exiting == s.exiting
            &&& after.sender_woken == s.sender_woken
            &&& after.frames.len() == s.frames.len()
            &&& forall|i: int|
                0 <= i < s.frames.len() && i != slot ==> #[trigger] after.frames[i] == s.frames[i]
            &&& fits ==> {
                &&& after.frames[slot] == queued
                &&& r matches Ok((frame, _))
                &&& frame.slot == slot
            }
            &&& !fits ==> after.frames[slot] is Free && r
                == Err::<(SendableFrameView, PduResponseHandle), Error>(
                Error::Pdu(PduError::TooLong),
            )
        }),
{
    let n = s.frames.len() as int;
    let slot = (s.next_frame + turn) % n;
    lemma_first_free_in_turn(s.frames, s.next_frame, s.frames.len(), turn);
    vstd::arithmetic::div_mod::lemma_mod_bound(s.next_frame + turn, n);
    if slot + 1 < n {
        vstd::arithmetic::div_mod::lemma_small_mod((slot + 1) as nat, n as nat);
    } else {
        vstd::arithmetic::div_mod::lemma_mod_self_0(n);
    }
}

/// Where every slot is in use, nothing is prepared and nothing changes, however short the PDU is.
pub proof fn law_no_slot_is_left(s: PduLoopState, pdu: PduView, queued: FrameState)
    requires
        s.wf(),
        forall|i: int| 0 <= i < s.frames.len() ==> s.frames[i] !is Free,
    ensures
        s.free_slot() is None,
        s.prepare(pdu, queued).0 == s,
        s.prepare(pdu, queued).1 == Err::<(SendableFrameView, PduResponseHandle), Error>(
            Error::Pdu(PduError::SwapState),
        ),
{
    law_free_slot(s);
}

/// What a prepared frame is made of, byte by byte. The first two bytes are the number of bytes that
/// follow them and a one in the highest four bits. The PDU starts with the code of its command and
/// its index; its address; and the number of its data bytes. Two bytes are zero. Then come the
/// bytes that were handed in, each of them, however many there are; zeros up to the length that was
/// asked for, if that is more; and two zeros for the working counter. The response is recognised by
/// that code and that index.
#[verifier::rlimit(40)]
pub proof fn law_frame_bytes(s: PduLoopState, pdu: PduView, queued: FrameState, i: int)
    requires
        s.wf(),
        s.prepare(pdu, queued).1 is Ok,
    ensures
        ({
            let (frame, handle) = s.prepare(pdu, queued).1->Ok_0;
            let b = frame.bytes;
            let n = b.len() - 14;
            let first = b[4] + 256 * b[5];
            let second = b[6] + 256 * b[7];
            &&& match pdu.len_override {
                Some(len) => {
                    &&& n >= len
                    &&& n >= pdu.data.len()
                    &&& n == len || n == pdu.data.len()
                },
                None => n == pdu.data.len(),
            }
            &&& n + 12 <= 2047
            &&& b[0] + 256 * b[1] == 0x1000 + n + 12
            &&& match pdu.command {
                Command::Apwr { address, register } => {
                    b[2] == 2 && first == address && second == register
                },
                Command::Fprd { address, register } => {
                    b[2] == 4 && first == address && second == register
                },
                Command::Fpwr { address, register } => {
                    b[2] == 5 && first == address && second == register
                },
                Command::Brd { register } => b[2] == 7 && first == 0 && second == register,
                Command::Bwr { register } => b[2] == 8 && first == 0 && second == register,
                Command::Lrw { logical } => b[2] == 12 && first + 0x1_0000 * second == logical,
                Command::Frmw { address, register } => {
                    b[2] == 14 && first == address && second == register
                },
            }
            &&& b[3] == s.next_pdu
            &&& b[8] + 256 * b[9] == n
            &&& b[10] == 0 && b[11] == 0
            &&& 0 <= i < pdu.data.len() ==> b[12 + i] == pdu.data[i]
            &&& pdu.data.len() <= i < n ==> b[12 + i] == 0
            &&& b[12 + n] == 0 && b[13 + n] == 0
            &&& handle.command_code == b[2]
            &&& handle.pdu_idx == b[3]
            &&& handle.alloc_size == n + 12
        }),
{
    let (frame, handle) = s.prepare(pdu, queued).1->Ok_0;
    let b = frame.bytes;
    let address = pdu.command.address_bytes();
    let data = padded(pdu);
    let n = data_len(pdu) as int;
    crate::command::law_command_on_the_wire(pdu.command);
    assert(data.len() == n);
    assert(b.len() == 14 + n);
    assert(b[4] == address[0] && b[5] == address[1] && b[6] == address[2] && b[7] == address[3]);
    assert(b[8] == wire::le16(n as u16)[0] && b[9] == wire::le16(n as u16)[1]);
    assert(b[10] == 0 && b[11] == 0);
    assert(b[12 + n] == 0 && b[13 + n] == 0);
    if 0 <= i < n {
        assert(b[12 + i] == data[i]);
    }
}

/// How the response to a PDU is read, byte by byte. It must be there up to its data, carry the
/// command that was sent and then the index, and be as long as the eleven lowest bits of its length
/// say. What is read is then exactly that many bytes, and the working counter from the two bytes
/// after them.
pub proof fn law_response_bytes(bytes: Seq<u8>, handle: PduResponseHandle, i: int)
    ensures
        ({
            let len = (bytes[8] + 256 * bytes[9]) % 2048;
            match response(bytes, handle) {
                Ok(pdu) => {
                    &&& bytes.len() >= 14 + len
                    &&& bytes[2] == handle.command_code
                    &&& bytes[3] == handle.pdu_idx
                    &&& pdu.data.len() == len
                    &&& 0 <= i < len ==> pdu.data[i] == bytes[12 + i]
                    &&& pdu.working_counter == bytes[12 + len] + 256 * bytes[13 + len]
                },
                Err(Error::Pdu(PduError::CommandMismatch { sent, received })) => {
                    &&& bytes.len() >= 12
                    &&& sent == handle.command_code
                    &&& received == bytes[2]
                    &&& sent != received
                },
                Err(Error::Pdu(PduError::IndexMismatch { sent, received })) => {
                    &&& bytes.len() >= 12
                    &&& bytes[2] == handle.command_code
                    &&& sent == handle.pdu_idx
                    &&& received == bytes[3]
                    &&& sent != received
                },
                Err(Error::Pdu(PduError::Decode)) => {
                    ||| bytes.len() < 12
                    ||| {
                        &&& bytes[2] == handle.command_code
                        &&& bytes[3] == handle.pdu_idx
                        &&& bytes.len() < 14 + len
                    }
                },
                Err(_) => false,
            }
        }),
{
}

/// A response is refused exactly where a count is called for and SubDevices have handled the PDU
/// another number of times, which the error tells along with the number that was called for. Where
/// it is not refused it is left as it was.
pub proof fn law_working_counter_is_compared(pdu: ReceivedPduView, expected: Option<u16>)
    ensures
        match pdu.counted(expected) {
            Ok(kept) => kept == pdu && (expected matches Some(count) ==> count
                == pdu.working_counter),
            Err(e) => expected matches Some(count) && count != pdu.working_counter && e
                == (Error::WorkingCounter { expected: count, received: pdu.working_counter }),
        },
{
}

/// After a reset as many slots as before are all free, and both counts are at their beginning. How
/// long a frame may be, and what the sender has been told, stays as it was.
pub proof fn law_reset_frees_every_slot(s: PduLoopState, i: int)
    ensures
        s.cleared().frames.len() == s.frames.len(),
        0 <= i < s.frames.len() ==> s.cleared().frames[i] is Free,
        s.cleared().next_frame == 0,
        s.cleared().next_pdu == 0,
        s.cleared().max_frame_data == s.max_frame_data,
        s.cleared().exiting == s.exiting,
        s.cleared().sender_woken == s.sender_woken,
{
}

/// What is said of a frame and of a response is what is in them.
pub proof fn law_frames_are_what_they_hold(frame: SendableFrame, pdu: ReceivedPdu)
    ensures
        frame@.slot == frame.slot,
        frame@.bytes == frame.bytes@,
        pdu@.data == pdu.data@,
        pdu@.working_counter == pdu.working_counter,
        MAX_FRAME_DATA == 2047,
        PDU_OVERHEAD_BYTES == 12,
{
}

/// What the functions that read a response, compare its count and tell of the slots do.
pub proof fn law_slot_functions(
    bytes: &[u8],
    handle: &PduResponseHandle,
    first: Result<ReceivedPdu, Error>,
    pdu: ReceivedPdu,
    expected: Option<u16>,
    compared: Result<ReceivedPdu, Error>,
    slots: &PduLoop,
    exiting: bool,
    max: usize,
)
    requires
        call_ensures(first_pdu, (bytes, handle), first),
        call_ensures(ReceivedPdu::maybe_wkc, (pdu, expected), compared),
        call_ensures(PduLoop::is_exiting, (slots,), exiting),
        call_ensures(PduLoop::max_frame_data, (slots,), max),
    ensures
        ({
            let len = (bytes@[8] + 256 * bytes@[9]) % 2048;
            &&& first is Ok <==> {
                &&& bytes@.len() >= 14 + len
                &&& bytes@[2] == handle.command_code
                &&& bytes@[3] == handle.pdu_idx
            }
            &&& first matches Ok(p) ==> {
                &&& p.data@ == bytes@.subrange(12, 12 + len)
                &&& p.working_counter == bytes@[12 + len] + 256 * bytes@[13 + len]
            }
        }),
        compared is Ok <==> (expected matches Some(count) ==> count == pdu.working_counter),
        compared matches Ok(p) ==> p.data@ == pdu.data@ && p.working_counter == pdu.working_counter,
        compared matches Err(e) ==> e == (Error::WorkingCounter {
            expected: expected->Some_0,
            received: pdu.working_counter,
        }),
        exiting == slots@.exiting,
        max == slots@.max_frame_data,
{
}

} // verus!
