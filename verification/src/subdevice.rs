//! SubDevices: what the main device knows of one, and the application states it can be in.

use crate::wire;
use crate::wire::{pack_bit, unpack_u16, WireError};
use vstd::prelude::*;

verus! {

/// The configured address of the first SubDevice in the network.
pub const BASE_SUBDEVICE_ADDRESS: u16 = 0x1000;

/// The application state of a SubDevice.
#[derive(Clone, Copy, Debug, PartialEq, Eq, Structural)]
pub enum SubDeviceState {
    /// No state recorded, or the states of several SubDevices that differ.
    NoState,
    /// `INIT`.
    Init,
    /// `PRE-OP`.
    PreOp,
    /// `BOOT`.
    Bootstrap,
    /// `SAFE-OP`.
    SafeOp,
    /// `OP`.
    Op,
    /// Bits that stand for no single state.
    Other(u8),
}

impl SubDeviceState {
    /// The number that stands for the state on the wire.
    pub open spec fn raw(self) -> u8 {
        match self {
            SubDeviceState::NoState => 0x00,
            SubDeviceState::Init => 0x01,
            SubDeviceState::PreOp => 0x02,
            SubDeviceState::Bootstrap => 0x03,
            SubDeviceState::SafeOp => 0x04,
            SubDeviceState::Op => 0x08,
            SubDeviceState::Other(bits) => bits,
        }
    }

    /// The state that a number stands for.
    pub open spec fn of(raw: u8) -> SubDeviceState {
        if raw == 0x00 {
            SubDeviceState::NoState
        } else if raw == 0x01 {
            SubDeviceState::Init
        } else if raw == 0x02 {
            SubDeviceState::PreOp
        } else if raw == 0x03 {
            SubDeviceState::Bootstrap
        } else if raw == 0x04 {
            SubDeviceState::SafeOp
        } else if raw == 0x08 {
            SubDeviceState::Op
        } else {
            SubDeviceState::Other(raw)
        }
    }

    /// The number that stands for the state on the wire.
    pub fn code(&self) -> (r: u8)
        ensures
            r == self.raw(),
    {
        match self {
            SubDeviceState::NoState => 0x00,
            SubDeviceState::Init => 0x01,
            SubDeviceState::PreOp => 0x02,
            SubDeviceState::Bootstrap => 0x03,
            SubDeviceState::SafeOp => 0x04,
            SubDeviceState::Op => 0x08,
            SubDeviceState::Other(bits) => *bits,
        }
    }

    /// The state that a number stands for.
    pub fn from_code(raw: u8) -> (r: SubDeviceState)
        ensures
            r == SubDeviceState::of(raw),
    {
        match raw {
            0x00 => SubDeviceState::NoState,
            0x01 => SubDeviceState::Init,
            0x02 => SubDeviceState::PreOp,
            0x03 => SubDeviceState::Bootstrap,
            0x04 => SubDeviceState::SafeOp,
            0x08 => SubDeviceState::Op,
            _ => SubDeviceState::Other(raw),
        }
    }
}

/// The AL control and AL status registers, two bytes each, defined in ETG1000.6 Section 5.3.
#[derive(Clone, Copy, Debug, PartialEq, Eq, Structural)]
pub struct AlControl {
    /// The state that is asked for, or was reached; four bits are sent.
    pub state: SubDeviceState,
    /// An error occurred, or is acknowledged.
    pub error: bool,
    /// The identification of the SubDevice is asked for.
    pub id_request: bool,
}

/// The number of bytes of [`AlControl`].
pub const AL_CONTROL_LEN: u16 = 2;

impl AlControl {
    /// The two bytes. Of the state only the four lowest bits are sent.
    pub open spec fn packed(self) -> Seq<u8> {
        seq![
            (self.state.raw() % 16 + 16 * wire::bit(self.error) + 32 * wire::bit(
                self.id_request,
            )) as u8,
            0,
        ]
    }

    /// What the first byte of the two says.
    pub open spec fn of(first: u8) -> AlControl {
        AlControl {
            state: SubDeviceState::of(first % 16),
            error: first / 16 % 2 == 1,
            id_request: first / 32 % 2 == 1,
        }
    }

    /// What the first two bytes of `buf` say.
    pub open spec fn unpacked(buf: Seq<u8>) -> Result<AlControl, WireError> {
        if buf.len() < 2 {
            Err(WireError::ReadBufferTooShort)
        } else {
            Ok(AlControl::of(buf[0]))
        }
    }

    /// Asks for a state.
    pub open spec fn request(state: SubDeviceState) -> AlControl {
        AlControl { state, error: false, id_request: false }
    }

    /// Asks for `INIT` and acknowledges whatever error there was.
    pub open spec fn back_to_init() -> AlControl {
        AlControl { state: SubDeviceState::Init, error: true, id_request: false }
    }

    /// Asks for a state.
    pub fn new(state: SubDeviceState) -> (r: AlControl)
        ensures
            r == AlControl::request(state),
    {
        AlControl { state, error: false, id_request: false }
    }

    /// Asks for `INIT` and acknowledges whatever error there was.
    pub fn reset() -> (r: AlControl)
        ensures
            r == AlControl::back_to_init(),
    {
        AlControl { state: SubDeviceState::Init, error: true, id_request: false }
    }

    /// Packs the value.
    pub fn pack(&self) -> (buf: [u8; 2])
        ensures
            buf@ == self.packed(),
    {
        let first: u8 = self.state.code() % 16 + 16 * pack_bit(self.error) + 32 * pack_bit(
            self.id_request,
        );
        let buf = [first, 0];
        assert(buf@ =~= self.packed());
        buf
    }

    /// Reads a value from the first two bytes of `buf`.
    pub fn unpack_from_slice(buf: &[u8]) -> (r: Result<AlControl, WireError>)
        ensures
            r == AlControl::unpacked(buf@),
    {
        if buf.len() < 2 {
            return Err(WireError::ReadBufferTooShort);
        }
        let first: u8 = buf[0];
        Ok(
            AlControl {
                state: SubDeviceState::from_code(first % 16),
                error: first / 16 % 2 == 1,
                id_request: first / 32 % 2 == 1,
            },
        )
    }
}

/// A value that was packed, whatever follows it, is read back as it was, if its state is one that
/// four bits stand for.
pub proof fn law_al_control_round_trip(c: AlControl, rest: Seq<u8>)
    requires
        c.state == SubDeviceState::of(c.state.raw()),
        c.state.raw() < 16,
    ensures
        AlControl::unpacked(c.packed() + rest) == Ok::<AlControl, WireError>(c),
{
    let buf = c.packed() + rest;
    assert(buf[0] == c.packed()[0]);
}

/// The AL status code register: why a SubDevice did not reach a state.
#[derive(Clone, Copy, Debug, PartialEq, Eq, Structural)]
pub struct AlStatusCode {
    /// The code, as listed in ETG1000.6 Table 11.
    pub code: u16,
}

/// The number of bytes of [`AlStatusCode`].
pub const AL_STATUS_CODE_LEN: u16 = 2;

/// The code of an error that is not specified further.
pub const UNSPECIFIED_ERROR: u16 = 0x0001;

impl AlStatusCode {
    /// What the first two bytes of `buf` say.
    pub open spec fn unpacked(buf: Seq<u8>) -> Result<AlStatusCode, WireError> {
        if buf.len() < 2 {
            Err(WireError::ReadBufferTooShort)
        } else {
            Ok(AlStatusCode { code: wire::u16_of(buf[0], buf[1]) })
        }
    }

    /// Reads a code from the first two bytes of `buf`.
    pub fn unpack_from_slice(buf: &[u8]) -> (r: Result<AlStatusCode, WireError>)
        ensures
            r == AlStatusCode::unpacked(buf@),
    {
        if buf.len() < 2 {
            return Err(WireError::ReadBufferTooShort);
        }
        Ok(AlStatusCode { code: unpack_u16(buf[0], buf[1]) })
    }
}

/// How far a SubDevice takes part in distributed clocks.
#[derive(Clone, Copy, Debug, PartialEq, Eq, Structural)]
pub enum DcSupport {
    /// Not at all.
    Unsupported,
    /// It only records when frames pass.
    RefOnly,
    /// It has a 32 bit clock.
    Bits32,
    /// It has a 64 bit clock.
    Bits64,
}

impl DcSupport {
    /// Whether the SubDevice takes part at all.
    pub fn any(&self) -> (r: bool)
        ensures
            r == (*self !is Unsupported),
    {
        !matches!(self, DcSupport::Unsupported)
    }
}

/// What the main device knows of a SubDevice.
#[derive(Clone, Debug, PartialEq, Eq)]
pub struct SubDevice {
    /// Its position in the network.
    pub index: u16,
    /// Its name, as its EEPROM gives it.
    pub name: String,
    /// The address that the main device gave it.
    pub configured_address: u16,
    /// How far it takes part in distributed clocks.
    pub dc_support: DcSupport,
    /// When a latching frame reached it, by its own clock.
    pub dc_receive_time: u64,
    /// How long a frame takes to reach it, in nanoseconds.
    pub propagation_delay: u32,
}

impl SubDevice {
    /// Its name, as its EEPROM gives it.
    pub fn name(&self) -> (r: &str)
        ensures
            r@ == self.name@,
    {
        self.name.as_str()
    }

    /// The address that the main device gave it.
    pub fn configured_address(&self) -> (r: u16)
        ensures
            r == self.configured_address,
    {
        self.configured_address
    }

    /// How far it takes part in distributed clocks.
    pub fn dc_support(&self) -> (r: DcSupport)
        ensures
            r == self.dc_support,
    {
        self.dc_support
    }
}

/// The address given to the SubDevice at a position in the network.
pub open spec fn configured_address_of(position: u16) -> u16 {
    ((BASE_SUBDEVICE_ADDRESS + position) % 0x1_0000) as u16
}

/// The address given to the SubDevice at a position in the network.
pub fn configured_address(position: u16) -> (r: u16)
    ensures
        r == configured_address_of(position),
{
    BASE_SUBDEVICE_ADDRESS.wrapping_add(position)
}

/// SubDevices at different positions are given different addresses.
pub proof fn law_configured_addresses_distinct(p: u16, q: u16)
    requires
        configured_address_of(p) == configured_address_of(q),
    ensures
        p == q,
{
}

/// The numbers that stand for the states, which are read as the states they are sent for; any other
/// number is kept as it is.
pub proof fn law_state_codes(raw: u8)
    ensures
        SubDeviceState::NoState.raw() == 0,
        SubDeviceState::Init.raw() == 1,
        SubDeviceState::PreOp.raw() == 2,
        SubDeviceState::Bootstrap.raw() == 3,
        SubDeviceState::SafeOp.raw() == 4,
        SubDeviceState::Op.raw() == 8,
        SubDeviceState::Other(raw).raw() == raw,
        SubDeviceState::of(raw).raw() == raw,
        SubDeviceState::of(raw) is Other <==> raw > 4 && raw != 8,
{
}

/// The state is the four lowest bits of the first byte, the error the fifth, and the request for
/// identification the sixth, for sending and for reading. The second byte says nothing.
pub proof fn law_al_control_bits(c: AlControl, buf: Seq<u8>)
    ensures
        AL_CONTROL_LEN == 2,
        c.packed().len() == 2,
        c.packed()[0] % 16 == c.state.raw() % 16,
        c.packed()[0] / 16 % 2 == 1 <==> c.error,
        c.packed()[0] / 32 % 2 == 1 <==> c.id_request,
        c.packed()[0] < 64,
        c.packed()[1] == 0,
        match AlControl::unpacked(buf) {
            Ok(read) => {
                &&& buf.len() >= 2
                &&& read.state.raw() == buf[0] % 16
                &&& read.state is Other <==> buf[0] % 16 > 4 && buf[0] % 16 != 8
                &&& read.error <==> buf[0] / 16 % 2 == 1
                &&& read.id_request <==> buf[0] / 32 % 2 == 1
            },
            Err(e) => buf.len() < 2 && e is ReadBufferTooShort,
        },
{
}

/// To ask for a state asks for nothing else. To reset asks for `INIT` and acknowledges an error.
pub proof fn law_state_requests(state: SubDeviceState)
    ensures
        AlControl::request(state).state == state,
        !AlControl::request(state).error,
        !AlControl::request(state).id_request,
        AlControl::back_to_init().state is Init,
        AlControl::back_to_init().error,
        !AlControl::back_to_init().id_request,
{
}

/// A status code is read from two bytes, the lower one first.
pub proof fn law_status_code_bytes(buf: Seq<u8>)
    ensures
        AL_STATUS_CODE_LEN == 2,
        UNSPECIFIED_ERROR == 1,
        match AlStatusCode::unpacked(buf) {
            Ok(read) => buf.len() >= 2 && read.code == buf[0] + 256 * buf[1],
            Err(e) => buf.len() < 2 && e is ReadBufferTooShort,
        },
{
}

/// The first SubDevice is given the address 0x1000, and each further one the next address, which
/// after the last one is zero.
pub proof fn law_configured_addresses_follow(position: u16)
    ensures
        BASE_SUBDEVICE_ADDRESS == 0x1000,
        position < 0xf000 ==> configured_address_of(position) == 0x1000 + position,
        position >= 0xf000 ==> configured_address_of(position) == position - 0xf000,
{
}

/// What the functions on states, on SubDevices and on their addresses do.
pub proof fn law_subdevice_functions(
    control: AlControl,
    packed: [u8; 2],
    buf: &[u8],
    read: Result<AlControl, WireError>,
    code: Result<AlStatusCode, WireError>,
    state: SubDeviceState,
    asked: AlControl,
    back: AlControl,
    position: u16,
    address: u16,
)
    requires
        call_ensures(AlControl::pack, (&control,), packed),
        call_ensures(AlControl::unpack_from_slice, (buf,), read),
        call_ensures(AlStatusCode::unpack_from_slice, (buf,), code),
        call_ensures(AlControl::new, (state,), asked),
        call_ensures(AlControl::reset, (), back),
        call_ensures(configured_address, (position,), address),
    ensures
        packed@[0] % 16 == control.state.raw() % 16,
        packed@[0] / 16 % 2 == 1 <==> control.error,
        packed@[0] / 32 % 2 == 1 <==> control.id_request,
        packed@[1] == 0,
        read is Ok <==> buf@.len() >= 2,
        read matches Ok(c) ==> {
            &&& c.state.raw() == buf@[0] % 16
            &&& c.error <==> buf@[0] / 16 % 2 == 1
            &&& c.id_request <==> buf@[0] / 32 % 2 == 1
        },
        code is Ok <==> buf@.len() >= 2,
        code matches Ok(c) ==> c.code == buf@[0] + 256 * buf@[1],
        asked.state == state && !asked.error && !asked.id_request,
        back.state is Init && back.error && !back.id_request,
        address == (0x1000 + position) % 0x1_0000,
{
    law_al_control_bits(control, buf@);
}

/// What is known of a SubDevice is what was put there. It takes part in distributed clocks unless
/// it does not support them.
pub proof fn law_what_a_subdevice_tells(
    s: &SubDevice,
    name: &str,
    address: u16,
    support: DcSupport,
    any: bool,
)
    requires
        call_ensures(SubDevice::name, (s,), name),
        call_ensures(SubDevice::configured_address, (s,), address),
        call_ensures(SubDevice::dc_support, (s,), support),
        call_ensures(DcSupport::any, (&support,), any),
    ensures
        name@ == s.name@,
        address == s.configured_address,
        support == s.dc_support,
        any <==> s.dc_support is RefOnly || s.dc_support is Bits32 || s.dc_support is Bits64,
{
}

} // verus!
