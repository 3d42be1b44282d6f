//! CAN application protocol over EtherCAT: the headers that precede object dictionary transfers.

use crate::wire;
use crate::wire::{pack_bit, pack_u16, unpack_u16, WireError};
use vstd::prelude::*;

verus! {

/// The kind of a CoE message, defined in ETG1000.6 Table 29.
#[derive(Clone, Copy, Debug, PartialEq, Eq, Structural)]
pub enum CoeService {
    /// Emergency.
    Emergency,
    /// SDO request.
    SdoRequest,
    /// SDO response.
    SdoResponse,
    /// TxPDO.
    TxPdo,
    /// RxPDO.
    RxPdo,
    /// TxPDO remote request.
    TxPdoRemoteRequest,
    /// RxPDO remote request.
    RxPdoRemoteRequest,
    /// SDO information.
    SdoInformation,
}

impl CoeService {
    /// The number that stands for it on the wire.
    pub open spec fn raw(self) -> u8 {
        match self {
            CoeService::Emergency => 0x01,
            CoeService::SdoRequest => 0x02,
            CoeService::SdoResponse => 0x03,
            CoeService::TxPdo => 0x04,
            CoeService::RxPdo => 0x05,
            CoeService::TxPdoRemoteRequest => 0x06,
            CoeService::RxPdoRemoteRequest => 0x07,
            CoeService::SdoInformation => 0x08,
        }
    }

    /// What the first byte of `buf` stands for. Later bytes are not looked at.
    pub open spec fn unpacked(buf: Seq<u8>, r: Result<CoeService, WireError>) -> bool {
        match r {
            Ok(v) => buf.len() >= 1 && v.raw() == buf[0],
            Err(WireError::ReadBufferTooShort) => buf.len() == 0,
            Err(WireError::InvalidValue) => buf.len() >= 1 && !(0x01 <= buf[0] <= 0x08),
        }
    }

    /// Packs it into one byte.
    pub fn pack(&self) -> (buf: [u8; 1])
        ensures
            buf@ == seq![self.raw()],
    {
        let raw: u8 = match self {
            CoeService::Emergency => 0x01,
            CoeService::SdoRequest => 0x02,
            CoeService::SdoResponse => 0x03,
            CoeService::TxPdo => 0x04,
            CoeService::RxPdo => 0x05,
            CoeService::TxPdoRemoteRequest => 0x06,
            CoeService::RxPdoRemoteRequest => 0x07,
            CoeService::SdoInformation => 0x08,
        };
        let buf = [raw];
        assert(buf@ =~= seq![self.raw()]);
        buf
    }

    /// Reads a service from the first byte of `buf`.
    pub fn unpack_from_slice(buf: &[u8]) -> (r: Result<CoeService, WireError>)
        ensures
            CoeService::unpacked(buf@, r),
    {
        if buf.len() < 1 {
            return Err(WireError::ReadBufferTooShort);
        }
        match buf[0] {
            0x01 => Ok(CoeService::Emergency),
            0x02 => Ok(CoeService::SdoRequest),
            0x03 => Ok(CoeService::SdoResponse),
            0x04 => Ok(CoeService::TxPdo),
            0x05 => Ok(CoeService::RxPdo),
            0x06 => Ok(CoeService::TxPdoRemoteRequest),
            0x07 => Ok(CoeService::RxPdoRemoteRequest),
            0x08 => Ok(CoeService::SdoInformation),
            _ => Err(WireError::InvalidValue),
        }
    }
}

/// The "command specifier" of an SDO transfer, three bits wide. See ETG1000.6 Section 5.6.2.6.2
/// Table 39.
#[derive(Clone, Copy, Debug, PartialEq, Eq, Structural)]
pub enum CoeCommand {
    /// The object is written.
    Download,
    /// The object is read.
    Upload,
    /// The transfer is given up.
    Abort,
    /// A further segment of an object is read.
    UploadSegment,
}

impl CoeCommand {
    /// The number that stands for it on the wire.
    pub open spec fn raw(self) -> u8 {
        match self {
            CoeCommand::Download => 0x01,
            CoeCommand::Upload => 0x02,
            CoeCommand::Abort => 0x04,
            CoeCommand::UploadSegment => 0x03,
        }
    }

    /// What the first byte of `buf` stands for. Later bytes are not looked at.
    pub open spec fn unpacked(buf: Seq<u8>, r: Result<CoeCommand, WireError>) -> bool {
        match r {
            Ok(v) => buf.len() >= 1 && v.raw() == buf[0],
            Err(WireError::ReadBufferTooShort) => buf.len() == 0,
            Err(WireError::InvalidValue) => buf.len() >= 1 && !(0x01 <= buf[0] <= 0x04),
        }
    }

    /// Packs it into one byte.
    pub fn pack(&self) -> (buf: [u8; 1])
        ensures
            buf@ == seq![self.raw()],
    {
        let raw: u8 = match self {
            CoeCommand::Download => 0x01,
            CoeCommand::Upload => 0x02,
            CoeCommand::Abort => 0x04,
            CoeCommand::UploadSegment => 0x03,
        };
        let buf = [raw];
        assert(buf@ =~= seq![self.raw()]);
        buf
    }

    /// Reads a command from the first byte of `buf`.
    pub fn unpack_from_slice(buf: &[u8]) -> (r: Result<CoeCommand, WireError>)
        ensures
            CoeCommand::unpacked(buf@, r),
    {
        if buf.len() < 1 {
            return Err(WireError::ReadBufferTooShort);
        }
        match buf[0] {
            0x01 => Ok(CoeCommand::Download),
            0x02 => Ok(CoeCommand::Upload),
            0x04 => Ok(CoeCommand::Abort),
            0x03 => Ok(CoeCommand::UploadSegment),
            _ => Err(WireError::InvalidValue),
        }
    }
}

/// What an SDO information message asks for or answers, defined in ETG1000.6 Section 5.6.3.2.
#[derive(Clone, Copy, Debug, PartialEq, Eq, Structural)]
pub enum SdoInfoOpCode {
    /// Asks which objects there are.
    GetObjectDescriptionListRequest,
    /// Lists the objects.
    GetObjectDescriptionListResponse,
    /// Asks about one object.
    GetObjectDescriptionRequest,
    /// Describes one object.
    GetObjectDescriptionResponse,
    /// Asks about one entry of an object.
    GetEntryDescriptionRequest,
    /// Describes one entry of an object.
    GetEntryDescriptionResponse,
    /// Reports that a request failed.
    SdoInfoErrorRequest,
}

impl SdoInfoOpCode {
    /// The number that stands for it on the wire.
    pub open spec fn raw(self) -> u8 {
        match self {
            SdoInfoOpCode::GetObjectDescriptionListRequest => 0x01,
            SdoInfoOpCode::GetObjectDescriptionListResponse => 0x02,
            SdoInfoOpCode::GetObjectDescriptionRequest => 0x03,
            SdoInfoOpCode::GetObjectDescriptionResponse => 0x04,
            SdoInfoOpCode::GetEntryDescriptionRequest => 0x05,
            SdoInfoOpCode::GetEntryDescriptionResponse => 0x06,
            SdoInfoOpCode::SdoInfoErrorRequest => 0x07,
        }
    }

    /// What the first byte of `buf` stands for. Later bytes are not looked at.
    pub open spec fn unpacked(buf: Seq<u8>, r: Result<SdoInfoOpCode, WireError>) -> bool {
        match r {
            Ok(v) => buf.len() >= 1 && v.raw() == buf[0],
            Err(WireError::ReadBufferTooShort) => buf.len() == 0,
            Err(WireError::InvalidValue) => buf.len() >= 1 && !(0x01 <= buf[0] <= 0x07),
        }
    }

    /// Packs it into one byte.
    pub fn pack(&self) -> (buf: [u8; 1])
        ensures
            buf@ == seq![self.raw()],
    {
        let raw: u8 = match self {
            SdoInfoOpCode::GetObjectDescriptionListRequest => 0x01,
            SdoInfoOpCode::GetObjectDescriptionListResponse => 0x02,
            SdoInfoOpCode::GetObjectDescriptionRequest => 0x03,
            SdoInfoOpCode::GetObjectDescriptionResponse => 0x04,
            SdoInfoOpCode::GetEntryDescriptionRequest => 0x05,
            SdoInfoOpCode::GetEntryDescriptionResponse => 0x06,
            SdoInfoOpCode::SdoInfoErrorRequest => 0x07,
        };
        let buf = [raw];
        assert(buf@ =~= seq![self.raw()]);
        buf
    }

    /// Reads an op code from the first byte of `buf`.
    pub fn unpack_from_slice(buf: &[u8]) -> (r: Result<SdoInfoOpCode, WireError>)
        ensures
            SdoInfoOpCode::unpacked(buf@, r),
    {
        if buf.len() < 1 {
            return Err(WireError::ReadBufferTooShort);
        }
        match buf[0] {
            0x01 => Ok(SdoInfoOpCode::GetObjectDescriptionListRequest),
            0x02 => Ok(SdoInfoOpCode::GetObjectDescriptionListResponse),
            0x03 => Ok(SdoInfoOpCode::GetObjectDescriptionRequest),
            0x04 => Ok(SdoInfoOpCode::GetObjectDescriptionResponse),
            0x05 => Ok(SdoInfoOpCode::GetEntryDescriptionRequest),
            0x06 => Ok(SdoInfoOpCode::GetEntryDescriptionResponse),
            0x07 => Ok(SdoInfoOpCode::SdoInfoErrorRequest),
            _ => Err(WireError::InvalidValue),
        }
    }
}

/// The header that starts an SDO transfer, defined in ETG1000.6 Section 5.6.2.1.1.
#[derive(Clone, Copy, Debug, PartialEq, Eq, Structural)]
pub struct InitSdoHeader {
    /// Whether `size` means anything.
    pub size_indicator: bool,
    /// Whether the data is in the message itself.
    pub expedited_transfer: bool,
    /// How many of the four expedited data bytes are unused; two bits are sent.
    pub size: u8,
    /// Whether the entire object is meant rather than one sub-index.
    pub complete_access: bool,
    /// What is to be done.
    pub command: CoeCommand,
    /// The object.
    pub index: u16,
    /// The sub-index of the object.
    pub sub_index: u8,
}

impl InitSdoHeader {
    /// The four bytes of the header. Of `size` only the two lowest bits are sent.
    pub open spec fn packed(self) -> Seq<u8> {
        seq![
            (wire::bit(self.size_indicator) + 2 * wire::bit(self.expedited_transfer) + 4 * (
            self.size % 4) + 16 * wire::bit(self.complete_access) + 32
                * self.command.raw()) as u8,
            wire::le16(self.index)[0],
            wire::le16(self.index)[1],
            self.sub_index,
        ]
    }

    /// What the first four bytes of `buf` say. They are refused where the three command bits are
    /// those of no command.
    pub open spec fn unpacked(buf: Seq<u8>, r: Result<InitSdoHeader, WireError>) -> bool {
        match r {
            Ok(h) => buf.len() >= 4 && h.size < 4 && h.packed() == buf.take(4),
            Err(WireError::ReadBufferTooShort) => buf.len() < 4,
            Err(WireError::InvalidValue) => buf.len() >= 4 && !(0x01 <= buf[0] / 32 <= 0x04),
        }
    }

    /// Packs the header.
    pub fn pack(&self) -> (buf: [u8; 4])
        ensures
            buf@ == self.packed(),
    {
        let index = pack_u16(self.index);
        let command = self.command.pack();
        let first: u8 = pack_bit(self.size_indicator) + 2 * pack_bit(self.expedited_transfer) + 4
            * (self.size % 4) + 16 * pack_bit(self.complete_access) + 32 * command[0];
        let buf = [first, index[0], index[1], self.sub_index];
        assert(buf@ =~= self.packed());
        buf
    }

    /// Reads a header from the first four bytes of `buf`.
    pub fn unpack_from_slice(buf: &[u8]) -> (r: Result<InitSdoHeader, WireError>)
        ensures
            InitSdoHeader::unpacked(buf@, r),
    {
        if buf.len() < 4 {
            return Err(WireError::ReadBufferTooShort);
        }
        let first: u8 = buf[0];
        assert(first == first % 2 + 2 * (first / 2 % 2) + 4 * (first / 4 % 4) + 16 * (first / 16
            % 2) + 32 * (first / 32)) by (bit_vector);
        match CoeCommand::unpack_from_slice(&[first / 32]) {
            Ok(command) => {
                let h = InitSdoHeader {
                    size_indicator: first % 2 == 1,
                    expedited_transfer: first / 2 % 2 == 1,
                    size: first / 4 % 4,
                    complete_access: first / 16 % 2 == 1,
                    command,
                    index: unpack_u16(buf[1], buf[2]),
                    sub_index: buf[3],
                };
                assert(h.packed() =~= buf@.take(4));
                Ok(h)
            },
            Err(e) => Err(e),
        }
    }
}

/// The header of a further segment of an SDO transfer, defined in ETG1000.6 Section 5.6.2.3.1.
#[derive(Clone, Copy, Debug, PartialEq, Eq, Structural)]
pub struct SegmentSdoHeader {
    /// Whether no segment follows.
    pub is_last_segment: bool,
    /// Segment data size, `0x00` to `0x07`; three bits are sent.
    pub segment_data_size: u8,
    /// Alternates from one segment to the next.
    pub toggle: bool,
    /// What is to be done with the segment.
    pub command: CoeCommand,
}

impl SegmentSdoHeader {
    /// The byte of the header. Of `segment_data_size` only the three lowest bits are sent.
    pub open spec fn packed(self) -> Seq<u8> {
        seq![
            (wire::bit(self.is_last_segment) + 2 * (self.segment_data_size % 8) + 16 * wire::bit(
                self.toggle,
            ) + 32 * self.command.raw()) as u8,
        ]
    }

    /// What the first byte of `buf` says. It is refused where the three command bits are those of
    /// no command.
    pub open spec fn unpacked(buf: Seq<u8>, r: Result<SegmentSdoHeader, WireError>) -> bool {
        match r {
            Ok(h) => buf.len() >= 1 && h.segment_data_size < 8 && h.packed()[0] == buf[0],
            Err(WireError::ReadBufferTooShort) => buf.len() < 1,
            Err(WireError::InvalidValue) => buf.len() >= 1 && !(0x01 <= buf[0] / 32 <= 0x04),
        }
    }

    /// Packs the header.
    pub fn pack(&self) -> (buf: [u8; 1])
        ensures
            buf@ == self.packed(),
    {
        let command = self.command.pack();
        let first: u8 = pack_bit(self.is_last_segment) + 2 * (self.segment_data_size % 8) + 16
            * pack_bit(self.toggle) + 32 * command[0];
        let buf = [first];
        assert(buf@ =~= self.packed());
        buf
    }

    /// Reads a header from the first byte of `buf`.
    pub fn unpack_from_slice(buf: &[u8]) -> (r: Result<SegmentSdoHeader, WireError>)
        ensures
            SegmentSdoHeader::unpacked(buf@, r),
    {
        if buf.len() < 1 {
            return Err(WireError::ReadBufferTooShort);
        }
        let first: u8 = buf[0];
        match CoeCommand::unpack_from_slice(&[first / 32]) {
            Ok(command) => {
                let h = SegmentSdoHeader {
                    is_last_segment: first % 2 == 1,
                    segment_data_size: first / 2 % 8,
                    toggle: first / 16 % 2 == 1,
                    command,
                };
                assert(h.packed()[0] == first);
                Ok(h)
            },
            Err(e) => Err(e),
        }
    }
}

/// The header of an SDO information message, defined in ETG1000.6 Section 5.6.3.2.
#[derive(Clone, Copy, Debug, PartialEq, Eq, Structural)]
pub struct SdoInfoHeader {
    /// What the message asks for or answers.
    pub op_code: SdoInfoOpCode,
    /// Whether fragments follow.
    pub incomplete: bool,
    /// How many fragments follow.
    pub fragments_left: u16,
}

impl SdoInfoHeader {
    /// The four bytes of the header. The second one is reserved.
    pub open spec fn packed(self) -> Seq<u8> {
        seq![
            (self.op_code.raw() + 128 * wire::bit(self.incomplete)) as u8,
            0,
            wire::le16(self.fragments_left)[0],
            wire::le16(self.fragments_left)[1],
        ]
    }

    /// What the first four bytes of `buf` say, whatever the reserved one is. They are refused
    /// where the seven op code bits are those of no op code.
    pub open spec fn unpacked(buf: Seq<u8>, r: Result<SdoInfoHeader, WireError>) -> bool {
        match r {
            Ok(h) => buf.len() >= 4 && h.packed() == buf.take(4).update(1, 0),
            Err(WireError::ReadBufferTooShort) => buf.len() < 4,
            Err(WireError::InvalidValue) => buf.len() >= 4 && !(0x01 <= buf[0] % 128 <= 0x07),
        }
    }

    /// Packs the header.
    pub fn pack(&self) -> (buf: [u8; 4])
        ensures
            buf@ == self.packed(),
    {
        let op_code = self.op_code.pack();
        let fragments = pack_u16(self.fragments_left);
        let first: u8 = op_code[0] + 128 * pack_bit(self.incomplete);
        let buf = [first, 0, fragments[0], fragments[1]];
        assert(buf@ =~= self.packed());
        buf
    }

    /// Reads a header from the first four bytes of `buf`.
    pub fn unpack_from_slice(buf: &[u8]) -> (r: Result<SdoInfoHeader, WireError>)
        ensures
            SdoInfoHeader::unpacked(buf@, r),
    {
        if buf.len() < 4 {
            return Err(WireError::ReadBufferTooShort);
        }
        let first: u8 = buf[0];
        match SdoInfoOpCode::unpack_from_slice(&[first % 128]) {
            Ok(op_code) => {
                let h = SdoInfoHeader {
                    op_code,
                    incomplete: first / 128 == 1,
                    fragments_left: unpack_u16(buf[2], buf[3]),
                };
                assert(h.packed() =~= buf@.take(4).update(1, 0));
                Ok(h)
            },
            Err(e) => Err(e),
        }
    }
}

/// Subindex access.
#[derive(Clone, Copy, Debug)]
pub enum SubIndex {
    /// Complete access: the entire entry as a single slice of data.
    Complete,
    /// Individual sub-index access.
    Index(u8),
}

impl SubIndex {
    /// Whether the entire entry is accessed.
    pub fn complete_access(&self) -> (r: bool)
        ensures
            r == (*self is Complete),
    {
        matches!(self, SubIndex::Complete)
    }

    /// The sub-index that a transfer starts from. The sub-index 0 counts the sub-indices of an
    /// object, so complete access starts from 1.
    pub fn sub_index(&self) -> (r: u8)
        ensures
            *self is Complete ==> r == 1,
            *self matches SubIndex::Index(idx) ==> r == idx,
    {
        match self {
            SubIndex::Complete => 1,
            SubIndex::Index(idx) => *idx,
        }
    }
}

impl vstd::std_specs::convert::FromSpecImpl<u8> for SubIndex {
    open spec fn obeys_from_spec() -> bool {
        true
    }

    open spec fn from_spec(value: u8) -> SubIndex {
        SubIndex::Index(value)
    }
}

impl From<u8> for SubIndex {
    fn from(value: u8) -> (r: SubIndex) {
        SubIndex::Index(value)
    }
}

/// A service that was packed, whatever follows it, is read back as it was.
pub proof fn law_coe_service_round_trip(
    v: CoeService,
    rest: Seq<u8>,
    r: Result<CoeService, WireError>,
)
    requires
        CoeService::unpacked(seq![v.raw()] + rest, r),
    ensures
        r == Ok::<CoeService, WireError>(v),
{
    assert((seq![v.raw()] + rest)[0] == v.raw());
}

/// A command that was packed, whatever follows it, is read back as it was.
pub proof fn law_coe_command_round_trip(
    v: CoeCommand,
    rest: Seq<u8>,
    r: Result<CoeCommand, WireError>,
)
    requires
        CoeCommand::unpacked(seq![v.raw()] + rest, r),
    ensures
        r == Ok::<CoeCommand, WireError>(v),
{
    assert((seq![v.raw()] + rest)[0] == v.raw());
}

/// An op code that was packed, whatever follows it, is read back as it was.
pub proof fn law_sdo_info_op_code_round_trip(
    v: SdoInfoOpCode,
    rest: Seq<u8>,
    r: Result<SdoInfoOpCode, WireError>,
)
    requires
        SdoInfoOpCode::unpacked(seq![v.raw()] + rest, r),
    ensures
        r == Ok::<SdoInfoOpCode, WireError>(v),
{
    assert((seq![v.raw()] + rest)[0] == v.raw());
}

/// A header that was packed, whatever follows it, is read back as it was, if its `size` fits the
/// two bits that are sent of it.
pub proof fn law_init_sdo_header_round_trip(
    h: InitSdoHeader,
    rest: Seq<u8>,
    r: Result<InitSdoHeader, WireError>,
)
    requires
        h.size < 4,
        InitSdoHeader::unpacked(h.packed() + rest, r),
    ensures
        r == Ok::<InitSdoHeader, WireError>(h),
{
    let buf = h.packed() + rest;
    assert(buf.take(4) =~= h.packed());
    assert(h.command.raw() == buf[0] / 32);
    let g = r->Ok_0;
    assert(g.packed()[0] == h.packed()[0]);
    assert(g.packed()[1] == h.packed()[1]);
    assert(g.packed()[2] == h.packed()[2]);
    assert(g.packed()[3] == h.packed()[3]);
    assert(g.command.raw() == h.command.raw());
}

/// A header that was packed, whatever follows it, is read back as it was, if its size fits the
/// three bits that are sent of it.
pub proof fn law_segment_sdo_header_round_trip(
    h: SegmentSdoHeader,
    rest: Seq<u8>,
    r: Result<SegmentSdoHeader, WireError>,
)
    requires
        h.segment_data_size < 8,
        SegmentSdoHeader::unpacked(h.packed() + rest, r),
    ensures
        r == Ok::<SegmentSdoHeader, WireError>(h),
{
    let buf = h.packed() + rest;
    assert(buf.take(1) =~= h.packed());
    assert(h.command.raw() == buf[0] / 32);
    let g = r->Ok_0;
    assert(g.packed()[0] == h.packed()[0]);
    assert(g.command.raw() == h.command.raw());
}

/// A header that was packed, whatever follows it, is read back as it was.
pub proof fn law_sdo_info_header_round_trip(
    h: SdoInfoHeader,
    rest: Seq<u8>,
    r: Result<SdoInfoHeader, WireError>,
)
    requires
        SdoInfoHeader::unpacked(h.packed() + rest, r),
    ensures
        r == Ok::<SdoInfoHeader, WireError>(h),
{
    let buf = h.packed() + rest;
    assert(buf.take(4).update(1, 0) =~= h.packed());
    assert(h.op_code.raw() == buf[0] % 128);
    let g = r->Ok_0;
    assert(g.packed()[0] == h.packed()[0]);
    assert(g.packed()[2] == h.packed()[2]);
    assert(g.packed()[3] == h.packed()[3]);
    assert(g.op_code.raw() == h.op_code.raw());
}

/// The numbers that stand for the services, the commands and the op codes, as ETG1000.6 has them.
/// Each is read back as what it stands for, and any other byte is refused.
pub proof fn law_coe_numbers(
    buf: Seq<u8>,
    service: Result<CoeService, WireError>,
    command: Result<CoeCommand, WireError>,
    op_code: Result<SdoInfoOpCode, WireError>,
)
    requires
        CoeService::unpacked(buf, service),
        CoeCommand::unpacked(buf, command),
        SdoInfoOpCode::unpacked(buf, op_code),
    ensures
        CoeService::Emergency.raw() == 1,
        CoeService::SdoRequest.raw() == 2,
        CoeService::SdoResponse.raw() == 3,
        CoeService::TxPdo.raw() == 4,
        CoeService::RxPdo.raw() == 5,
        CoeService::TxPdoRemoteRequest.raw() == 6,
        CoeService::RxPdoRemoteRequest.raw() == 7,
        CoeService::SdoInformation.raw() == 8,
        CoeCommand::Download.raw() == 1,
        CoeCommand::Upload.raw() == 2,
        CoeCommand::UploadSegment.raw() == 3,
        CoeCommand::Abort.raw() == 4,
        SdoInfoOpCode::GetObjectDescriptionListRequest.raw() == 1,
        SdoInfoOpCode::GetObjectDescriptionListResponse.raw() == 2,
        SdoInfoOpCode::GetObjectDescriptionRequest.raw() == 3,
        SdoInfoOpCode::GetObjectDescriptionResponse.raw() == 4,
        SdoInfoOpCode::GetEntryDescriptionRequest.raw() == 5,
        SdoInfoOpCode::GetEntryDescriptionResponse.raw() == 6,
        SdoInfoOpCode::SdoInfoErrorRequest.raw() == 7,
        buf.len() == 0 ==> {
            &&& service == Err::<CoeService, WireError>(WireError::ReadBufferTooShort)
            &&& command == Err::<CoeCommand, WireError>(WireError::ReadBufferTooShort)
            &&& op_code == Err::<SdoInfoOpCode, WireError>(WireError::ReadBufferTooShort)
        },
        buf.len() > 0 ==> {
            &&& service is Ok <==> 1 <= buf[0] <= 8
            &&& service matches Ok(v) ==> v.raw() == buf[0]
            &&& service matches Err(e) ==> e is InvalidValue
            &&& command is Ok <==> 1 <= buf[0] <= 4
            &&& command matches Ok(v) ==> v.raw() == buf[0]
            &&& command matches Err(e) ==> e is InvalidValue
            &&& op_code is Ok <==> 1 <= buf[0] <= 7
            &&& op_code matches Ok(v) ==> v.raw() == buf[0]
            &&& op_code matches Err(e) ==> e is InvalidValue
        },
{
}

/// Whether the bits of four bytes are those of a header that starts an SDO transfer: from the
/// lowest bit on, the size indicator, the expedited transfer, two bits of size, complete access and
/// three bits of command; then the object, lower byte first, and the sub-index.
spec fn starts_transfer(b: Seq<u8>, h: InitSdoHeader) -> bool {
    &&& b[0] % 2 == 1 <==> h.size_indicator
    &&& b[0] / 2 % 2 == 1 <==> h.expedited_transfer
    &&& b[0] / 4 % 4 == h.size % 4
    &&& b[0] / 16 % 2 == 1 <==> h.complete_access
    &&& match h.command {
        CoeCommand::Download => b[0] / 32 == 1,
        CoeCommand::Upload => b[0] / 32 == 2,
        CoeCommand::UploadSegment => b[0] / 32 == 3,
        CoeCommand::Abort => b[0] / 32 == 4,
    }
    &&& b[1] + 256 * b[2] == h.index
    &&& b[3] == h.sub_index
}

proof fn lemma_init_sdo_header_bits(h: InitSdoHeader)
    ensures
        h.packed().len() == 4,
        starts_transfer(h.packed(), h),
{
    let a = wire::bit(h.size_indicator);
    let b = wire::bit(h.expedited_transfer);
    let c = h.size % 4;
    let d = wire::bit(h.complete_access);
    let e = h.command.raw();
    let first = h.packed()[0];
    assert(first == a + 2 * b + 4 * c + 16 * d + 32 * e);
    assert(first % 2 == a && first / 2 % 2 == b && first / 4 % 4 == c && first / 16 % 2 == d
        && first / 32 == e) by (bit_vector)
        requires
            first == a + 2 * b + 4 * c + 16 * d + 32 * e,
            a <= 1,
            b <= 1,
            c <= 3,
            d <= 1,
            e <= 4,
    ;
}

/// Where each field of the header that starts an SDO transfer is, for sending and for reading: bit
/// 0 of the first byte is set exactly where there is a size indicator, bit 1 exactly where the
/// transfer is expedited, and so on up to the command in bits 5 to 7.
pub proof fn law_init_sdo_header_bits(
    h: InitSdoHeader,
    buf: Seq<u8>,
    r: Result<InitSdoHeader, WireError>,
)
    requires
        InitSdoHeader::unpacked(buf, r),
    ensures
        h.packed().len() == 4,
        h.packed()[0] % 2 == 1 <==> h.size_indicator,
        h.packed()[0] / 2 % 2 == 1 <==> h.expedited_transfer,
        h.packed()[0] / 4 % 4 == h.size % 4,
        h.packed()[0] / 16 % 2 == 1 <==> h.complete_access,
        h.packed()[0] / 32 == match h.command {
            CoeCommand::Download => 1,
            CoeCommand::Upload => 2,
            CoeCommand::UploadSegment => 3,
            CoeCommand::Abort => 4int,
        },
        h.packed()[1] + 256 * h.packed()[2] == h.index,
        h.packed()[3] == h.sub_index,
        match r {
            Ok(read) => {
                &&& buf.len() >= 4
                &&& read.size_indicator <==> buf[0] % 2 == 1
                &&& read.expedited_transfer <==> buf[0] / 2 % 2 == 1
                &&& read.size == buf[0] / 4 % 4
                &&& read.complete_access <==> buf[0] / 16 % 2 == 1
                &&& read.command is Download <==> buf[0] / 32 == 1
                &&& read.command is Upload <==> buf[0] / 32 == 2
                &&& read.command is UploadSegment <==> buf[0] / 32 == 3
                &&& read.command is Abort <==> buf[0] / 32 == 4
                &&& read.index == buf[1] + 256 * buf[2]
                &&& read.sub_index == buf[3]
            },
            Err(WireError::ReadBufferTooShort) => buf.len() < 4,
            Err(WireError::InvalidValue) => {
                buf.len() >= 4 && (buf[0] / 32 == 0 || buf[0] / 32 > 4)
            },
        },
{
    lemma_init_sdo_header_bits(h);
    if let Ok(read) = r {
        lemma_init_sdo_header_bits(read);
        let b = buf.take(4);
        assert(b[0] == buf[0] && b[1] == buf[1] && b[2] == buf[2] && b[3] == buf[3]);
    }
}

/// Where each field of the header of a further segment is, for sending and for reading: from the
/// lowest bit on, whether it is the last one, three bits of size, the toggle, and the command.
pub proof fn law_segment_sdo_header_bits(
    h: SegmentSdoHeader,
    buf: Seq<u8>,
    r: Result<SegmentSdoHeader, WireError>,
)
    requires
        SegmentSdoHeader::unpacked(buf, r),
    ensures
        h.packed().len() == 1,
        h.packed()[0] % 2 == 1 <==> h.is_last_segment,
        h.packed()[0] / 2 % 8 == h.segment_data_size % 8,
        h.packed()[0] / 16 % 2 == 1 <==> h.toggle,
        h.packed()[0] / 32 == match h.command {
            CoeCommand::Download => 1,
            CoeCommand::Upload => 2,
            CoeCommand::UploadSegment => 3,
            CoeCommand::Abort => 4int,
        },
        match r {
            Ok(read) => {
                &&& buf.len() >= 1
                &&& read.is_last_segment <==> buf[0] % 2 == 1
                &&& read.segment_data_size == buf[0] / 2 % 8
                &&& read.toggle <==> buf[0] / 16 % 2 == 1
                &&& read.command is Download <==> buf[0] / 32 == 1
                &&& read.command is Upload <==> buf[0] / 32 == 2
                &&& read.command is UploadSegment <==> buf[0] / 32 == 3
                &&& read.command is Abort <==> buf[0] / 32 == 4
            },
            Err(WireError::ReadBufferTooShort) => buf.len() == 0,
            Err(WireError::InvalidValue) => {
                buf.len() >= 1 && (buf[0] / 32 == 0 || buf[0] / 32 > 4)
            },
        },
{
    lemma_segment_sdo_header_bits(h);
    if let Ok(read) = r {
        lemma_segment_sdo_header_bits(read);
    }
}

proof fn lemma_segment_sdo_header_bits(h: SegmentSdoHeader)
    ensures
        h.packed()[0] % 2 == wire::bit(h.is_last_segment),
        h.packed()[0] / 2 % 8 == h.segment_data_size % 8,
        h.packed()[0] / 16 % 2 == wire::bit(h.toggle),
        h.packed()[0] / 32 == h.command.raw(),
{
    let a = wire::bit(h.is_last_segment);
    let b = h.segment_data_size % 8;
    let c = wire::bit(h.toggle);
    let d = h.command.raw();
    let first = h.packed()[0];
    assert(first == a + 2 * b + 16 * c + 32 * d);
    assert(first % 2 == a && first / 2 % 8 == b && first / 16 % 2 == c && first / 32 == d)
        by (bit_vector)
        requires
            first == a + 2 * b + 16 * c + 32 * d,
            a <= 1,
            b <= 7,
            c <= 1,
            d <= 4,
    ;
}

/// Where each field of the header of an SDO information message is, for sending and for reading:
/// the op code in the seven lowest bits of the first byte and whether fragments follow in its
/// highest one; then a byte that is sent as zero and not read; then the number of fragments, lower
/// byte first.
pub proof fn law_sdo_info_header_bits(
    h: SdoInfoHeader,
    buf: Seq<u8>,
    r: Result<SdoInfoHeader, WireError>,
)
    requires
        SdoInfoHeader::unpacked(buf, r),
    ensures
        h.packed().len() == 4,
        h.packed()[0] % 128 == h.op_code.raw(),
        h.packed()[0] / 128 == 1 <==> h.incomplete,
        h.packed()[1] == 0,
        h.packed()[2] + 256 * h.packed()[3] == h.fragments_left,
        match r {
            Ok(read) => {
                &&& buf.len() >= 4
                &&& read.op_code.raw() == buf[0] % 128
                &&& read.incomplete <==> buf[0] / 128 == 1
                &&& read.fragments_left == buf[2] + 256 * buf[3]
            },
            Err(WireError::ReadBufferTooShort) => buf.len() < 4,
            Err(WireError::InvalidValue) => {
                buf.len() >= 4 && (buf[0] % 128 == 0 || buf[0] % 128 > 7)
            },
        },
{
    if let Ok(read) = r {
        let b = buf.take(4).update(1, 0);
        assert(b[0] == buf[0] && b[2] == buf[2] && b[3] == buf[3]);
        assert(read.packed()[0] == buf[0]);
        assert(read.packed()[2] == buf[2]);
        assert(read.packed()[3] == buf[3]);
    }
}

/// A number is the sub-index of that number.
pub proof fn law_number_is_a_sub_index(value: u8)
    ensures
        <SubIndex as vstd::std_specs::convert::FromSpec<u8>>::from_spec(value) == SubIndex::Index(
            value,
        ),
{
}

/// What the functions that send and read the one byte of a service, a command or an op code do.
pub proof fn law_coe_functions(
    service: CoeService,
    command: CoeCommand,
    op_code: SdoInfoOpCode,
    a: [u8; 1],
    b: [u8; 1],
    c: [u8; 1],
    access: SubIndex,
    complete: bool,
    index: u8,
)
    requires
        call_ensures(CoeService::pack, (&service,), a),
        call_ensures(CoeCommand::pack, (&command,), b),
        call_ensures(SdoInfoOpCode::pack, (&op_code,), c),
        call_ensures(SubIndex::complete_access, (&access,), complete),
        call_ensures(SubIndex::sub_index, (&access,), index),
    ensures
        a@.len() == 1 && a@[0] == service.raw(),
        b@.len() == 1 && b@[0] == command.raw(),
        c@.len() == 1 && c@[0] == op_code.raw(),
        complete <==> access is Complete,
        access is Complete ==> index == 1,
        access matches SubIndex::Index(asked) ==> index == asked,
{
}

/// What the functions that send and read the headers do: the bits are where
/// [`law_init_sdo_header_bits`] and the laws after it say.
pub proof fn law_header_functions(
    h: InitSdoHeader,
    a: [u8; 4],
    s: SegmentSdoHeader,
    b: [u8; 1],
    i: SdoInfoHeader,
    c: [u8; 4],
    buf: &[u8],
    read: Result<InitSdoHeader, WireError>,
)
    requires
        call_ensures(InitSdoHeader::pack, (&h,), a),
        call_ensures(SegmentSdoHeader::pack, (&s,), b),
        call_ensures(SdoInfoHeader::pack, (&i,), c),
        call_ensures(InitSdoHeader::unpack_from_slice, (buf,), read),
    ensures
        a@[0] % 2 == 1 <==> h.size_indicator,
        a@[0] / 2 % 2 == 1 <==> h.expedited_transfer,
        a@[0] / 4 % 4 == h.size % 4,
        a@[0] / 16 % 2 == 1 <==> h.complete_access,
        a@[0] / 32 == h.command.raw(),
        a@[1] + 256 * a@[2] == h.index,
        a@[3] == h.sub_index,
        b@[0] % 2 == 1 <==> s.is_last_segment,
        b@[0] / 2 % 8 == s.segment_data_size % 8,
        b@[0] / 16 % 2 == 1 <==> s.toggle,
        b@[0] / 32 == s.command.raw(),
        c@[0] % 128 == i.op_code.raw(),
        c@[0] / 128 == 1 <==> i.incomplete,
        c@[1] == 0,
        c@[2] + 256 * c@[3] == i.fragments_left,
        read is Ok <==> buf@.len() >= 4 && 1 <= buf@[0] / 32 <= 4,
        read matches Ok(g) ==> {
            &&& g.size_indicator <==> buf@[0] % 2 == 1
            &&& g.expedited_transfer <==> buf@[0] / 2 % 2 == 1
            &&& g.size == buf@[0] / 4 % 4
            &&& g.complete_access <==> buf@[0] / 16 % 2 == 1
            &&& g.command.raw() == buf@[0] / 32
            &&& g.index == buf@[1] + 256 * buf@[2]
            &&& g.sub_index == buf@[3]
        },
{
    law_init_sdo_header_bits(h, buf@, read);
    lemma_segment_sdo_header_bits(s);
}

/// What the functions that read the one byte of a service, a command or an op code, and the other
/// headers, do: a byte is taken exactly where it is one of the numbers, and as what it stands for.
pub proof fn law_reading_functions(
    buf: &[u8],
    service: Result<CoeService, WireError>,
    command: Result<CoeCommand, WireError>,
    op_code: Result<SdoInfoOpCode, WireError>,
    segment: Result<SegmentSdoHeader, WireError>,
    info: Result<SdoInfoHeader, WireError>,
)
    requires
        call_ensures(CoeService::unpack_from_slice, (buf,), service),
        call_ensures(CoeCommand::unpack_from_slice, (buf,), command),
        call_ensures(SdoInfoOpCode::unpack_from_slice, (buf,), op_code),
        call_ensures(SegmentSdoHeader::unpack_from_slice, (buf,), segment),
        call_ensures(SdoInfoHeader::unpack_from_slice, (buf,), info),
    ensures
        service is Ok <==> buf@.len() >= 1 && 1 <= buf@[0] <= 8,
        service matches Ok(v) ==> v.raw() == buf@[0],
        command is Ok <==> buf@.len() >= 1 && 1 <= buf@[0] <= 4,
        command matches Ok(v) ==> v.raw() == buf@[0],
        op_code is Ok <==> buf@.len() >= 1 && 1 <= buf@[0] <= 7,
        op_code matches Ok(v) ==> v.raw() == buf@[0],
        segment is Ok <==> buf@.len() >= 1 && 1 <= buf@[0] / 32 <= 4,
        segment matches Ok(g) ==> {
            &&& g.is_last_segment <==> buf@[0] % 2 == 1
            &&& g.segment_data_size == buf@[0] / 2 % 8
            &&& g.toggle <==> buf@[0] / 16 % 2 == 1
            &&& g.command.raw() == buf@[0] / 32
        },
        info is Ok <==> buf@.len() >= 4 && 1 <= buf@[0] % 128 <= 7,
        info matches Ok(g) ==> {
            &&& g.op_code.raw() == buf@[0] % 128
            &&& g.incomplete <==> buf@[0] / 128 == 1
            &&& g.fragments_left == buf@[2] + 256 * buf@[3]
        },
{
    law_coe_numbers(buf@, service, command, op_code);
    let s = SegmentSdoHeader {
        is_last_segment: false,
        segment_data_size: 0,
        toggle: false,
        command: CoeCommand::Upload,
    };
    let i = SdoInfoHeader {
        op_code: SdoInfoOpCode::SdoInfoErrorRequest,
        incomplete: false,
        fragments_left: 0,
    };
    law_segment_sdo_header_bits(s, buf@, segment);
    law_sdo_info_header_bits(i, buf@, info);
}

} // verus!
