use ethercrab::coe::{
    CoeCommand, CoeService, InitSdoHeader, SdoInfoHeader, SdoInfoOpCode, SegmentSdoHeader, SubIndex,
};
use ethercrab::wire::WireError;

#[test]
fn sanity_coe_service() {
    assert_eq!(CoeService::SdoRequest.pack(), [0x02]);
    assert_eq!(
        CoeService::unpack_from_slice(&[0x02]),
        Ok(CoeService::SdoRequest)
    );
}

#[test]
fn coe_service_all_values() {
    let services = [
        CoeService::Emergency,
        CoeService::SdoRequest,
        CoeService::SdoResponse,
        CoeService::TxPdo,
        CoeService::RxPdo,
        CoeService::TxPdoRemoteRequest,
        CoeService::RxPdoRemoteRequest,
        CoeService::SdoInformation,
    ];
    for (i, service) in services.iter().enumerate() {
        assert_eq!(service.pack(), [i as u8 + 1]);
        assert_eq!(CoeService::unpack_from_slice(&[i as u8 + 1, 0xff]), Ok(*service));
    }
}

#[test]
fn coe_service_refuses_other_bytes() {
    assert_eq!(CoeService::unpack_from_slice(&[]), Err(WireError::ReadBufferTooShort));
    assert_eq!(CoeService::unpack_from_slice(&[0x00]), Err(WireError::InvalidValue));
    assert_eq!(CoeService::unpack_from_slice(&[0x09]), Err(WireError::InvalidValue));
}

#[test]
fn coe_command_values() {
    assert_eq!(CoeCommand::Download.pack(), [0x01]);
    assert_eq!(CoeCommand::Upload.pack(), [0x02]);
    assert_eq!(CoeCommand::UploadSegment.pack(), [0x03]);
    assert_eq!(CoeCommand::Abort.pack(), [0x04]);
    assert_eq!(CoeCommand::unpack_from_slice(&[0x04]), Ok(CoeCommand::Abort));
    assert_eq!(CoeCommand::unpack_from_slice(&[0x05]), Err(WireError::InvalidValue));
    assert_eq!(CoeCommand::unpack_from_slice(&[]), Err(WireError::ReadBufferTooShort));
}

#[test]
fn sdo_info_op_code_values() {
    assert_eq!(SdoInfoOpCode::GetObjectDescriptionListRequest.pack(), [0x01]);
    assert_eq!(SdoInfoOpCode::SdoInfoErrorRequest.pack(), [0x07]);
    assert_eq!(
        SdoInfoOpCode::unpack_from_slice(&[0x04]),
        Ok(SdoInfoOpCode::GetObjectDescriptionResponse)
    );
    assert_eq!(SdoInfoOpCode::unpack_from_slice(&[0x08]), Err(WireError::InvalidValue));
    assert_eq!(SdoInfoOpCode::unpack_from_slice(&[]), Err(WireError::ReadBufferTooShort));
}

#[test]
fn init_sdo_header_bytes() {
    let header = InitSdoHeader {
        size_indicator: true,
        expedited_transfer: true,
        size: 2,
        complete_access: false,
        command: CoeCommand::Upload,
        index: 0x1018,
        sub_index: 4,
    };
    assert_eq!(header.pack(), [0x4b, 0x18, 0x10, 0x04]);
    assert_eq!(
        InitSdoHeader::unpack_from_slice(&[0x4b, 0x18, 0x10, 0x04, 0xaa]),
        Ok(header)
    );
}

#[test]
fn init_sdo_header_sends_two_bits_of_size() {
    let header = InitSdoHeader {
        size_indicator: false,
        expedited_transfer: false,
        size: 7,
        complete_access: true,
        command: CoeCommand::Download,
        index: 0xffff,
        sub_index: 1,
    };
    assert_eq!(header.pack(), [0x3c, 0xff, 0xff, 0x01]);
    let read = InitSdoHeader::unpack_from_slice(&header.pack());
    assert_eq!(read, Ok(InitSdoHeader { size: 3, ..header }));
}

#[test]
fn init_sdo_header_refuses_other_bytes() {
    assert_eq!(
        InitSdoHeader::unpack_from_slice(&[0x40, 0x18, 0x10]),
        Err(WireError::ReadBufferTooShort)
    );
    assert_eq!(
        InitSdoHeader::unpack_from_slice(&[0xa0, 0x18, 0x10, 0x00]),
        Err(WireError::InvalidValue)
    );
    assert_eq!(
        InitSdoHeader::unpack_from_slice(&[0x1f, 0x18, 0x10, 0x00]),
        Err(WireError::InvalidValue)
    );
}

#[test]
fn segment_sdo_header_bytes() {
    // Last segment, size 5, toggled, upload segment.
    let header = SegmentSdoHeader::unpack_from_slice(&[0x7b]);
    assert_eq!(
        header,
        Ok(SegmentSdoHeader {
            is_last_segment: true,
            segment_data_size: 5,
            toggle: true,
            command: CoeCommand::UploadSegment,
        })
    );
    assert_eq!(header.unwrap().pack(), [0x7b]);
    assert_eq!(SegmentSdoHeader::unpack_from_slice(&[]), Err(WireError::ReadBufferTooShort));
    assert_eq!(SegmentSdoHeader::unpack_from_slice(&[0x1b]), Err(WireError::InvalidValue));
}

#[test]
fn sdo_info_header_bytes() {
    let header = SdoInfoHeader {
        op_code: SdoInfoOpCode::GetObjectDescriptionListResponse,
        incomplete: true,
        fragments_left: 0x0102,
    };
    assert_eq!(header.pack(), [0x82, 0x00, 0x02, 0x01]);
    assert_eq!(
        SdoInfoHeader::unpack_from_slice(&[0x82, 0x55, 0x02, 0x01]),
        Ok(header)
    );
    assert_eq!(
        SdoInfoHeader::unpack_from_slice(&[0x82, 0x00, 0x02]),
        Err(WireError::ReadBufferTooShort)
    );
    assert_eq!(
        SdoInfoHeader::unpack_from_slice(&[0x88, 0x00, 0x02, 0x00]),
        Err(WireError::InvalidValue)
    );
}

#[test]
fn sub_index_access() {
    assert!(SubIndex::Complete.complete_access());
    assert_eq!(SubIndex::Complete.sub_index(), 1);
    assert!(!SubIndex::Index(7).complete_access());
    assert_eq!(SubIndex::Index(7).sub_index(), 7);
    assert!(matches!(SubIndex::from(3), SubIndex::Index(3)));
}
