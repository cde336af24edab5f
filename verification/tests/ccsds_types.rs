//! Packet and frame headers, field by field and as bytes.
use fprime_svc::ccsds::m_pdu_subfields;
use fprime_svc::ccsds::types::{
    AOSHeader, AOSTrailer, FrameError, MPduHeader, SdlsStatus, SpacePacketHeader, TCHeader,
    TCTrailer, TMHeader, TMTrailer, Tfvn, AGGREGATION_SIZE, AOS_MAX_FRAME_FIXED_SIZE, SPACECRAFT_ID,
    TM_FRAME_FIXED_SIZE,
};
use fprime_svc::fw::bytes::SerializeStatus;
use fprime_svc::fw::types::Apid;

#[test]
fn serialized_sizes_match_cpp() {
    assert_eq!(SpacePacketHeader::SERIALIZED_SIZE, 6);
    assert_eq!(TMHeader::SERIALIZED_SIZE, 6);
    assert_eq!(TMTrailer::SERIALIZED_SIZE, 2);
    assert_eq!(TCHeader::SERIALIZED_SIZE, 5);
    assert_eq!(TCTrailer::SERIALIZED_SIZE, 2);
    assert_eq!(AOSHeader::SERIALIZED_SIZE, 6);
    assert_eq!(MPduHeader::SERIALIZED_SIZE, 2);
    assert_eq!(AOSTrailer::SERIALIZED_SIZE, 2);
}

#[test]
fn com_cfg_constants_match_cpp() {
    assert_eq!(SPACECRAFT_ID, 0x0044);
    assert_eq!(TM_FRAME_FIXED_SIZE, 1024);
    assert_eq!(AOS_MAX_FRAME_FIXED_SIZE, 1536);
    assert_eq!(AGGREGATION_SIZE, 1009);
}

/// Literal bytes for a telemetry Space Packet header: PVN 0, type 0, no
/// secondary header, APID 0x0002 (LOG), unsegmented (0b11), count 5,
/// data field 100 bytes.
#[test]
fn space_packet_header_literal_bytes() {
    let header = SpacePacketHeader::new(
        SpacePacketHeader::build_packet_identification(0, 0, false, 0x0002),
        SpacePacketHeader::build_packet_sequence_control(0b11, 5),
        SpacePacketHeader::length_token(100),
    );
    assert_eq!(header.serialize(), vec![0x00, 0x02, 0xC0, 0x05, 0x00, 0x63]);
}

/// Every bit field of the identification word lands where the standard
/// says: PVN 0b101, type 1, sec hdr 1, APID 0x2AA.
#[test]
fn space_packet_identification_bit_packing() {
    let word = SpacePacketHeader::build_packet_identification(0b101, 1, true, 0x2AA);
    assert_eq!(word, 0b1011_1010_1010_1010);
    let header = SpacePacketHeader::new(word, 0, 0);
    assert_eq!(header.pvn(), 0b101);
    assert_eq!(header.packet_type(), 1);
    assert!(header.has_sec_hdr());
    assert_eq!(header.apid_value(), 0x2AA);
    // Out-of-range inputs are masked, never bleeding into a neighbour.
    assert_eq!(
        SpacePacketHeader::build_packet_identification(0xFF, 0xFF, true, 0xFFFF),
        0xFFFF
    );
}

/// Sequence flags occupy bits `[15:14]` and the count the low 14 bits.
#[test]
fn space_packet_sequence_control_bit_packing() {
    assert_eq!(
        SpacePacketHeader::build_packet_sequence_control(0b01, 0x3FFF),
        0x7FFF
    );
    let header = SpacePacketHeader::new(0, 0xC001, 0);
    assert_eq!(header.sequence_flags(), 0b11);
    assert_eq!(header.sequence_count(), 1);
    // The count is masked to 14 bits, the flags to 2.
    assert_eq!(
        SpacePacketHeader::build_packet_sequence_control(0xFF, 0xFFFF),
        0xFFFF
    );
}

/// The length field is "octets minus one" in both directions, and the
/// maximum token widens instead of wrapping.
#[test]
fn space_packet_data_length_semantics() {
    assert_eq!(SpacePacketHeader::length_token(1), 0);
    let header = SpacePacketHeader::new(0, 0, 0xFFFF);
    assert_eq!(header.data_field_length(), 65536);
    let header = SpacePacketHeader::new(0, 0, 0);
    assert_eq!(header.data_field_length(), 1);
}

/// Round trip through the wire keeps every raw word.
#[test]
fn space_packet_header_round_trip() {
    let bytes = [0x08u8, 0x01, 0x4A, 0xBC, 0x01, 0xFF];
    let header = SpacePacketHeader::deserialize(&bytes).unwrap();
    assert_eq!(header.packet_identification, 0x0801);
    assert!(header.has_sec_hdr());
    assert_eq!(header.apid_value(), 0x0001);
    assert_eq!(header.sequence_flags(), 0b01);
    assert_eq!(header.sequence_count(), 0x0ABC);
    assert_eq!(header.data_field_length(), 0x0200);
    assert_eq!(header.serialize(), bytes.to_vec());
}

/// Literal bytes for the TM primary header the framer emits with the
/// default context (vcId 1) on the first frame.
#[test]
fn tm_header_literal_bytes() {
    let header = TMHeader::new(
        TMHeader::build_global_vc_id(SPACECRAFT_ID, 1, false),
        0,
        0,
        TMHeader::build_data_field_status(false, false, false, 0b11, 0),
    );
    // 0b00 | 0b0001000100 (0x044) | 0b001 | 0b0 = 0x0442
    assert_eq!(header.serialize(), vec![0x04, 0x42, 0x00, 0x00, 0x18, 0x00]);
    assert_eq!(header.frame_version(), 0);
    assert_eq!(header.spacecraft_id(), SPACECRAFT_ID);
    assert_eq!(header.vc_id(), 1);
    assert!(!header.ocf_flag());
    assert_eq!(header.segment_length_id(), 0b11);
    assert_eq!(header.first_header_pointer(), 0);
}

/// `vcId` is shifted without masking, so a value above 7
/// corrupts the spacecraft ID field.
#[test]
fn tm_global_vc_id_does_not_mask_vc_id() {
    let word = TMHeader::build_global_vc_id(SPACECRAFT_ID, 8, false);
    assert_eq!(word, (8u16 << 1) | (SPACECRAFT_ID << 4));
    let header = TMHeader::new(word, 0, 0, 0);
    assert_eq!(header.spacecraft_id(), SPACECRAFT_ID + 1); // corrupted
    assert_eq!(header.vc_id(), 0);
}

/// The OCF flag is bit 0 and every data-field-status flag is distinct.
#[test]
fn tm_data_field_status_bit_packing() {
    assert_eq!(TMHeader::build_global_vc_id(0, 0, true), 0x0001);
    assert_eq!(
        TMHeader::build_data_field_status(true, false, false, 0, 0),
        0x8000
    );
    assert_eq!(
        TMHeader::build_data_field_status(false, true, false, 0, 0),
        0x4000
    );
    assert_eq!(
        TMHeader::build_data_field_status(false, false, true, 0, 0),
        0x2000
    );
    assert_eq!(
        TMHeader::build_data_field_status(false, false, false, 0b11, 0),
        0x1800
    );
    assert_eq!(
        TMHeader::build_data_field_status(false, false, false, 0, 0x7FF),
        0x07FF
    );
}

/// Literal bytes for the TC header the ground segment sends: bypass set,
/// SCID 0x044, VCID 0, total frame length 20.
#[test]
fn tc_header_literal_bytes() {
    let header = TCHeader::new(
        TCHeader::build_flags_and_sc_id(true, false, SPACECRAFT_ID),
        TCHeader::build_vc_id_and_length(0, 20),
        0,
    );
    assert_eq!(header.serialize(), vec![0x20, 0x44, 0x00, 0x13, 0x00]);
    assert_eq!(header.frame_version(), 0);
    assert!(header.bypass_flag());
    assert!(!header.control_command_flag());
    assert_eq!(header.spacecraft_id(), SPACECRAFT_ID);
    assert_eq!(header.vc_id(), 0);
    assert_eq!(header.total_frame_length(), 20);
}

/// The frame-detector token: TFVN 00, bypass 1, control 0, reserved 00,
/// SCID 0x044 => 0x2044.
#[test]
fn tc_flags_and_sc_id_matches_frame_detector_token() {
    assert_eq!(
        TCHeader::build_flags_and_sc_id(true, false, SPACECRAFT_ID),
        0x2044
    );
    assert_eq!(TCHeader::build_flags_and_sc_id(false, true, 0x03FF), 0x13FF);
}

/// VCID occupies bits `[15:10]` and the length token the low 10 bits;
/// the token is the TOTAL length minus one, maxing out at 1024.
#[test]
fn tc_vc_id_and_length_bit_packing() {
    assert_eq!(TCHeader::build_vc_id_and_length(0x3F, 1024), 0xFFFF);
    let header = TCHeader::new(0, 0xFFFF, 0);
    assert_eq!(header.vc_id(), 0x3F);
    assert_eq!(header.total_frame_length(), 1024);
    // vc_id is masked to 6 bits.
    assert_eq!(TCHeader::build_vc_id_and_length(0xFF, 1), 0xFC00);
}

/// Trailers are a bare big-endian u16.
#[test]
fn trailers_are_two_big_endian_bytes() {
    assert_eq!(TMTrailer::new(0x29B1).serialize(), vec![0x29, 0xB1]);
    assert_eq!(TCTrailer::new(0xBEEF).serialize(), vec![0xBE, 0xEF]);
    assert_eq!(AOSTrailer::new(0x0001).serialize(), vec![0x00, 0x01]);
}

/// AOS header and M_PDU header wire layout.
#[test]
fn aos_types_literal_bytes() {
    let header = AOSHeader::new(0x4123, 0x0012_3456);
    assert_eq!(header.serialize(), vec![0x41, 0x23, 0x00, 0x12, 0x34, 0x56]);
    assert_eq!(
        MPduHeader::default().first_header_pointer,
        m_pdu_subfields::FHP_NO_PACKET_START
    );
    assert_eq!(MPduHeader::default().serialize(), vec![0xFF, 0xFF]);
}

#[test]
fn frame_error_discriminants_match_cpp() {
    assert_eq!(FrameError::SpInvalidPacket as u8, 0);
    assert_eq!(FrameError::SpInvalidLength as u8, 1);
    assert_eq!(FrameError::TcInvalidScid as u8, 2);
    assert_eq!(FrameError::TcInvalidLength as u8, 3);
    assert_eq!(FrameError::TcInvalidVcid as u8, 4);
    assert_eq!(FrameError::TcInvalidCrc as u8, 5);
    assert_eq!(FrameError::AosInvalidScid as u8, 6);
    assert_eq!(FrameError::SdlsDecryptionFailure as u8, 13);
    assert_eq!(FrameError::NUM_CONSTANTS, 14);
    assert_eq!(vec![FrameError::TcInvalidCrc.as_repr()], vec![5]);
}

#[test]
fn sdls_and_tfvn_discriminants_match_cpp() {
    assert_eq!(SdlsStatus::Success as u8, 0);
    assert_eq!(SdlsStatus::KeyError as u8, 5);
    assert_eq!(Tfvn::TmTc as u8, 0);
    assert_eq!(Tfvn::Aos as u8, 1);
    assert_eq!(Tfvn::ProxOne as u8, 2);
    assert_eq!(Tfvn::Uslp as u8, 3);
    assert_eq!(Tfvn::default(), Tfvn::InvalidUninitialized);
}

/// The idle packet header the TM framer writes: APID 0x7FF, sequence
/// flags 0b11, count 0.
#[test]
fn idle_packet_identification_is_all_ones_apid() {
    let ident = Apid::SppIdlePacket.as_repr();
    assert_eq!(ident, 0x07FF);
    let header = SpacePacketHeader::new(
        ident,
        SpacePacketHeader::build_packet_sequence_control(0b11, 0),
        10,
    );
    assert_eq!(header.serialize(), vec![0x07, 0xFF, 0xC0, 0x00, 0x00, 0x0A]);
    assert_eq!(header.pvn(), 0);
    assert_eq!(header.packet_type(), 0);
    assert!(!header.has_sec_hdr());
}

/// A header that is cut short is refused, and an empty buffer told apart.
#[test]
fn short_space_packet_headers_are_refused() {
    assert_eq!(SpacePacketHeader::deserialize(&[]), Err(SerializeStatus::DeserBufferEmpty));
    assert_eq!(
        SpacePacketHeader::deserialize(&[0x08, 0x01, 0x4A]),
        Err(SerializeStatus::DeserSizeMismatch)
    );
}
