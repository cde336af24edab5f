//! CCSDS link layer: space packets, telemetry and telecommand transfer frames.
pub mod apid_manager;
pub mod crc16;
pub mod m_pdu_subfields;
pub mod space_packet_deframer;
pub mod space_packet_framer;
pub mod space_packet_subfields;
pub mod tc_deframer;
pub mod tc_subfields;
pub mod tm_framer;
pub mod tm_subfields;
pub mod types;
