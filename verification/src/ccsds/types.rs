//! Frame headers and trailers, error codes and link constants.
use vstd::prelude::*;

use super::m_pdu_subfields;
use super::space_packet_subfields;
use super::tc_subfields;
use super::tm_subfields;
use crate::fw::bytes;
use crate::fw::bytes::SerializeStatus;

verus! {

broadcast use crate::fw::bytes::lemma_be32_len;

/// The spacecraft identifier, ten bits on the wire.
pub const SPACECRAFT_ID: u16 = 0x0044;

/// The size of every telemetry transfer frame.
pub const TM_FRAME_FIXED_SIZE: usize = 1024;

/// The largest size of a frame of the advanced orbiting systems.
pub const AOS_MAX_FRAME_FIXED_SIZE: usize = 1536;

/// The largest payload of a telemetry frame: room is kept for two packet headers, one
/// byte of idle data and the trailer.
pub const AGGREGATION_SIZE: usize = 1009;

/// An error in framing or deframing.
#[derive(Debug, Clone, Copy, PartialEq, Eq, Structural, Default)]
pub enum FrameError {
    /// Space packet: malformed.
    #[default]
    SpInvalidPacket,
    /// Space packet: shorter than its header says.
    SpInvalidLength,
    /// Telecommand frame: for another spacecraft.
    TcInvalidScid,
    /// Telecommand frame: shorter than its header says.
    TcInvalidLength,
    /// Telecommand frame: for another virtual channel.
    TcInvalidVcid,
    /// Telecommand frame: the checksum does not match.
    TcInvalidCrc,
    /// Advanced orbiting systems frame: for another spacecraft.
    AosInvalidScid,
    /// Advanced orbiting systems frame: too short.
    AosInvalidLength,
    /// Advanced orbiting systems frame: for another virtual channel.
    AosInvalidVcid,
    /// Advanced orbiting systems frame: the checksum does not match.
    AosInvalidCrc,
    /// Advanced orbiting systems frame: of another version.
    AosInvalidVersion,
    /// Advanced orbiting systems frame: malformed encapsulation packet.
    AosInvalidEpp,
    /// Advanced orbiting systems frame: frames are missing.
    AosVcFrameCountGap,
    /// Decryption failed.
    SdlsDecryptionFailure,
}

impl FrameError {
    /// How many errors there are.
    pub const NUM_CONSTANTS: usize = 14;

    /// The number that stands for the error on the wire.
    pub open spec fn code(self) -> u8 {
        match self {
            FrameError::SpInvalidPacket => 0,
            FrameError::SpInvalidLength => 1,
            FrameError::TcInvalidScid => 2,
            FrameError::TcInvalidLength => 3,
            FrameError::TcInvalidVcid => 4,
            FrameError::TcInvalidCrc => 5,
            FrameError::AosInvalidScid => 6,
            FrameError::AosInvalidLength => 7,
            FrameError::AosInvalidVcid => 8,
            FrameError::AosInvalidCrc => 9,
            FrameError::AosInvalidVersion => 10,
            FrameError::AosInvalidEpp => 11,
            FrameError::AosVcFrameCountGap => 12,
            FrameError::SdlsDecryptionFailure => 13,
        }
    }

    /// The number that stands for the error on the wire.
    pub fn as_repr(self) -> (r: u8)
        ensures
            r == self.code(),
            r < Self::NUM_CONSTANTS,
    {
        match self {
            FrameError::SpInvalidPacket => 0,
            FrameError::SpInvalidLength => 1,
            FrameError::TcInvalidScid => 2,
            FrameError::TcInvalidLength => 3,
            FrameError::TcInvalidVcid => 4,
            FrameError::TcInvalidCrc => 5,
            FrameError::AosInvalidScid => 6,
            FrameError::AosInvalidLength => 7,
            FrameError::AosInvalidVcid => 8,
            FrameError::AosInvalidCrc => 9,
            FrameError::AosInvalidVersion => 10,
            FrameError::AosInvalidEpp => 11,
            FrameError::AosVcFrameCountGap => 12,
            FrameError::SdlsDecryptionFailure => 13,
        }
    }
}

/// The outcome of a request to the link security layer.
#[derive(Debug, Clone, Copy, PartialEq, Eq, Structural, Default)]
pub enum SdlsStatus {
    /// The request was carried out.
    #[default]
    Success,
    /// The security association is unknown.
    UnknownSa,
    /// The port is unknown.
    UnknownPort,
    /// Encryption failed.
    EncryptionFailure,
    /// Decryption failed.
    DecryptionFailure,
    /// The key could not be had.
    KeyError,
}

/// Transfer frame version numbers.
#[derive(Debug, Clone, Copy, PartialEq, Eq, Structural, Default)]
pub enum Tfvn {
    /// Telemetry and telecommand links.
    TmTc,
    /// Advanced orbiting systems.
    Aos,
    /// Proximity-1 links.
    ProxOne,
    /// The unified link protocol.
    Uslp,
    /// Not a version.
    #[default]
    InvalidUninitialized,
}

/// The primary header of a space packet: version, type, secondary header flag and
/// application in one word, segmentation flags and count in the next, and the length of
/// the data field less one in the third.
#[derive(Debug, Clone, Copy, PartialEq, Eq, Structural, Default)]
pub struct SpacePacketHeader {
    /// Version (3 bits), type (1), secondary header flag (1), application (11).
    pub packet_identification: u16,
    /// Segmentation flags (2 bits), sequence count (14).
    pub packet_sequence_control: u16,
    /// The length of the data field, less one.
    pub packet_data_length: u16,
}

impl SpacePacketHeader {
    /// How many bytes the header takes.
    pub const SERIALIZED_SIZE: usize = 6;

    /// The identification word with the given fields, each cut to its width.
    pub open spec fn identification(pvn: u8, packet_type: u8, has_sec_hdr: bool, apid: u16) -> u16 {
        ((pvn % 8) * 0x2000 + (packet_type % 2) * 0x1000 + (if has_sec_hdr {
            0x800int
        } else {
            0int
        }) + apid % 0x800) as u16
    }

    /// The sequence control word with the given fields, each cut to its width.
    pub open spec fn sequence_control(sequence_flags: u8, sequence_count: u16) -> u16 {
        ((sequence_flags % 4) * 0x4000 + sequence_count % 0x4000) as u16
    }

    /// The header on the wire.
    pub open spec fn wire(self) -> Seq<u8> {
        bytes::be16(self.packet_identification) + bytes::be16(self.packet_sequence_control)
            + bytes::be16(self.packet_data_length)
    }

    /// The header in the first bytes of `s`.
    pub open spec fn at_start(s: Seq<u8>) -> SpacePacketHeader {
        SpacePacketHeader {
            packet_identification: bytes::u16_at(s, 0),
            packet_sequence_control: bytes::u16_at(s, 2),
            packet_data_length: bytes::u16_at(s, 4),
        }
    }

    /// A header made of three words.
    pub fn new(
        packet_identification: u16,
        packet_sequence_control: u16,
        packet_data_length: u16,
    ) -> (r: Self)
        ensures
            r == (SpacePacketHeader {
                packet_identification,
                packet_sequence_control,
                packet_data_length,
            }),
    {
        SpacePacketHeader { packet_identification, packet_sequence_control, packet_data_length }
    }

    /// Packs an identification word. Every field is cut to its width.
    pub fn build_packet_identification(
        pvn: u8,
        packet_type: u8,
        has_sec_hdr: bool,
        apid: u16,
    ) -> (r: u16)
        ensures
            r == Self::identification(pvn, packet_type, has_sec_hdr, apid),
    {
        let sec: u16 = if has_sec_hdr {
            1
        } else {
            0
        };
        assert((((pvn as u16) << 13u32) & 0xE000u16) | (((packet_type as u16) << 12u32) & 0x1000u16)
            | ((sec << 11u32) & 0x0800u16) | (apid & 0x07FFu16) == (pvn % 8) * 0x2000 + (packet_type
            % 2) * 0x1000 + (sec % 2) * 0x800 + apid % 0x800) by (bit_vector);
        (((pvn as u16) << space_packet_subfields::PVN_OFFSET) & space_packet_subfields::PVN_MASK)
            | (((packet_type as u16) << space_packet_subfields::PKT_TYPE_OFFSET)
            & space_packet_subfields::PKT_TYPE_MASK) | ((sec
            << space_packet_subfields::SEC_HDR_OFFSET) & space_packet_subfields::SEC_HDR_MASK) | (
        apid & space_packet_subfields::APID_MASK)
    }

    /// Packs a sequence control word. Every field is cut to its width.
    pub fn build_packet_sequence_control(sequence_flags: u8, sequence_count: u16) -> (r: u16)
        ensures
            r == Self::sequence_control(sequence_flags, sequence_count),
    {
        assert((((sequence_flags as u16) << 14u32) & 0xC000u16) | (sequence_count & 0x3FFFu16) == (
        sequence_flags % 4) * 0x4000 + sequence_count % 0x4000) by (bit_vector);
        (((sequence_flags as u16) << space_packet_subfields::SEQ_FLAGS_OFFSET)
            & space_packet_subfields::SEQ_FLAGS_MASK) | (sequence_count
            & space_packet_subfields::SEQ_COUNT_MASK)
    }

    /// The version.
    pub fn pvn(&self) -> (r: u8)
        ensures
            r == self.packet_identification / 0x2000,
    {
        let w: u16 = self.packet_identification;
        assert((w & 0xE000u16) >> 13u32 == w / 0x2000) by (bit_vector);
        ((w & space_packet_subfields::PVN_MASK) >> space_packet_subfields::PVN_OFFSET) as u8
    }

    /// The type: zero for telemetry, one for telecommand.
    pub fn packet_type(&self) -> (r: u8)
        ensures
            r == self.packet_identification / 0x1000 % 2,
    {
        let w: u16 = self.packet_identification;
        assert((w & 0x1000u16) >> 12u32 == w / 0x1000 % 2) by (bit_vector);
        ((w & space_packet_subfields::PKT_TYPE_MASK) >> space_packet_subfields::PKT_TYPE_OFFSET)
            as u8
    }

    /// Whether there is a secondary header.
    pub fn has_sec_hdr(&self) -> (r: bool)
        ensures
            r == (self.packet_identification / 0x800 % 2 == 1),
    {
        let w: u16 = self.packet_identification;
        assert(((w & 0x0800u16) != 0) == (w / 0x800 % 2 == 1)) by (bit_vector);
        (w & space_packet_subfields::SEC_HDR_MASK) != 0
    }

    /// The application, as a bare number.
    pub fn apid_value(&self) -> (r: u16)
        ensures
            r == self.packet_identification % 0x800,
    {
        let w: u16 = self.packet_identification;
        assert(w & 0x07FFu16 == w % 0x800) by (bit_vector);
        w & space_packet_subfields::APID_MASK
    }

    /// The segmentation flags.
    pub fn sequence_flags(&self) -> (r: u8)
        ensures
            r == self.packet_sequence_control / 0x4000,
    {
        let w: u16 = self.packet_sequence_control;
        assert((w & 0xC000u16) >> 14u32 == w / 0x4000) by (bit_vector);
        ((w & space_packet_subfields::SEQ_FLAGS_MASK) >> space_packet_subfields::SEQ_FLAGS_OFFSET)
            as u8
    }

    /// The sequence count.
    pub fn sequence_count(&self) -> (r: u16)
        ensures
            r == self.packet_sequence_control % 0x4000,
    {
        let w: u16 = self.packet_sequence_control;
        assert(w & 0x3FFFu16 == w % 0x4000) by (bit_vector);
        w & space_packet_subfields::SEQ_COUNT_MASK
    }

    /// The length of the data field.
    pub fn data_field_length(&self) -> (r: u32)
        ensures
            r == self.packet_data_length + 1,
    {
        self.packet_data_length as u32 + 1
    }

    /// The number that stands for a data field of the given length.
    pub fn length_token(data_field_length: u16) -> (r: u16)
        requires
            data_field_length > 0,
        ensures
            r == data_field_length - 1,
    {
        data_field_length - 1
    }

    /// The header on the wire.
    pub fn serialize(&self) -> (r: Vec<u8>)
        ensures
            r@ == self.wire(),
            r@.len() == Self::SERIALIZED_SIZE,
    {
        let mut out: Vec<u8> = Vec::new();
        bytes::push_u16(&mut out, self.packet_identification);
        bytes::push_u16(&mut out, self.packet_sequence_control);
        bytes::push_u16(&mut out, self.packet_data_length);
        assert(out@ =~= self.wire());
        out
    }

    /// Reads a header from the first bytes of `buf`.
    pub fn deserialize(buf: &[u8]) -> (r: Result<Self, SerializeStatus>)
        ensures
            buf@.len() >= Self::SERIALIZED_SIZE ==> r == Ok::<Self, SerializeStatus>(
                Self::at_start(buf@),
            ),
            buf@.len() < Self::SERIALIZED_SIZE ==> r == Err::<Self, SerializeStatus>(
                if buf@.len() % 2 == 0 {
                    SerializeStatus::DeserBufferEmpty
                } else {
                    SerializeStatus::DeserSizeMismatch
                },
            ),
    {
        let packet_identification: u16 = match bytes::read_u16(buf, 0) {
            Ok(v) => v,
            Err(e) => {
                return Err(e);
            },
        };
        let packet_sequence_control: u16 = match bytes::read_u16(buf, 2) {
            Ok(v) => v,
            Err(e) => {
                return Err(e);
            },
        };
        let packet_data_length: u16 = match bytes::read_u16(buf, 4) {
            Ok(v) => v,
            Err(e) => {
                return Err(e);
            },
        };
        Ok(
            SpacePacketHeader {
                packet_identification,
                packet_sequence_control,
                packet_data_length,
            },
        )
    }
}

/// The primary header of a telemetry transfer frame: version, spacecraft, virtual
/// channel and control field flag in one word, the two frame counts, and the status of
/// the data field.
#[derive(Debug, Clone, Copy, PartialEq, Eq, Structural, Default)]
pub struct TMHeader {
    /// Version (2 bits), spacecraft (10), virtual channel (3), control field flag (1).
    pub global_vc_id: u16,
    /// The count of frames on the link.
    pub master_frame_count: u8,
    /// The count of frames on the virtual channel.
    pub virtual_frame_count: u8,
    /// Secondary header, synchronization and packet order flags (1 bit each), segment
    /// length (2), first header pointer (11).
    pub data_field_status: u16,
}

impl TMHeader {
    /// How many bytes the header takes.
    pub const SERIALIZED_SIZE: usize = 6;

    /// The first word with the given fields laid over each other. Nothing is cut to its
    /// width, save that the spacecraft loses what is shifted out of the word: an
    /// identifier that is too wide spills into its neighbour.
    pub open spec fn channel_word(spacecraft_id: u16, vc_id: u8, ocf_flag: bool) -> u16 {
        ((vc_id as u16) << 1u32) | (spacecraft_id << 4u32) | (if ocf_flag {
            1u16
        } else {
            0u16
        })
    }

    /// The data field status with the given fields, each cut to its width.
    pub open spec fn status_word(
        sec_hdr_flag: bool,
        sync_flag: bool,
        packet_order_flag: bool,
        segment_length_id: u8,
        first_header_pointer: u16,
    ) -> u16 {
        ((if sec_hdr_flag {
            0x8000int
        } else {
            0int
        }) + (if sync_flag {
            0x4000int
        } else {
            0int
        }) + (if packet_order_flag {
            0x2000int
        } else {
            0int
        }) + (segment_length_id % 4) * 0x800 + first_header_pointer % 0x800) as u16
    }

    /// The header on the wire.
    pub open spec fn wire(self) -> Seq<u8> {
        bytes::be16(self.global_vc_id) + seq![self.master_frame_count, self.virtual_frame_count]
            + bytes::be16(self.data_field_status)
    }

    /// A header made of its words.
    pub fn new(
        global_vc_id: u16,
        master_frame_count: u8,
        virtual_frame_count: u8,
        data_field_status: u16,
    ) -> (r: Self)
        ensures
            r == (TMHeader {
                global_vc_id,
                master_frame_count,
                virtual_frame_count,
                data_field_status,
            }),
    {
        TMHeader { global_vc_id, master_frame_count, virtual_frame_count, data_field_status }
    }

    /// Packs the first word. Nothing is cut to its width.
    pub fn build_global_vc_id(spacecraft_id: u16, vc_id: u8, ocf_flag: bool) -> (r: u16)
        ensures
            r == Self::channel_word(spacecraft_id, vc_id, ocf_flag),
            spacecraft_id < 0x400 && vc_id < 8 ==> r == spacecraft_id * 16 + vc_id * 2 + (
            if ocf_flag {
                1int
            } else {
                0int
            }),
    {
        let ocf: u16 = if ocf_flag {
            1
        } else {
            0
        };
        assert(spacecraft_id < 0x400 && vc_id < 8 && ocf < 2 ==> ((vc_id as u16) << 1u32) | (
        spacecraft_id << 4u32) | ocf == spacecraft_id * 16 + vc_id * 2 + ocf) by (bit_vector);
        ((vc_id as u16) << tm_subfields::VIRTUAL_CHANNEL_ID_OFFSET) | (spacecraft_id
            << tm_subfields::SPACECRAFT_ID_OFFSET) | ocf
    }

    /// Packs the data field status. Every field is cut to its width.
    pub fn build_data_field_status(
        sec_hdr_flag: bool,
        sync_flag: bool,
        packet_order_flag: bool,
        segment_length_id: u8,
        first_header_pointer: u16,
    ) -> (r: u16)
        ensures
            r == Self::status_word(
                sec_hdr_flag,
                sync_flag,
                packet_order_flag,
                segment_length_id,
                first_header_pointer,
            ),
    {
        let sec: u16 = if sec_hdr_flag {
            tm_subfields::SEC_HDR_FLAG_MASK
        } else {
            0
        };
        let sync: u16 = if sync_flag {
            tm_subfields::SYNC_FLAG_MASK
        } else {
            0
        };
        let order: u16 = if packet_order_flag {
            tm_subfields::PACKET_ORDER_FLAG_MASK
        } else {
            0
        };
        assert((sec == 0 || sec == 0x8000) && (sync == 0 || sync == 0x4000) && (order == 0 || order
            == 0x2000) ==> sec | sync | order | (((segment_length_id as u16) << 11u32) & 0x1800u16)
            | (first_header_pointer & 0x07FFu16) == sec + sync + order + (segment_length_id % 4)
            * 0x800 + first_header_pointer % 0x800) by (bit_vector);
        sec | sync | order | (((segment_length_id as u16) << tm_subfields::SEG_LENGTH_OFFSET)
            & tm_subfields::SEG_LENGTH_MASK) | (first_header_pointer
            & tm_subfields::FIRST_HEADER_POINTER_MASK)
    }

    /// The version.
    pub fn frame_version(&self) -> (r: u8)
        ensures
            r == self.global_vc_id / 0x4000,
    {
        let w: u16 = self.global_vc_id;
        assert((w & 0xC000u16) >> 14u32 == w / 0x4000) by (bit_vector);
        ((w & tm_subfields::FRAME_VERSION_MASK) >> tm_subfields::FRAME_VERSION_OFFSET) as u8
    }

    /// The spacecraft.
    pub fn spacecraft_id(&self) -> (r: u16)
        ensures
            r == self.global_vc_id / 16 % 0x400,
    {
        let w: u16 = self.global_vc_id;
        assert((w & 0x3FF0u16) >> 4u32 == w / 16 % 0x400) by (bit_vector);
        (w & tm_subfields::SPACECRAFT_ID_MASK) >> tm_subfields::SPACECRAFT_ID_OFFSET
    }

    /// The virtual channel.
    pub fn vc_id(&self) -> (r: u8)
        ensures
            r == self.global_vc_id / 2 % 8,
    {
        let w: u16 = self.global_vc_id;
        assert((w & 0x000Eu16) >> 1u32 == w / 2 % 8) by (bit_vector);
        ((w & tm_subfields::VIRTUAL_CHANNEL_ID_MASK) >> tm_subfields::VIRTUAL_CHANNEL_ID_OFFSET)
            as u8
    }

    /// Whether the frame has an operational control field.
    pub fn ocf_flag(&self) -> (r: bool)
        ensures
            r == (self.global_vc_id % 2 == 1),
    {
        let w: u16 = self.global_vc_id;
        assert(((w & 1u16) != 0) == (w % 2 == 1)) by (bit_vector);
        (w & tm_subfields::OCF_FLAG_MASK) != 0
    }

    /// The segment length identifier.
    pub fn segment_length_id(&self) -> (r: u8)
        ensures
            r == self.data_field_status / 0x800 % 4,
    {
        let w: u16 = self.data_field_status;
        assert((w & 0x1800u16) >> 11u32 == w / 0x800 % 4) by (bit_vector);
        ((w & tm_subfields::SEG_LENGTH_MASK) >> tm_subfields::SEG_LENGTH_OFFSET) as u8
    }

    /// Where the first packet of the data field starts.
    pub fn first_header_pointer(&self) -> (r: u16)
        ensures
            r == self.data_field_status % 0x800,
    {
        let w: u16 = self.data_field_status;
        assert(w & 0x07FFu16 == w % 0x800) by (bit_vector);
        w & tm_subfields::FIRST_HEADER_POINTER_MASK
    }

    /// The header on the wire.
    pub fn serialize(&self) -> (r: Vec<u8>)
        ensures
            r@ == self.wire(),
            r@.len() == Self::SERIALIZED_SIZE,
    {
        let mut out: Vec<u8> = Vec::new();
        bytes::push_u16(&mut out, self.global_vc_id);
        bytes::push_u8(&mut out, self.master_frame_count);
        bytes::push_u8(&mut out, self.virtual_frame_count);
        bytes::push_u16(&mut out, self.data_field_status);
        assert(out@ =~= self.wire());
        out
    }
}

/// The primary header of a telecommand transfer frame: version, flags and spacecraft in
/// one word, virtual channel and length less one in the next, and a sequence number.
#[derive(Debug, Clone, Copy, PartialEq, Eq, Structural, Default)]
pub struct TCHeader {
    /// Version (2 bits), bypass flag (1), control command flag (1), spare (2),
    /// spacecraft (10).
    pub flags_and_sc_id: u16,
    /// Virtual channel (6 bits), length of the whole frame less one (10).
    pub vc_id_and_length: u16,
    /// The sequence number, which is not looked at.
    pub frame_sequence_num: u8,
}

impl TCHeader {
    /// How many bytes the header takes.
    pub const SERIALIZED_SIZE: usize = 5;

    /// The first word with the given fields, the spacecraft cut to its width.
    pub open spec fn flags_word(
        bypass_flag: bool,
        control_command_flag: bool,
        spacecraft_id: u16,
    ) -> u16 {
        ((if bypass_flag {
            0x2000int
        } else {
            0int
        }) + (if control_command_flag {
            0x1000int
        } else {
            0int
        }) + spacecraft_id % 0x400) as u16
    }

    /// The second word with the given fields, each cut to its width.
    pub open spec fn length_word(vc_id: u8, total_frame_length: u16) -> u16 {
        ((vc_id % 64) * 0x400 + (total_frame_length - 1) % 0x400) as u16
    }

    /// The header on the wire.
    pub open spec fn wire(self) -> Seq<u8> {
        bytes::be16(self.flags_and_sc_id) + bytes::be16(self.vc_id_and_length)
            + seq![self.frame_sequence_num]
    }

    /// The header in the first bytes of `s`.
    pub open spec fn at_start(s: Seq<u8>) -> TCHeader {
        TCHeader {
            flags_and_sc_id: bytes::u16_at(s, 0),
            vc_id_and_length: bytes::u16_at(s, 2),
            frame_sequence_num: s[4],
        }
    }

    /// The spacecraft that the header names.
    pub open spec fn scid(self) -> int {
        (self.flags_and_sc_id % 0x400) as int
    }

    /// The virtual channel that the header names.
    pub open spec fn vcid(self) -> int {
        (self.vc_id_and_length / 0x400) as int
    }

    /// The length of the whole frame that the header gives.
    pub open spec fn total(self) -> int {
        self.vc_id_and_length % 0x400 + 1
    }

    /// A header made of its words.
    pub fn new(flags_and_sc_id: u16, vc_id_and_length: u16, frame_sequence_num: u8) -> (r: Self)
        ensures
            r == (TCHeader { flags_and_sc_id, vc_id_and_length, frame_sequence_num }),
    {
        TCHeader { flags_and_sc_id, vc_id_and_length, frame_sequence_num }
    }

    /// Packs the first word. The version and the spare bits are zero.
    pub fn build_flags_and_sc_id(
        bypass_flag: bool,
        control_command_flag: bool,
        spacecraft_id: u16,
    ) -> (r: u16)
        ensures
            r == Self::flags_word(bypass_flag, control_command_flag, spacecraft_id),
    {
        let bypass: u16 = if bypass_flag {
            tc_subfields::BYPASS_FLAG_MASK
        } else {
            0
        };
        let control: u16 = if control_command_flag {
            tc_subfields::CONTROL_FLAG_MASK
        } else {
            0
        };
        assert((bypass == 0 || bypass == 0x2000) && (control == 0 || control == 0x1000) ==> bypass
            | control | (spacecraft_id & 0x03FFu16) == bypass + control + spacecraft_id % 0x400)
            by (bit_vector);
        bypass | control | (spacecraft_id & tc_subfields::SPACECRAFT_ID_MASK)
    }

    /// Packs the second word from the virtual channel and the length of the whole frame.
    pub fn build_vc_id_and_length(vc_id: u8, total_frame_length: u16) -> (r: u16)
        requires
            total_frame_length > 0,
        ensures
            r == Self::length_word(vc_id, total_frame_length),
    {
        let token: u16 = total_frame_length - 1;
        assert((((vc_id as u16) << 10u32) & 0xFC00u16) | (token & 0x03FFu16) == (vc_id % 64) * 0x400
            + token % 0x400) by (bit_vector);
        (((vc_id as u16) << tc_subfields::VC_ID_OFFSET) & tc_subfields::VC_ID_MASK) | (token
            & tc_subfields::FRAME_LENGTH_MASK)
    }

    /// The version.
    pub fn frame_version(&self) -> (r: u8)
        ensures
            r == self.flags_and_sc_id / 0x4000,
    {
        let w: u16 = self.flags_and_sc_id;
        assert((w & 0xC000u16) >> 14u32 == w / 0x4000) by (bit_vector);
        ((w & tc_subfields::FRAME_VERSION_MASK) >> 14u32) as u8
    }

    /// Whether acceptance checks are bypassed.
    pub fn bypass_flag(&self) -> (r: bool)
        ensures
            r == (self.flags_and_sc_id / 0x2000 % 2 == 1),
    {
        let w: u16 = self.flags_and_sc_id;
        assert(((w & 0x2000u16) != 0) == (w / 0x2000 % 2 == 1)) by (bit_vector);
        (w & tc_subfields::BYPASS_FLAG_MASK) != 0
    }

    /// Whether the frame carries a control command.
    pub fn control_command_flag(&self) -> (r: bool)
        ensures
            r == (self.flags_and_sc_id / 0x1000 % 2 == 1),
    {
        let w: u16 = self.flags_and_sc_id;
        assert(((w & 0x1000u16) != 0) == (w / 0x1000 % 2 == 1)) by (bit_vector);
        (w & tc_subfields::CONTROL_FLAG_MASK) != 0
    }

    /// The spacecraft.
    pub fn spacecraft_id(&self) -> (r: u16)
        ensures
            r == self.scid(),
    {
        let w: u16 = self.flags_and_sc_id;
        assert(w & 0x03FFu16 == w % 0x400) by (bit_vector);
        w & tc_subfields::SPACECRAFT_ID_MASK
    }

    /// The virtual channel.
    pub fn vc_id(&self) -> (r: u8)
        ensures
            r == self.vcid(),
    {
        let w: u16 = self.vc_id_and_length;
        assert((w & 0xFC00u16) >> 10u32 == w / 0x400) by (bit_vector);
        ((w & tc_subfields::VC_ID_MASK) >> tc_subfields::VC_ID_OFFSET) as u8
    }

    /// The length of the whole frame.
    pub fn total_frame_length(&self) -> (r: u16)
        ensures
            r == self.total(),
            1 <= r <= 0x400,
    {
        let w: u16 = self.vc_id_and_length;
        assert(w & 0x03FFu16 == w % 0x400) by (bit_vector);
        (w & tc_subfields::FRAME_LENGTH_MASK) + 1
    }

    /// The header on the wire.
    pub fn serialize(&self) -> (r: Vec<u8>)
        ensures
            r@ == self.wire(),
            r@.len() == Self::SERIALIZED_SIZE,
    {
        let mut out: Vec<u8> = Vec::new();
        bytes::push_u16(&mut out, self.flags_and_sc_id);
        bytes::push_u16(&mut out, self.vc_id_and_length);
        bytes::push_u8(&mut out, self.frame_sequence_num);
        assert(out@ =~= self.wire());
        out
    }
}

/// The trailer of a telemetry transfer frame.
#[derive(Debug, Clone, Copy, PartialEq, Eq, Structural, Default)]
pub struct TMTrailer {
    /// The checksum of the frame up to here.
    pub fecf: u16,
}

impl TMTrailer {
    /// How many bytes the trailer takes.
    pub const SERIALIZED_SIZE: usize = 2;

    /// A trailer with the given checksum.
    pub fn new(fecf: u16) -> (r: Self)
        ensures
            r == (TMTrailer { fecf }),
    {
        TMTrailer { fecf }
    }

    /// The trailer on the wire.
    pub fn serialize(&self) -> (r: Vec<u8>)
        ensures
            r@ == bytes::be16(self.fecf),
    {
        let mut out: Vec<u8> = Vec::new();
        bytes::push_u16(&mut out, self.fecf);
        assert(out@ =~= bytes::be16(self.fecf));
        out
    }
}

/// The trailer of a telecommand transfer frame.
#[derive(Debug, Clone, Copy, PartialEq, Eq, Structural, Default)]
pub struct TCTrailer {
    /// The checksum of the frame up to here.
    pub fecf: u16,
}

impl TCTrailer {
    /// How many bytes the trailer takes.
    pub const SERIALIZED_SIZE: usize = 2;

    /// A trailer with the given checksum.
    pub fn new(fecf: u16) -> (r: Self)
        ensures
            r == (TCTrailer { fecf }),
    {
        TCTrailer { fecf }
    }

    /// The trailer on the wire.
    pub fn serialize(&self) -> (r: Vec<u8>)
        ensures
            r@ == bytes::be16(self.fecf),
    {
        let mut out: Vec<u8> = Vec::new();
        bytes::push_u16(&mut out, self.fecf);
        assert(out@ =~= bytes::be16(self.fecf));
        out
    }
}

/// The trailer of a frame of the advanced orbiting systems.
#[derive(Debug, Clone, Copy, PartialEq, Eq, Structural, Default)]
pub struct AOSTrailer {
    /// The checksum of the frame up to here.
    pub fecf: u16,
}

impl AOSTrailer {
    /// How many bytes the trailer takes.
    pub const SERIALIZED_SIZE: usize = 2;

    /// A trailer with the given checksum.
    pub fn new(fecf: u16) -> (r: Self)
        ensures
            r == (AOSTrailer { fecf }),
    {
        AOSTrailer { fecf }
    }

    /// The trailer on the wire.
    pub fn serialize(&self) -> (r: Vec<u8>)
        ensures
            r@ == bytes::be16(self.fecf),
    {
        let mut out: Vec<u8> = Vec::new();
        bytes::push_u16(&mut out, self.fecf);
        assert(out@ =~= bytes::be16(self.fecf));
        out
    }
}

/// The primary header of a frame of the advanced orbiting systems.
#[derive(Debug, Clone, Copy, PartialEq, Eq, Structural, Default)]
pub struct AOSHeader {
    /// Version (2 bits), low bits of the spacecraft (8), virtual channel (6).
    pub global_vc_id: u16,
    /// Frame count (24 bits), replay flag (1), count usage flag (1), high bits of the
    /// spacecraft (2), count cycle (4).
    pub frame_count_and_signaling: u32,
}

impl AOSHeader {
    /// How many bytes the header takes.
    pub const SERIALIZED_SIZE: usize = 6;

    /// A header made of its words.
    pub fn new(global_vc_id: u16, frame_count_and_signaling: u32) -> (r: Self)
        ensures
            r == (AOSHeader { global_vc_id, frame_count_and_signaling }),
    {
        AOSHeader { global_vc_id, frame_count_and_signaling }
    }

    /// The header on the wire.
    pub fn serialize(&self) -> (r: Vec<u8>)
        ensures
            r@ == bytes::be16(self.global_vc_id) + bytes::be32(self.frame_count_and_signaling),
    {
        let mut out: Vec<u8> = Vec::new();
        bytes::push_u16(&mut out, self.global_vc_id);
        bytes::push_u32(&mut out, self.frame_count_and_signaling);
        assert(out@ =~= bytes::be16(self.global_vc_id) + bytes::be32(
            self.frame_count_and_signaling,
        ));
        out
    }
}

/// The header of a multiplexing data unit.
#[derive(Debug, Clone, Copy, PartialEq, Eq, Structural)]
pub struct MPduHeader {
    /// Where the first packet starts.
    pub first_header_pointer: u16,
}

impl MPduHeader {
    /// How many bytes the header takes.
    pub const SERIALIZED_SIZE: usize = 2;

    /// A header with the given pointer.
    pub fn new(first_header_pointer: u16) -> (r: Self)
        ensures
            r == (MPduHeader { first_header_pointer }),
    {
        MPduHeader { first_header_pointer }
    }

    /// The header on the wire.
    pub fn serialize(&self) -> (r: Vec<u8>)
        ensures
            r@ == bytes::be16(self.first_header_pointer),
    {
        let mut out: Vec<u8> = Vec::new();
        bytes::push_u16(&mut out, self.first_header_pointer);
        assert(out@ =~= bytes::be16(self.first_header_pointer));
        out
    }
}

impl Default for MPduHeader {
    fn default() -> (r: Self)
        ensures
            r.first_header_pointer == m_pdu_subfields::FHP_NO_PACKET_START,
    {
        MPduHeader { first_header_pointer: m_pdu_subfields::FHP_NO_PACKET_START }
    }
}

/// Which port serves a security association.
#[derive(Debug, Clone, Copy, PartialEq, Eq, Structural, Default)]
pub struct SaMapEntry {
    /// The security association.
    pub security_association_index: u16,
    /// The port.
    pub port_index: i16,
}

/// Unpacking an identification word gives back what was packed, cut to its width.
pub proof fn law_identification_round_trip(pvn: u8, packet_type: u8, has_sec_hdr: bool, apid: u16)
    ensures
        ({
            let w = SpacePacketHeader::identification(pvn, packet_type, has_sec_hdr, apid);
            &&& w / 0x2000 == pvn % 8
            &&& w / 0x1000 % 2 == packet_type % 2
            &&& (w / 0x800 % 2 == 1) == has_sec_hdr
            &&& w % 0x800 == apid % 0x800
        }),
{
}

/// Unpacking a sequence control word gives back what was packed, cut to its width.
pub proof fn law_sequence_control_round_trip(sequence_flags: u8, sequence_count: u16)
    ensures
        ({
            let w = SpacePacketHeader::sequence_control(sequence_flags, sequence_count);
            &&& w / 0x4000 == sequence_flags % 4
            &&& w % 0x4000 == sequence_count % 0x4000
        }),
{
}

/// Unpacking the first word of a telemetry header gives back what was packed, for a
/// spacecraft and a virtual channel that fit their fields.
pub proof fn law_channel_word_round_trip(spacecraft_id: u16, vc_id: u8, ocf_flag: bool)
    requires
        spacecraft_id < 0x400,
        vc_id < 8,
    ensures
        ({
            let w = TMHeader::channel_word(spacecraft_id, vc_id, ocf_flag);
            &&& w / 0x4000 == 0
            &&& w / 16 % 0x400 == spacecraft_id
            &&& w / 2 % 8 == vc_id
            &&& (w % 2 == 1) == ocf_flag
        }),
{
    let ocf: u16 = if ocf_flag {
        1
    } else {
        0
    };
    assert(spacecraft_id < 0x400 && vc_id < 8 && ocf < 2 ==> ((vc_id as u16) << 1u32) | (
    spacecraft_id << 4u32) | ocf == spacecraft_id * 16 + vc_id * 2 + ocf) by (bit_vector);
}

/// Unpacking a data field status gives back what was packed, cut to its width.
pub proof fn law_status_word_round_trip(
    sec_hdr_flag: bool,
    sync_flag: bool,
    packet_order_flag: bool,
    segment_length_id: u8,
    first_header_pointer: u16,
)
    ensures
        ({
            let w = TMHeader::status_word(
                sec_hdr_flag,
                sync_flag,
                packet_order_flag,
                segment_length_id,
                first_header_pointer,
            );
            &&& (w / 0x8000 == 1) == sec_hdr_flag
            &&& (w / 0x4000 % 2 == 1) == sync_flag
            &&& (w / 0x2000 % 2 == 1) == packet_order_flag
            &&& w / 0x800 % 4 == segment_length_id % 4
            &&& w % 0x800 == first_header_pointer % 0x800
        }),
{
}

/// Unpacking the words of a telecommand header gives back what was packed, cut to its
/// width; a frame of at most 1024 bytes keeps its length.
pub proof fn law_tc_words_round_trip(
    bypass_flag: bool,
    control_command_flag: bool,
    spacecraft_id: u16,
    vc_id: u8,
    total_frame_length: u16,
)
    requires
        0 < total_frame_length,
    ensures
        ({
            let h = TCHeader {
                flags_and_sc_id: TCHeader::flags_word(
                    bypass_flag,
                    control_command_flag,
                    spacecraft_id,
                ),
                vc_id_and_length: TCHeader::length_word(vc_id, total_frame_length),
                frame_sequence_num: 0,
            };
            &&& h.flags_and_sc_id / 0x4000 == 0
            &&& (h.flags_and_sc_id / 0x2000 % 2 == 1) == bypass_flag
            &&& (h.flags_and_sc_id / 0x1000 % 2 == 1) == control_command_flag
            &&& h.scid() == spacecraft_id % 0x400
            &&& h.vcid() == vc_id % 64
            &&& total_frame_length <= 0x400 ==> h.total() == total_frame_length
        }),
{
}

/// A space packet header survives a trip over the wire, whatever follows it.
pub proof fn law_space_packet_header_round_trip(h: SpacePacketHeader, after: Seq<u8>)
    ensures
        SpacePacketHeader::at_start(h.wire() + after) == h,
{
    let e = Seq::<u8>::empty();
    let s = h.wire() + after;
    let f1 = bytes::be16(h.packet_identification);
    let f2 = bytes::be16(h.packet_sequence_control);
    let f3 = bytes::be16(h.packet_data_length);
    assert(s =~= e + f1 + (f2 + f3 + after));
    bytes::law_u16_round_trip(e, h.packet_identification, f2 + f3 + after);
    assert(s =~= f1 + f2 + (f3 + after));
    bytes::law_u16_round_trip(f1, h.packet_sequence_control, f3 + after);
    assert(s =~= (f1 + f2) + f3 + after);
    bytes::law_u16_round_trip(f1 + f2, h.packet_data_length, after);
}

/// A telecommand header survives a trip over the wire, whatever follows it.
pub proof fn law_tc_header_round_trip(h: TCHeader, after: Seq<u8>)
    ensures
        TCHeader::at_start(h.wire() + after) == h,
{
    let e = Seq::<u8>::empty();
    let s = h.wire() + after;
    let f1 = bytes::be16(h.flags_and_sc_id);
    let f2 = bytes::be16(h.vc_id_and_length);
    let f3 = seq![h.frame_sequence_num];
    assert(s =~= e + f1 + (f2 + f3 + after));
    bytes::law_u16_round_trip(e, h.flags_and_sc_id, f2 + f3 + after);
    assert(s =~= f1 + f2 + (f3 + after));
    bytes::law_u16_round_trip(f1, h.vc_id_and_length, f3 + after);
    assert(s[4] == h.frame_sequence_num);
}

/// Each error has a number of its own.
pub proof fn law_frame_error_numbers(e: FrameError)
    ensures
        e is SpInvalidPacket <==> e.code() == 0,
        e is SpInvalidLength <==> e.code() == 1,
        e is TcInvalidScid <==> e.code() == 2,
        e is TcInvalidLength <==> e.code() == 3,
        e is TcInvalidVcid <==> e.code() == 4,
        e is TcInvalidCrc <==> e.code() == 5,
        e is AosInvalidScid <==> e.code() == 6,
        e is AosInvalidLength <==> e.code() == 7,
        e is AosInvalidVcid <==> e.code() == 8,
        e is AosInvalidCrc <==> e.code() == 9,
        e is AosInvalidVersion <==> e.code() == 10,
        e is AosInvalidEpp <==> e.code() == 11,
        e is AosVcFrameCountGap <==> e.code() == 12,
        e is SdlsDecryptionFailure <==> e.code() == 13,
{
}

/// The words of a telecommand header, field by field: the two flags and the spacecraft in the
/// first, the virtual channel and the length less one in the second.
pub proof fn law_tc_words(
    bypass_flag: bool,
    control_command_flag: bool,
    spacecraft_id: u16,
    vc_id: u8,
    length: u16,
)
    requires
        0 < length,
    ensures
        TCHeader::flags_word(bypass_flag, control_command_flag, spacecraft_id) == (if bypass_flag {
            8192int
        } else {
            0int
        }) + (if control_command_flag {
            4096int
        } else {
            0int
        }) + spacecraft_id % 1024,
        TCHeader::length_word(vc_id, length) == (vc_id % 64) * 1024 + (length - 1) % 1024,
{
}

} // verus!
