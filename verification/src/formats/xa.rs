//! CD-ROM XA (eXtended Architecture) streaming-audio sub-headers.
//!
//! XA audio lives in Mode-2 Form-2 sectors whose 8-byte sub-header is
//! stored twice for error detection.  The sub-header names a file
//! number, a channel, sub-mode flags and coding information; a sector
//! is audio only when the right flag combination is present and the
//! two copies agree.

use vstd::prelude::*;

verus! {

/// Size of an XA sub-header in bytes.
pub const XA_SUBHEADER_SIZE: usize = 8;

/// Number of sound groups per XA audio sector.
pub const SOUND_GROUPS_PER_SECTOR: usize = 18;

/// Size of each sound group in bytes.
pub const SOUND_GROUP_SIZE: usize = 128;

/// Total XA audio data bytes per sector (excluding the unused tail).
pub const XA_AUDIO_DATA_SIZE: usize = 18 * 128;

/// Sub-mode flag byte.
///
/// Bit 7: end of file; bit 6: real-time; bit 5: form (set means
/// Form 2); bit 4: trigger; bit 3: data; bit 2: audio; bit 1: video;
/// bit 0: end of record.
#[derive(Debug, Clone, Copy, PartialEq, Eq, Structural)]
pub struct SubMode {
    bits: u8,
}

/// At most one of the data, audio and video flags is set.
pub open spec fn spec_submode_valid(bits: u8) -> bool {
    let dav = (bits / 2) & 0x07u8;
    dav == 0 || dav == 1 || dav == 2 || dav == 4
}

/// The flag combination that marks an audio sector: Form 2, audio and
/// real-time set, data and video clear.
pub open spec fn spec_submode_audio_sector(bits: u8) -> bool {
    &&& bits & 0x20u8 != 0
    &&& bits & 0x04u8 != 0
    &&& bits & 0x40u8 != 0
    &&& bits & 0x08u8 == 0
    &&& bits & 0x02u8 == 0
}

impl SubMode {
    /// The raw flag byte.
    pub closed spec fn spec_bits(&self) -> u8 {
        self.bits
    }

    /// Wrap a raw flag byte.
    pub fn from_byte(byte: u8) -> (r: Self)
        ensures
            r.spec_bits() == byte,
    {
        Self { bits: byte }
    }

    /// Bit 7: last sector of the file.
    pub fn is_end_of_file(&self) -> (r: bool)
        ensures
            r == (self.spec_bits() & 0x80u8 != 0),
    {
        self.bits & 0x80 != 0
    }

    /// Bit 6: real-time sector.
    pub fn is_real_time(&self) -> (r: bool)
        ensures
            r == (self.spec_bits() & 0x40u8 != 0),
    {
        self.bits & 0x40 != 0
    }

    /// Bit 5: Form 2 sector.
    pub fn is_form2(&self) -> (r: bool)
        ensures
            r == (self.spec_bits() & 0x20u8 != 0),
    {
        self.bits & 0x20 != 0
    }

    /// Bit 4: trigger sector.
    pub fn is_trigger(&self) -> (r: bool)
        ensures
            r == (self.spec_bits() & 0x10u8 != 0),
    {
        self.bits & 0x10 != 0
    }

    /// Bit 3: data sector.
    pub fn is_data(&self) -> (r: bool)
        ensures
            r == (self.spec_bits() & 0x08u8 != 0),
    {
        self.bits & 0x08 != 0
    }

    /// Bit 2: audio sector.
    pub fn is_audio(&self) -> (r: bool)
        ensures
            r == (self.spec_bits() & 0x04u8 != 0),
    {
        self.bits & 0x04 != 0
    }

    /// Bit 1: video sector.
    pub fn is_video(&self) -> (r: bool)
        ensures
            r == (self.spec_bits() & 0x02u8 != 0),
    {
        self.bits & 0x02 != 0
    }

    /// Bit 0: last sector of the record.
    pub fn is_end_of_record(&self) -> (r: bool)
        ensures
            r == (self.spec_bits() & 0x01u8 != 0),
    {
        self.bits & 0x01 != 0
    }

    /// The data, audio and video flags are mutually exclusive: at most
    /// one of the three is set.
    pub fn is_valid(&self) -> (r: bool)
        ensures
            r == spec_submode_valid(self.spec_bits()),
    {
        let dav = (self.bits / 2) & 0x07;
        dav == 0 || dav == 1 || dav == 2 || dav == 4
    }
}

/// Coding-information byte for XA ADPCM audio.
///
/// Bit 4: bits per sample (clear means 4, set means 8); bit 2: sample
/// rate (clear means 37800 Hz, set means 18900 Hz); bit 0: stereo;
/// bit 6: emphasis; bits 5, 3 and 1 are reserved and must be clear.
#[derive(Debug, Clone, Copy, PartialEq, Eq, Structural)]
pub struct CodingInfo {
    bits: u8,
}

/// The reserved bits (5, 3 and 1) are clear.
pub open spec fn spec_coding_valid(bits: u8) -> bool {
    bits & 0x2au8 == 0
}

impl CodingInfo {
    /// The raw coding byte.
    pub closed spec fn spec_bits(&self) -> u8 {
        self.bits
    }

    /// Wrap a raw coding byte.
    pub fn from_byte(byte: u8) -> (r: Self)
        ensures
            r.spec_bits() == byte,
    {
        Self { bits: byte }
    }

    /// Bits per sample: 4 when bit 4 is clear, 8 when set.
    pub fn bits_per_sample(&self) -> (r: u8)
        ensures
            r == if self.spec_bits() & 0x10u8 == 0 {
                4u8
            } else {
                8u8
            },
    {
        if self.bits & 0x10 == 0 {
            4
        } else {
            8
        }
    }

    /// Sample rate in Hz: 37800 when bit 2 is clear, 18900 when set.
    pub fn sample_rate(&self) -> (r: u32)
        ensures
            r == if self.spec_bits() & 0x04u8 == 0 {
                37800u32
            } else {
                18900u32
            },
    {
        if self.bits & 0x04 == 0 {
            37800
        } else {
            18900
        }
    }

    /// Whether the stream is stereo (bit 0).
    pub fn is_stereo(&self) -> (r: bool)
        ensures
            r == (self.spec_bits() & 0x01u8 != 0),
    {
        self.bits & 0x01 != 0
    }

    /// Whether the emphasis flag is set (bit 6).
    pub fn has_emphasis(&self) -> (r: bool)
        ensures
            r == (self.spec_bits() & 0x40u8 != 0),
    {
        self.bits & 0x40 != 0
    }

    /// The reserved bits (5, 3 and 1) are clear.
    pub fn is_valid(&self) -> (r: bool)
        ensures
            r == spec_coding_valid(self.spec_bits()),
    {
        self.bits & 0x2a == 0
    }
}

/// A validated XA sub-header.
#[derive(Debug, Clone, Copy, PartialEq, Eq, Structural)]
pub struct XaSubHeader {
    /// File number.
    pub file_number: u8,
    /// Channel number.
    pub channel: u8,
    /// Sub-mode flags.
    pub sub_mode: SubMode,
    /// Coding information.
    pub coding_info: CodingInfo,
}

/// An 8-byte region parses as a sub-header: the two 4-byte copies are
/// identical, the sub-mode flags are mutually exclusive, and the
/// coding reserved bits are clear.
pub open spec fn spec_subheader_ok(d: Seq<u8>) -> bool {
    &&& d.len() >= 8
    &&& d[0] == d[4]
    &&& d[1] == d[5]
    &&& d[2] == d[6]
    &&& d[3] == d[7]
    &&& spec_submode_valid(d[2])
    &&& spec_coding_valid(d[3])
}

impl XaSubHeader {
    /// Parse the duplicated 8-byte sub-header at the start of `data`.
    ///
    /// Returns `None` exactly when the region is too short, the two
    /// copies differ, or the flag bytes violate their rules.
    pub fn parse(data: &[u8]) -> (r: Option<Self>)
        ensures
            r is Some <==> spec_subheader_ok(data@),
            r matches Some(h) ==> ({
                &&& h.file_number == data@[0]
                &&& h.channel == data@[1]
                &&& h.sub_mode.spec_bits() == data@[2]
                &&& h.coding_info.spec_bits() == data@[3]
            }),
    {
        if data.len() < XA_SUBHEADER_SIZE {
            return None;
        }
        let file_number = data[0];
        let channel = data[1];
        let sub_mode = SubMode::from_byte(data[2]);
        let coding_info = CodingInfo::from_byte(data[3]);
        if file_number != data[4] || channel != data[5] || data[2] != data[6] || data[3] != data[7]
        {
            return None;
        }
        if !sub_mode.is_valid() || !coding_info.is_valid() {
            return None;
        }
        Some(Self { file_number, channel, sub_mode, coding_info })
    }

    /// Whether this sub-header marks an XA audio sector: Form 2, audio
    /// and real-time flags set, data and video flags clear.
    pub fn is_audio(&self) -> (r: bool)
        ensures
            r == spec_submode_audio_sector(self.sub_mode.spec_bits()),
    {
        self.sub_mode.is_form2() && self.sub_mode.is_audio() && self.sub_mode.is_real_time()
            && !self.sub_mode.is_data() && !self.sub_mode.is_video()
    }
}

/// Metadata of one XA audio stream: a run of consecutive audio sectors
/// sharing a `(file_number, channel)` pair.
#[derive(Debug, Clone, Copy, PartialEq, Eq, Structural)]
pub struct XaAudioStream {
    /// First sector of the stream.
    pub start_sector: u32,
    /// Last sector of the stream (inclusive).
    pub end_sector: u32,
    /// File number shared by the stream's sectors.
    pub file_number: u8,
    /// Channel shared by the stream's sectors.
    pub channel: u8,
    /// Audio format of the stream.
    pub coding_info: CodingInfo,
    /// Number of sectors in the stream.
    pub sector_count: u32,
}

impl XaAudioStream {
    /// Total audio payload of the stream in bytes (2304 per sector).
    pub fn total_size(&self) -> (r: usize)
        requires
            self.sector_count * 2304 <= usize::MAX,
        ensures
            r == self.sector_count * 2304,
    {
        self.sector_count as usize * XA_AUDIO_DATA_SIZE
    }
}

} // verus!
