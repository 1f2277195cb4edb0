//! VAB sound-bank container.
//!
//! A bank is a 2048-byte header (magic `VABp`, version, bank id, size,
//! then program/tone/sample counts and master volume and pan), a table
//! of 128 16-byte program entries, a table of 256 32-byte tone
//! entries, two 256-entry tables of sample offsets and sizes in
//! 2048-byte units, and the concatenated sample data.

use vstd::prelude::*;

use crate::bytes::{le16, le16_signed, le32, read_le16, read_le16_signed, read_le32};
use crate::PsxError;

verus! {

/// VAB version word.
pub const VAB_VERSION: u32 = 0x00000007;

/// Maximum number of programs in a bank.
pub const MAX_PROGRAMS: usize = 128;

/// Maximum number of tones in a bank.
pub const MAX_TONES: usize = 256;

/// Maximum number of samples in a bank.
pub const MAX_VAGS: usize = 256;

/// Program (instrument) of a bank.
#[derive(Debug, Clone, Copy, PartialEq, Eq, Structural)]
pub struct Program {
    /// Number of tones in this program.
    pub num_tones: u8,
    /// Program volume.
    pub volume: u8,
    /// Program priority.
    pub priority: u8,
    /// Program mode.
    pub mode: u8,
    /// Pan.
    pub pan: u8,
    /// Pitch bend.
    pub pitch_bend: i16,
}

impl DeepView for Program {
    type V = Program;

    open spec fn deep_view(&self) -> Program {
        *self
    }
}

/// Tone (individual sound) of a bank.
#[derive(Debug, Clone, Copy, PartialEq, Eq, Structural)]
pub struct Tone {
    /// Priority.
    pub priority: u8,
    /// Mode.
    pub mode: u8,
    /// Volume.
    pub volume: u8,
    /// Pan.
    pub pan: u8,
    /// Center note.
    pub center_note: u8,
    /// Fine tuning.
    pub center_tune: u8,
    /// Lowest note.
    pub min_note: u8,
    /// Highest note.
    pub max_note: u8,
    /// Vibrato width.
    pub vibrato_width: u8,
    /// Vibrato time.
    pub vibrato_time: u8,
    /// Portamento width.
    pub portamento_width: u8,
    /// Portamento time.
    pub portamento_time: u8,
    /// Lowest pitch bend.
    pub pitch_bend_min: u8,
    /// Highest pitch bend.
    pub pitch_bend_max: u8,
    /// Envelope word 1.
    pub adsr1: u16,
    /// Envelope word 2.
    pub adsr2: u16,
    /// Parent program number.
    pub program_index: i16,
    /// Sample index.
    pub vag_index: i16,
}

impl DeepView for Tone {
    type V = Tone;

    open spec fn deep_view(&self) -> Tone {
        *self
    }
}

/// One sample's raw bytes within a bank.
#[derive(Debug, Clone)]
pub struct VagSample {
    /// Raw sample data.
    pub data: Vec<u8>,
}

impl DeepView for VagSample {
    type V = Seq<u8>;

    open spec fn deep_view(&self) -> Seq<u8> {
        self.data@
    }
}

/// The header starts with the `VABp` magic.
pub open spec fn spec_vab_magic_ok(d: Seq<u8>) -> bool {
    d[0] == 0x56u8 && d[1] == 0x41u8 && d[2] == 0x42u8 && d[3] == 0x70u8
}

/// The program entry at offset `o`.
pub open spec fn spec_program_at(d: Seq<u8>, o: int) -> Program {
    Program {
        num_tones: d[o],
        volume: d[o + 1],
        priority: d[o + 2],
        mode: d[o + 3],
        pan: d[o + 4],
        pitch_bend: le16_signed(d, o + 6),
    }
}

/// The tone entry at offset `o`.
pub open spec fn spec_tone_at(d: Seq<u8>, o: int) -> Tone {
    Tone {
        priority: d[o],
        mode: d[o + 1],
        volume: d[o + 2],
        pan: d[o + 3],
        center_note: d[o + 4],
        center_tune: d[o + 5],
        min_note: d[o + 6],
        max_note: d[o + 7],
        vibrato_width: d[o + 8],
        vibrato_time: d[o + 9],
        portamento_width: d[o + 10],
        portamento_time: d[o + 11],
        pitch_bend_min: d[o + 12],
        pitch_bend_max: d[o + 13],
        adsr1: le16(d, o + 16),
        adsr2: le16(d, o + 18),
        program_index: le16_signed(d, o + 20),
        vag_index: le16_signed(d, o + 22),
    }
}

/// How many programs the bank yields: the declared count, capped at
/// 128 and at what the buffer holds (the table starts at 2048).
pub open spec fn spec_program_count(d: Seq<u8>) -> int {
    let declared = if le16(d, 18) > 128 {
        128int
    } else {
        le16(d, 18) as int
    };
    let avail = (d.len() - 2048) / 16;
    if declared <= avail {
        declared
    } else {
        avail
    }
}

/// How many tones the bank yields (the table starts at 4096).
pub open spec fn spec_tone_count(d: Seq<u8>) -> int {
    let declared = if le16(d, 20) > 256 {
        256int
    } else {
        le16(d, 20) as int
    };
    let avail = if d.len() >= 4096 {
        (d.len() - 4096) / 32
    } else {
        0int
    };
    if declared <= avail {
        declared
    } else {
        avail
    }
}

/// How many samples the bank yields (the size table starts at 12800).
pub open spec fn spec_vag_count(d: Seq<u8>) -> int {
    let declared = if le16(d, 22) > 256 {
        256int
    } else {
        le16(d, 22) as int
    };
    let avail = if d.len() >= 12800 {
        (d.len() - 12800) / 2
    } else {
        0int
    };
    if declared <= avail {
        declared
    } else {
        avail
    }
}

/// The bytes of sample `i`: its offset and size come from the two
/// 2048-byte-unit tables at 12288 and 12800; an empty or out-of-range
/// sample yields no bytes.
pub open spec fn spec_vag_sample_at(d: Seq<u8>, i: int) -> Seq<u8> {
    let vo = le16(d, 12288 + 2 * i) * 2048;
    let vs = le16(d, 12800 + 2 * i) * 2048;
    if vs > 0 && d.len() >= vo + vs {
        d.subrange(vo as int, vo + vs)
    } else {
        Seq::empty()
    }
}

/// The program table of the bank.
pub open spec fn spec_programs(d: Seq<u8>) -> Seq<Program> {
    Seq::new(spec_program_count(d) as nat, |i: int| spec_program_at(d, 2048 + 16 * i))
}

/// The tone table of the bank.
pub open spec fn spec_tones(d: Seq<u8>) -> Seq<Tone> {
    Seq::new(spec_tone_count(d) as nat, |i: int| spec_tone_at(d, 4096 + 32 * i))
}

/// The sample list of the bank.
pub open spec fn spec_vag_samples(d: Seq<u8>) -> Seq<Seq<u8>> {
    Seq::new(spec_vag_count(d) as nat, |i: int| spec_vag_sample_at(d, i))
}

/// Parsed VAB sound bank.
#[derive(Debug)]
pub struct Vab {
    /// Bank id.
    pub vab_id: u32,
    /// Master volume (0-127).
    pub master_volume: u8,
    /// Master pan (0-127, 64 is center).
    pub master_pan: u8,
    /// Programs (instruments).
    pub programs: Vec<Program>,
    /// Tones (individual sounds).
    pub tones: Vec<Tone>,
    /// Samples (raw ADPCM data).
    pub vag_samples: Vec<VagSample>,
}

impl Vab {
    /// Parse a VAB bank.
    ///
    /// Fails with `Truncated` when fewer than 2048 header bytes are
    /// present and with `InvalidSignature` on a wrong magic.  Each
    /// table is read up to its declared count, capped at the format
    /// maxima and at what the buffer holds.
    pub fn parse(data: &[u8]) -> (r: Result<Self, PsxError>)
        requires
            data@.len() <= usize::MAX - 2048,
        ensures
            r is Ok <==> data@.len() >= 2048 && spec_vab_magic_ok(data@),
            r matches Ok(v) ==> ({
                &&& v.vab_id == le32(data@, 8)
                &&& v.master_volume == data@[24]
                &&& v.master_pan == data@[25]
                &&& v.programs.deep_view() == spec_programs(data@)
                &&& v.tones.deep_view() == spec_tones(data@)
                &&& v.vag_samples.deep_view() == spec_vag_samples(data@)
            }),
            r matches Err(e) ==> (e == PsxError::Truncated <==> data@.len() < 2048) && (e
                == PsxError::InvalidSignature <==> data@.len() >= 2048 && !spec_vab_magic_ok(
                data@,
            )),
    {
        let n = data.len();
        if n < 2048 {
            return Err(PsxError::Truncated);
        }
        if data[0] != 0x56 || data[1] != 0x41 || data[2] != 0x42 || data[3] != 0x70 {
            return Err(PsxError::InvalidSignature);
        }
        let vab_id = read_le32(data, 8);
        let num_programs = read_le16(data, 18) as usize;
        let num_tones = read_le16(data, 20) as usize;
        let num_vags = read_le16(data, 22) as usize;
        let master_volume = data[24];
        let master_pan = data[25];

        let np = if num_programs > MAX_PROGRAMS {
            MAX_PROGRAMS
        } else {
            num_programs
        };
        let avail_p = (n - 2048) / 16;
        let pcount = if np <= avail_p {
            np
        } else {
            avail_p
        };
        assert(pcount == spec_program_count(data@));
        let mut programs: Vec<Program> = Vec::new();
        let mut i: usize = 0;
        while i < pcount
            invariant
                0 <= i <= pcount,
                2048 + pcount * 16 <= n == data@.len(),
                programs@.len() == i,
                forall|j: int|
                    0 <= j < i ==> programs@[j] == spec_program_at(data@, 2048 + 16 * j),
            decreases pcount - i,
        {
            proof {
                assert(16 * i + 16 <= pcount * 16) by (nonlinear_arith)
                    requires
                        0 <= i < pcount,
                ;
            }
            let o = 2048 + 16 * i;
            programs.push(
                Program {
                    num_tones: data[o],
                    volume: data[o + 1],
                    priority: data[o + 2],
                    mode: data[o + 3],
                    pan: data[o + 4],
                    pitch_bend: read_le16_signed(data, o + 6),
                },
            );
            i += 1;
        }
        assert(programs.deep_view() =~= spec_programs(data@));

        let nt = if num_tones > MAX_TONES {
            MAX_TONES
        } else {
            num_tones
        };
        let avail_t = if n >= 4096 {
            (n - 4096) / 32
        } else {
            0
        };
        let tcount = if nt <= avail_t {
            nt
        } else {
            avail_t
        };
        assert(tcount == spec_tone_count(data@));
        let mut tones: Vec<Tone> = Vec::new();
        let mut i: usize = 0;
        while i < tcount
            invariant
                0 <= i <= tcount,
                n == data@.len(),
                tcount > 0 ==> 4096 + tcount * 32 <= n,
                tones@.len() == i,
                forall|j: int| 0 <= j < i ==> tones@[j] == spec_tone_at(data@, 4096 + 32 * j),
            decreases tcount - i,
        {
            proof {
                assert(32 * i + 32 <= tcount * 32) by (nonlinear_arith)
                    requires
                        0 <= i < tcount,
                ;
            }
            let o = 4096 + 32 * i;
            tones.push(
                Tone {
                    priority: data[o],
                    mode: data[o + 1],
                    volume: data[o + 2],
                    pan: data[o + 3],
                    center_note: data[o + 4],
                    center_tune: data[o + 5],
                    min_note: data[o + 6],
                    max_note: data[o + 7],
                    vibrato_width: data[o + 8],
                    vibrato_time: data[o + 9],
                    portamento_width: data[o + 10],
                    portamento_time: data[o + 11],
                    pitch_bend_min: data[o + 12],
                    pitch_bend_max: data[o + 13],
                    adsr1: read_le16(data, o + 16),
                    adsr2: read_le16(data, o + 18),
                    program_index: read_le16_signed(data, o + 20),
                    vag_index: read_le16_signed(data, o + 22),
                },
            );
            i += 1;
        }
        assert(tones.deep_view() =~= spec_tones(data@));

        let nv = if num_vags > MAX_VAGS {
            MAX_VAGS
        } else {
            num_vags
        };
        let avail_v = if n >= 12800 {
            (n - 12800) / 2
        } else {
            0
        };
        let vcount = if nv <= avail_v {
            nv
        } else {
            avail_v
        };
        assert(vcount == spec_vag_count(data@));
        let mut vag_samples: Vec<VagSample> = Vec::new();
        let mut i: usize = 0;
        while i < vcount
            invariant
                0 <= i <= vcount,
                n == data@.len(),
                vcount <= 256,
                vcount > 0 ==> 12800 + vcount * 2 <= n,
                vag_samples@.len() == i,
                forall|j: int|
                    0 <= j < i ==> #[trigger] vag_samples@[j].data@ == spec_vag_sample_at(
                        data@,
                        j,
                    ),
            decreases vcount - i,
        {
            proof {
                assert(2 * i + 2 <= vcount * 2) by (nonlinear_arith)
                    requires
                        0 <= i < vcount,
                ;
            }
            let offset_units = read_le16(data, 12288 + 2 * i) as usize;
            let size_units = read_le16(data, 12800 + 2 * i) as usize;
            let vag_offset = offset_units * 2048;
            let vag_size = size_units * 2048;
            let mut sample: Vec<u8> = Vec::new();
            if vag_size > 0 && vag_size <= n && vag_offset <= n - vag_size {
                let mut k: usize = 0;
                while k < vag_size
                    invariant
                        0 <= k <= vag_size,
                        vag_offset + vag_size <= n == data@.len(),
                        sample@ =~= data@.subrange(vag_offset as int, vag_offset + k),
                    decreases vag_size - k,
                {
                    sample.push(data[vag_offset + k]);
                    assert(sample@ =~= data@.subrange(vag_offset as int, vag_offset + k + 1));
                    k += 1;
                }
            }
            assert(sample@ == spec_vag_sample_at(data@, i as int));
            vag_samples.push(VagSample { data: sample });
            i += 1;
        }
        assert(vag_samples.deep_view() =~= spec_vag_samples(data@));

        Ok(Vab { vab_id, master_volume, master_pan, programs, tones, vag_samples })
    }

    /// The sample at `index`, if the bank has one.
    pub fn get_vag(&self, index: usize) -> (r: Option<&VagSample>)
        ensures
            r is Some <==> index < self.vag_samples@.len(),
            r matches Some(v) ==> v.data@ == self.vag_samples@[index as int].data@,
    {
        if index < self.vag_samples.len() {
            Some(&self.vag_samples[index])
        } else {
            None
        }
    }

    /// The program at `index`, if the bank has one.
    pub fn get_program(&self, index: usize) -> (r: Option<&Program>)
        ensures
            r is Some <==> index < self.programs@.len(),
            r matches Some(p) ==> *p == self.programs@[index as int],
    {
        if index < self.programs.len() {
            Some(&self.programs[index])
        } else {
            None
        }
    }

    /// The tone at `index`, if the bank has one.
    pub fn get_tone(&self, index: usize) -> (r: Option<&Tone>)
        ensures
            r is Some <==> index < self.tones@.len(),
            r matches Some(t) ==> *t == self.tones@[index as int],
    {
        if index < self.tones.len() {
            Some(&self.tones[index])
        } else {
            None
        }
    }
}

} // verus!
