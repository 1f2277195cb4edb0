//! TIM texture container.
//!
//! A texture is an 8-byte header (32-bit magic `0x10`, then a flags
//! word whose low three bits select the pixel mode and whose bit 3
//! marks a palette), an optional palette block, and a pixel block.
//! Each block is a 12-byte header (32-bit size including the header,
//! VRAM position, width and height) followed by its data.  Validation
//! and parsing apply the same rules, so the fast validator and the
//! full parser accept exactly the same inputs.

use vstd::prelude::*;

use crate::bytes::{le16, le32, read_le16, read_le32};
use crate::PsxError;

verus! {

/// TIM magic number.
pub const TIM_MAGIC: u32 = 0x10;

/// Maximum accepted block width in 16-bit words.
pub const MAX_TIM_WORD_WIDTH: u16 = 16384;

/// Maximum accepted block height.
pub const MAX_TIM_HEIGHT: u16 = 8192;

/// TIM pixel modes.
#[derive(Debug, Clone, Copy, PartialEq, Eq, Structural)]
pub enum PixelMode {
    /// 4-bit indexed color (16 colors, needs a palette).
    Clut4Bit,
    /// 8-bit indexed color (256 colors, needs a palette).
    Clut8Bit,
    /// 16-bit direct color (one 15-bit color plus one flag bit).
    Direct16Bit,
    /// 24-bit direct color.
    Direct24Bit,
    /// Mixed mode (rare; not decodable here).
    Mixed,
}

/// The pixel mode encoded by the low three bits of the flags word.
pub open spec fn spec_pixel_mode(flags: u32) -> PixelMode {
    let m = flags % 8;
    if m == 0 {
        PixelMode::Clut4Bit
    } else if m == 1 {
        PixelMode::Clut8Bit
    } else if m == 2 {
        PixelMode::Direct16Bit
    } else if m == 3 {
        PixelMode::Direct24Bit
    } else {
        PixelMode::Mixed
    }
}

/// Bits per pixel of a mode (mixed mode reads as 16).
pub open spec fn spec_bits_per_pixel(m: PixelMode) -> u8 {
    match m {
        PixelMode::Clut4Bit => 4,
        PixelMode::Clut8Bit => 8,
        PixelMode::Direct16Bit => 16,
        PixelMode::Direct24Bit => 24,
        PixelMode::Mixed => 16,
    }
}

impl PixelMode {
    /// The mode selected by the low three bits of a flags word;
    /// values 5 to 7 are invalid.
    pub fn from_u32(value: u32) -> (r: Result<Self, PsxError>)
        ensures
            r is Ok <==> value % 8 <= 4,
            r matches Ok(m) ==> m == spec_pixel_mode(value),
            r matches Err(e) ==> e == PsxError::InvalidField,
    {
        let m = value % 8;
        if m == 0 {
            Ok(Self::Clut4Bit)
        } else if m == 1 {
            Ok(Self::Clut8Bit)
        } else if m == 2 {
            Ok(Self::Direct16Bit)
        } else if m == 3 {
            Ok(Self::Direct24Bit)
        } else if m == 4 {
            Ok(Self::Mixed)
        } else {
            Err(PsxError::InvalidField)
        }
    }

    /// Bits per pixel of this mode (mixed mode reads as 16).
    pub fn bits_per_pixel(&self) -> (r: u8)
        ensures
            r == spec_bits_per_pixel(*self),
    {
        match self {
            Self::Clut4Bit => 4,
            Self::Clut8Bit => 8,
            Self::Direct16Bit => 16,
            Self::Direct24Bit => 24,
            Self::Mixed => 16,
        }
    }
}

/// Ghost model of a palette block.
pub struct ClutModel {
    /// Position in VRAM.
    pub vram_pos: (u16, u16),
    /// Dimensions (colors per row, rows).
    pub dimensions: (u16, u16),
    /// The 15-bit-plus-flag colors.
    pub data: Seq<u16>,
}

/// Ghost model of a pixel block.
pub struct PixelModel {
    /// Position in VRAM.
    pub vram_pos: (u16, u16),
    /// Dimensions (width in 16-bit words, height).
    pub dimensions: (u16, u16),
    /// Raw pixel bytes.
    pub data: Seq<u8>,
}

/// Ghost model of a parsed texture.
pub struct TimModel {
    /// Pixel mode.
    pub pixel_mode: PixelMode,
    /// Whether a palette block is present.
    pub has_clut: bool,
    /// The palette block, when present.
    pub clut: Option<ClutModel>,
    /// The pixel block.
    pub pixels: PixelModel,
}

/// Color lookup table data.
#[derive(Debug)]
pub struct ClutData {
    /// Position in VRAM.
    pub vram_pos: (u16, u16),
    /// Dimensions (colors per row, rows).
    pub dimensions: (u16, u16),
    /// Raw palette colors.
    pub data: Vec<u16>,
}

impl View for ClutData {
    type V = ClutModel;

    open spec fn view(&self) -> ClutModel {
        ClutModel { vram_pos: self.vram_pos, dimensions: self.dimensions, data: self.data@ }
    }
}

impl DeepView for ClutData {
    type V = ClutModel;

    open spec fn deep_view(&self) -> ClutModel {
        self@
    }
}

/// Pixel block data.
#[derive(Debug)]
pub struct PixelData {
    /// Position in VRAM.
    pub vram_pos: (u16, u16),
    /// Dimensions (width in 16-bit words, height).
    pub dimensions: (u16, u16),
    /// Raw pixel bytes.
    pub data: Vec<u8>,
}

impl View for PixelData {
    type V = PixelModel;

    open spec fn view(&self) -> PixelModel {
        PixelModel { vram_pos: self.vram_pos, dimensions: self.dimensions, data: self.data@ }
    }
}

impl DeepView for PixelData {
    type V = PixelModel;

    open spec fn deep_view(&self) -> PixelModel {
        self@
    }
}

/// Parsed TIM texture.
#[derive(Debug)]
pub struct Tim {
    /// Pixel mode (color depth).
    pub pixel_mode: PixelMode,
    /// Whether this texture carries a palette.
    pub has_clut: bool,
    /// Palette data, for indexed modes.
    pub clut: Option<ClutData>,
    /// Pixel data.
    pub pixels: PixelData,
}

impl View for Tim {
    type V = TimModel;

    open spec fn view(&self) -> TimModel {
        TimModel {
            pixel_mode: self.pixel_mode,
            has_clut: self.has_clut,
            clut: match self.clut {
                Option::Some(c) => Option::Some(c@),
                Option::None => Option::None,
            },
            pixels: self.pixels@,
        }
    }
}

impl DeepView for Tim {
    type V = TimModel;

    open spec fn deep_view(&self) -> TimModel {
        self@
    }
}

/// The display width in pixels of a block `words` 16-bit words wide.
pub open spec fn spec_mode_width(m: PixelMode, words: u16) -> int {
    match m {
        PixelMode::Clut4Bit => words * 4,
        PixelMode::Clut8Bit => words * 2,
        PixelMode::Direct16Bit => words as int,
        PixelMode::Direct24Bit => words * 2 / 3,
        PixelMode::Mixed => words as int,
    }
}

/// What parsing texture bytes `d` yields.
///
/// The checks, in order: at least 8 header bytes; the magic; no
/// reserved flag bits; a known pixel mode; then for the palette block
/// (when flagged) and the pixel block in turn, a complete 12-byte
/// block header, sane dimensions, a sane declared size, and data that
/// fits in the input.  The pixel block's declared size must also match
/// its dimensions (16 bits per word) within a 2-byte tolerance, and a
/// 4-bit texture's display width must fit 16 bits.
pub open spec fn spec_parse_tim(d: Seq<u8>) -> Result<TimModel, PsxError> {
    if d.len() < 8 {
        Result::Err(PsxError::Truncated)
    } else if le32(d, 0) != 0x10 {
        Result::Err(PsxError::InvalidSignature)
    } else if le32(d, 4) / 16 != 0 {
        Result::Err(PsxError::InvalidField)
    } else if le32(d, 4) % 8 > 4 {
        Result::Err(PsxError::InvalidField)
    } else {
        let flags = le32(d, 4);
        let mode = spec_pixel_mode(flags);
        let has_clut = flags % 16 / 8 == 1;
        if has_clut {
            if d.len() < 20 {
                Result::Err(PsxError::Truncated)
            } else {
                let csize = le32(d, 8);
                let cds = if csize >= 12 {
                    csize - 12
                } else {
                    0
                };
                let cw = le16(d, 16);
                let ch = le16(d, 18);
                if csize % 2 != 0 || cds > 16384 * 2 * 8192 + 12 {
                    Result::Err(PsxError::InvalidField)
                } else if cw == 0 || cw > 16384 || ch == 0 || ch > 8192 {
                    Result::Err(PsxError::InvalidField)
                } else if d.len() < 20 + cds {
                    Result::Err(PsxError::Truncated)
                } else {
                    match spec_parse_pixel_block(d, 20 + cds as int, mode) {
                        Result::Err(e) => Result::Err(e),
                        Result::Ok(px) => Result::Ok(
                            TimModel {
                                pixel_mode: mode,
                                has_clut: true,
                                clut: Option::Some(
                                    ClutModel {
                                        vram_pos: (le16(d, 12), le16(d, 14)),
                                        dimensions: (cw, ch),
                                        data: Seq::new(
                                            (cds / 2) as nat,
                                            |i: int| le16(d, 20 + 2 * i),
                                        ),
                                    },
                                ),
                                pixels: px,
                            },
                        ),
                    }
                }
            }
        } else {
            match spec_parse_pixel_block(d, 8, mode) {
                Result::Err(e) => Result::Err(e),
                Result::Ok(px) => Result::Ok(
                    TimModel {
                        pixel_mode: mode,
                        has_clut: false,
                        clut: Option::None,
                        pixels: px,
                    },
                ),
            }
        }
    }
}

/// Parse the pixel block starting at offset `o` of `d`.
pub open spec fn spec_parse_pixel_block(d: Seq<u8>, o: int, mode: PixelMode) -> Result<
    PixelModel,
    PsxError,
> {
    if d.len() < o + 12 {
        Result::Err(PsxError::Truncated)
    } else {
        let psize = le32(d, o);
        let pds = if psize >= 12 {
            psize - 12
        } else {
            0
        };
        let pw = le16(d, o + 8);
        let ph = le16(d, o + 10);
        if pw == 0 || pw > 16384 || ph == 0 || ph > 8192 {
            Result::Err(PsxError::InvalidField)
        } else if pds > 16384 * 2 * 8192 + 12 {
            Result::Err(PsxError::InvalidField)
        } else if psize < pw * 2 * ph + 12 || psize > pw * 2 * ph + 14 {
            Result::Err(PsxError::InvalidField)
        } else if mode == PixelMode::Clut4Bit && pw * 4 > 65535 {
            Result::Err(PsxError::InvalidField)
        } else if d.len() < o + 12 + pds {
            Result::Err(PsxError::Truncated)
        } else {
            Result::Ok(
                PixelModel {
                    vram_pos: (le16(d, o + 4), le16(d, o + 6)),
                    dimensions: (pw, ph),
                    data: d.subrange(o + 12, o + 12 + pds),
                },
            )
        }
    }
}

/// Total byte size of the texture `m` was parsed from: the 8-byte
/// header, the palette block when present, and the pixel block.
pub open spec fn spec_tim_size(m: TimModel) -> int {
    8 + (match m.clut {
        Option::Some(c) => 12 + 2 * c.data.len() as int,
        Option::None => 0int,
    }) + 12 + m.pixels.data.len()
}

/// The display width of `m` in pixels.
pub open spec fn spec_tim_width(m: TimModel) -> int {
    spec_mode_width(m.pixel_mode, m.pixels.dimensions.0)
}

/// What the fast validator yields: display width, height, and total
/// byte size, under exactly the parser's acceptance rules.
pub open spec fn spec_validate_tim(d: Seq<u8>) -> Result<(u16, u16, int), PsxError> {
    match spec_parse_tim(d) {
        Result::Err(e) => Result::Err(e),
        Result::Ok(m) => Result::Ok(
            (spec_tim_width(m) as u16, m.pixels.dimensions.1, spec_tim_size(m)),
        ),
    }
}

/// A parsed texture is internally consistent: dimensions within the
/// maxima, pixel data at least 16 bits per word of each row, and a
/// 4-bit texture's display width fits 16 bits.
pub open spec fn spec_tim_wf(m: TimModel) -> bool {
    &&& 1 <= m.pixels.dimensions.0 <= 16384
    &&& 1 <= m.pixels.dimensions.1 <= 8192
    &&& m.pixels.data.len() >= m.pixels.dimensions.0 * 2 * m.pixels.dimensions.1
    &&& (m.pixel_mode == PixelMode::Clut4Bit ==> m.pixels.dimensions.0 * 4 <= 65535)
    &&& (m.has_clut <==> m.clut is Some)
}

/// The texture can be converted to RGBA: a decodable mode, with a
/// palette present for the indexed modes.
pub open spec fn spec_tim_decodable(m: TimModel) -> bool {
    &&& m.pixel_mode != PixelMode::Mixed
    &&& ((m.pixel_mode == PixelMode::Clut4Bit || m.pixel_mode == PixelMode::Clut8Bit)
        ==> m.clut is Some)
}

/// The alpha byte a 15-bit-plus-flag color decodes to: the
/// semi-transparent value 254 when the flag bit is set (black
/// included), fully transparent only for flag-clear black (the
/// transparency key), and fully opaque otherwise.
pub open spec fn spec_alpha(c: u16) -> u8 {
    if c / 0x8000 == 1 {
        254
    } else if c == 0 {
        0
    } else {
        255
    }
}

/// A 5-bit channel expanded to 8 bits by a left shift of 3.
pub open spec fn spec_expand5(v: u16) -> u8 {
    ((v % 32) * 8) as u8
}

/// The color a palette index selects: entry `idx`, or color 0 when
/// the palette is too short.
pub open spec fn spec_clut_color(m: TimModel, idx: int) -> u16 {
    match m.clut {
        Option::Some(c) => if 0 <= idx < c.data.len() {
            c.data[idx]
        } else {
            0
        },
        Option::None => 0,
    }
}

/// The 15-bit-plus-flag color of display pixel `p` of `m` (indexed
/// and 16-bit modes).
pub open spec fn spec_color_at(m: TimModel, p: int) -> u16 {
    match m.pixel_mode {
        PixelMode::Clut4Bit => {
            let byte = m.pixels.data[p / 2];
            if p % 2 == 0 {
                spec_clut_color(m, (byte & 0x0fu8) as int)
            } else {
                spec_clut_color(m, (byte / 16) as int)
            }
        },
        PixelMode::Clut8Bit => spec_clut_color(m, m.pixels.data[p] as int),
        _ => le16(m.pixels.data, 2 * p),
    }
}

/// Byte `k` of the RGBA conversion of `m`: pixel `k / 4`, channel
/// `k % 4` (red, green, blue, alpha).
pub open spec fn spec_rgba_byte(m: TimModel, k: int) -> u8 {
    let p = k / 4;
    let ch = k % 4;
    if m.pixel_mode == PixelMode::Direct24Bit {
        let row = p / (m.pixels.dimensions.0 * 2 / 3);
        let col = p % (m.pixels.dimensions.0 * 2 / 3);
        if ch == 3 {
            255u8
        } else {
            m.pixels.data[row * (m.pixels.dimensions.0 * 2) + col * 3 + ch]
        }
    } else {
        let c = spec_color_at(m, p);
        if ch == 0 {
            spec_expand5(c)
        } else if ch == 1 {
            spec_expand5(c / 32)
        } else if ch == 2 {
            spec_expand5(c / 1024)
        } else {
            spec_alpha(c)
        }
    }
}

/// The RGBA conversion of `m`: 4 bytes for each of the
/// `width * height` display pixels.
pub open spec fn spec_rgba(m: TimModel) -> Seq<u8> {
    Seq::new((spec_tim_width(m) * m.pixels.dimensions.1 * 4) as nat, |k: int| spec_rgba_byte(m, k))
}

impl Tim {
    /// Parse a TIM texture.
    pub fn parse(data: &[u8]) -> (r: Result<Self, PsxError>)
        ensures
            r is Ok <==> spec_parse_tim(data@) is Ok,
            r matches Ok(t) ==> spec_parse_tim(data@) == Result::<TimModel, PsxError>::Ok(t@)
                && spec_tim_wf(t@),
            r matches Err(e) ==> spec_parse_tim(data@) == Result::<TimModel, PsxError>::Err(e),
    {
        let n = data.len();
        if n < 8 {
            return Err(PsxError::Truncated);
        }
        if read_le32(data, 0) != TIM_MAGIC {
            return Err(PsxError::InvalidSignature);
        }
        let flags = read_le32(data, 4);
        if flags / 16 != 0 {
            return Err(PsxError::InvalidField);
        }
        if flags % 8 > 4 {
            return Err(PsxError::InvalidField);
        }
        let m = flags % 8;
        let pixel_mode = if m == 0 {
            PixelMode::Clut4Bit
        } else if m == 1 {
            PixelMode::Clut8Bit
        } else if m == 2 {
            PixelMode::Direct16Bit
        } else if m == 3 {
            PixelMode::Direct24Bit
        } else {
            PixelMode::Mixed
        };
        let has_clut = flags % 16 / 8 == 1;

        let mut clut: Option<ClutData> = None;
        let mut offset: usize = 8;
        if has_clut {
            if n < 20 {
                return Err(PsxError::Truncated);
            }
            let csize = read_le32(data, 8);
            let cds_u32 = if csize >= 12 {
                csize - 12
            } else {
                0
            };
            let cw = read_le16(data, 16);
            let ch = read_le16(data, 18);
            if csize % 2 != 0 || cds_u32 > 16384 * 2 * 8192 + 12 {
                return Err(PsxError::InvalidField);
            }
            if cw == 0 || cw > MAX_TIM_WORD_WIDTH || ch == 0 || ch > MAX_TIM_HEIGHT {
                return Err(PsxError::InvalidField);
            }
            let cds = cds_u32 as usize;
            if n < 20 || n - 20 < cds {
                return Err(PsxError::Truncated);
            }
            let colors = cds / 2;
            let mut cdata: Vec<u16> = Vec::new();
            let mut i: usize = 0;
            while i < colors
                invariant
                    0 <= i <= colors,
                    colors == cds / 2,
                    cds % 2 == 0,
                    20 + cds <= n == data@.len(),
                    cdata@.len() == i,
                    forall|j: int| 0 <= j < i ==> cdata@[j] == le16(data@, 20 + 2 * j),
                decreases colors - i,
            {
                cdata.push(read_le16(data, 20 + 2 * i));
                i += 1;
            }
            assert(cdata@ =~= Seq::new((cds / 2) as nat, |j: int| le16(data@, 20 + 2 * j)));
            clut = Some(
                ClutData {
                    vram_pos: (read_le16(data, 12), read_le16(data, 14)),
                    dimensions: (cw, ch),
                    data: cdata,
                },
            );
            offset = 20 + cds;
        }

        let px = match Self::parse_pixel_block(data, offset, pixel_mode) {
            Ok(px) => px,
            Err(e) => {
                return Err(e);
            },
        };
        let t = Tim { pixel_mode, has_clut, clut, pixels: px };
        Ok(t)
    }

    /// Parse the pixel block at `offset`.
    fn parse_pixel_block(data: &[u8], offset: usize, mode: PixelMode) -> (r: Result<
        PixelData,
        PsxError,
    >)
        requires
            offset + 12 <= usize::MAX,
        ensures
            r is Ok <==> spec_parse_pixel_block(data@, offset as int, mode) is Ok,
            r matches Ok(px) ==> spec_parse_pixel_block(data@, offset as int, mode) == Result::<
                PixelModel,
                PsxError,
            >::Ok(px@) && 1 <= px.dimensions.0 <= 16384 && 1 <= px.dimensions.1 <= 8192
                && px.data@.len() >= px.dimensions.0 * 2 * px.dimensions.1 && (mode
                == PixelMode::Clut4Bit ==> px.dimensions.0 * 4 <= 65535),
            r matches Err(e) ==> spec_parse_pixel_block(data@, offset as int, mode) == Result::<
                PixelModel,
                PsxError,
            >::Err(e),
    {
        let n = data.len();
        if n < 12 || offset > n - 12 {
            return Err(PsxError::Truncated);
        }
        let psize = read_le32(data, offset);
        let pds_u32 = if psize >= 12 {
            psize - 12
        } else {
            0
        };
        let pw = read_le16(data, offset + 8);
        let ph = read_le16(data, offset + 10);
        if pw == 0 || pw > MAX_TIM_WORD_WIDTH || ph == 0 || ph > MAX_TIM_HEIGHT {
            return Err(PsxError::InvalidField);
        }
        if pds_u32 > 16384 * 2 * 8192 + 12 {
            return Err(PsxError::InvalidField);
        }
        proof {
            assert(pw as int * 2 * ph as int <= 16384 * 2 * 8192) by (nonlinear_arith)
                requires
                    0 <= pw <= 16384,
                    0 <= ph <= 8192,
            ;
        }
        let expected: u64 = pw as u64 * 2 * ph as u64 + 12;
        if (psize as u64) < expected || (psize as u64) > expected + 2 {
            return Err(PsxError::InvalidField);
        }
        if matches!(mode, PixelMode::Clut4Bit) && pw as u32 * 4 > 65535 {
            return Err(PsxError::InvalidField);
        }
        let pds = pds_u32 as usize;
        if n - 12 - offset < pds {
            return Err(PsxError::Truncated);
        }
        let mut pdata: Vec<u8> = Vec::new();
        let mut i: usize = 0;
        while i < pds
            invariant
                0 <= i <= pds,
                offset + 12 + pds <= n == data@.len(),
                pdata@ =~= data@.subrange(offset + 12, offset as int + 12 + i),
            decreases pds - i,
        {
            pdata.push(data[offset + 12 + i]);
            assert(pdata@ =~= data@.subrange(offset + 12, offset as int + 12 + i + 1));
            i += 1;
        }
        Ok(
            PixelData {
                vram_pos: (read_le16(data, offset + 4), read_le16(data, offset + 6)),
                dimensions: (pw, ph),
                data: pdata,
            },
        )
    }

    /// Validate a texture without building palette or pixel buffers.
    ///
    /// Returns the display width, the height and the total byte size
    /// of the texture.  Succeeds on exactly the inputs `parse`
    /// accepts, with the size the parsed texture occupies.
    pub fn validate(data: &[u8]) -> (r: Result<(u16, u16, usize), PsxError>)
        ensures
            r is Ok <==> spec_validate_tim(data@) is Ok,
            r matches Ok(t) ==> spec_validate_tim(data@) == Result::<
                (u16, u16, int),
                PsxError,
            >::Ok((t.0, t.1, t.2 as int)),
            r matches Err(e) ==> spec_validate_tim(data@) == Result::<
                (u16, u16, int),
                PsxError,
            >::Err(e),
    {
        let n = data.len();
        if n < 8 {
            return Err(PsxError::Truncated);
        }
        if read_le32(data, 0) != TIM_MAGIC {
            return Err(PsxError::InvalidSignature);
        }
        let flags = read_le32(data, 4);
        if flags / 16 != 0 {
            return Err(PsxError::InvalidField);
        }
        if flags % 8 > 4 {
            return Err(PsxError::InvalidField);
        }
        let m = flags % 8;
        let has_clut = flags % 16 / 8 == 1;

        let mut offset: usize = 8;
        let mut total: usize = 8;
        if has_clut {
            if n < 20 {
                return Err(PsxError::Truncated);
            }
            let csize = read_le32(data, 8);
            let cds_u32 = if csize >= 12 {
                csize - 12
            } else {
                0
            };
            let cw = read_le16(data, 16);
            let ch = read_le16(data, 18);
            if csize % 2 != 0 || cds_u32 > 16384 * 2 * 8192 + 12 {
                return Err(PsxError::InvalidField);
            }
            if cw == 0 || cw > MAX_TIM_WORD_WIDTH || ch == 0 || ch > MAX_TIM_HEIGHT {
                return Err(PsxError::InvalidField);
            }
            let cds = cds_u32 as usize;
            if n < 20 || n - 20 < cds {
                return Err(PsxError::Truncated);
            }
            offset = 20 + cds;
            total = 20 + cds;
        }

        let nn = data.len();
        if nn < 12 || offset > nn - 12 {
            return Err(PsxError::Truncated);
        }
        let psize = read_le32(data, offset);
        let pds_u32 = if psize >= 12 {
            psize - 12
        } else {
            0
        };
        let pw = read_le16(data, offset + 8);
        let ph = read_le16(data, offset + 10);
        if pw == 0 || pw > MAX_TIM_WORD_WIDTH || ph == 0 || ph > MAX_TIM_HEIGHT {
            return Err(PsxError::InvalidField);
        }
        if pds_u32 > 16384 * 2 * 8192 + 12 {
            return Err(PsxError::InvalidField);
        }
        proof {
            assert(pw as int * 2 * ph as int <= 16384 * 2 * 8192) by (nonlinear_arith)
                requires
                    0 <= pw <= 16384,
                    0 <= ph <= 8192,
            ;
        }
        let expected: u64 = pw as u64 * 2 * ph as u64 + 12;
        if (psize as u64) < expected || (psize as u64) > expected + 2 {
            return Err(PsxError::InvalidField);
        }
        if m == 0 && pw as u32 * 4 > 65535 {
            return Err(PsxError::InvalidField);
        }
        let pds = pds_u32 as usize;
        if nn - 12 - offset < pds {
            return Err(PsxError::Truncated);
        }

        let width: u16 = if m == 0 {
            pw * 4
        } else if m == 1 {
            pw * 2
        } else if m == 3 {
            pw * 2 / 3
        } else {
            pw
        };
        Ok((width, ph, total + 12 + pds))
    }

    /// Convert the texture to RGBA (4 bytes per display pixel, in
    /// red, green, blue, alpha order).
    ///
    /// Fails with `InvalidField` exactly when the texture is in mixed
    /// mode or an indexed mode with no palette present.
    pub fn to_rgba8(&self) -> (r: Result<Vec<u8>, PsxError>)
        requires
            spec_tim_wf(self@),
        ensures
            r is Ok <==> spec_tim_decodable(self@),
            r matches Ok(v) ==> v@ == spec_rgba(self@),
            r matches Err(e) ==> e == PsxError::InvalidField,
    {
        match self.pixel_mode {
            PixelMode::Direct16Bit => Ok(self.convert_direct_to_rgba8()),
            PixelMode::Direct24Bit => Ok(self.convert_24bit_to_rgba8()),
            PixelMode::Clut4Bit => {
                if self.clut.is_none() {
                    return Err(PsxError::InvalidField);
                }
                Ok(self.convert_indexed_to_rgba8())
            },
            PixelMode::Clut8Bit => {
                if self.clut.is_none() {
                    return Err(PsxError::InvalidField);
                }
                Ok(self.convert_indexed_to_rgba8())
            },
            PixelMode::Mixed => Err(PsxError::InvalidField),
        }
    }

    /// The color of display pixel `p`, for the indexed and 16-bit
    /// modes.
    fn color_at(&self, p: usize) -> (c: u16)
        requires
            spec_tim_wf(self@),
            self.pixel_mode != PixelMode::Direct24Bit,
            0 <= p < spec_tim_width(self@) * self@.pixels.dimensions.1,
        ensures
            c == spec_color_at(self@, p as int),
    {
        let w = self.pixels.dimensions.0 as usize;
        let h = self.pixels.dimensions.1 as usize;
        match self.pixel_mode {
            PixelMode::Clut4Bit => {
                proof {
                    assert(p < w * 4 * h ==> p / 2 < w * 2 * h) by (nonlinear_arith)
                        requires
                            0 <= p,
                            1 <= w,
                            1 <= h,
                    ;
                }
                let byte = self.pixels.data[p / 2];
                let idx = if p % 2 == 0 {
                    (byte & 0x0f) as usize
                } else {
                    (byte / 16) as usize
                };
                self.clut_color(idx)
            },
            PixelMode::Clut8Bit => {
                proof {
                    assert(p < w * 2 * h ==> p < w * 2 * h) by (nonlinear_arith);
                }
                let idx = self.pixels.data[p] as usize;
                self.clut_color(idx)
            },
            _ => {
                proof {
                    assert(p < w * h ==> 2 * p + 2 <= w * 2 * h) by (nonlinear_arith)
                        requires
                            0 <= p,
                            1 <= w,
                            1 <= h,
                    ;
                    assert(w * 2 * h <= 16384 * 2 * 8192) by (nonlinear_arith)
                        requires
                            0 <= w <= 16384,
                            0 <= h <= 8192,
                    ;
                }
                read_le16(&self.pixels.data, 2 * p)
            },
        }
    }

    /// Palette entry `idx`, or color 0 when the palette is too short.
    fn clut_color(&self, idx: usize) -> (c: u16)
        requires
            spec_tim_wf(self@),
        ensures
            c == spec_clut_color(self@, idx as int),
    {
        match &self.clut {
            Some(cd) => {
                if idx < cd.data.len() {
                    cd.data[idx]
                } else {
                    0
                }
            },
            None => 0,
        }
    }

    /// RGBA conversion for the indexed and 16-bit modes.
    fn convert_direct_to_rgba8(&self) -> (r: Vec<u8>)
        requires
            spec_tim_wf(self@),
            self.pixel_mode == PixelMode::Direct16Bit,
        ensures
            r@ == spec_rgba(self@),
    {
        self.convert_colors_to_rgba8()
    }

    /// RGBA conversion for the palette modes.
    fn convert_indexed_to_rgba8(&self) -> (r: Vec<u8>)
        requires
            spec_tim_wf(self@),
            self.pixel_mode == PixelMode::Clut4Bit || self.pixel_mode == PixelMode::Clut8Bit,
        ensures
            r@ == spec_rgba(self@),
    {
        self.convert_colors_to_rgba8()
    }

    /// RGBA conversion through per-pixel colors (every mode but
    /// 24-bit).
    fn convert_colors_to_rgba8(&self) -> (r: Vec<u8>)
        requires
            spec_tim_wf(self@),
            self.pixel_mode != PixelMode::Direct24Bit,
        ensures
            r@ == spec_rgba(self@),
    {
        let w = self.width() as usize;
        let h = self.pixels.dimensions.1 as usize;
        proof {
            assert(w * h * 4 <= 65535 * 8192 * 4) by (nonlinear_arith)
                requires
                    0 <= w <= 65535,
                    0 <= h <= 8192,
            ;
        }
        let count = w * h;
        let mut out: Vec<u8> = Vec::new();
        let mut p: usize = 0;
        while p < count
            invariant
                0 <= p <= count,
                count == spec_tim_width(self@) * self@.pixels.dimensions.1,
                count * 4 <= usize::MAX,
                spec_tim_wf(self@),
                self.pixel_mode != PixelMode::Direct24Bit,
                out@.len() == 4 * p,
                forall|k: int| 0 <= k < 4 * p ==> out@[k] == spec_rgba_byte(self@, k),
            decreases count - p,
        {
            let c = self.color_at(p);
            let rr = ((c % 32) * 8) as u8;
            let gg = (((c / 32) % 32) * 8) as u8;
            let bb = (((c / 1024) % 32) * 8) as u8;
            let aa: u8 = if c / 0x8000 == 1 {
                254
            } else if c == 0 {
                0
            } else {
                255
            };
            out.push(rr);
            out.push(gg);
            out.push(bb);
            out.push(aa);
            proof {
                assert forall|k: int| 4 * p <= k < 4 * p + 4 implies out@[k] == spec_rgba_byte(
                    self@,
                    k,
                ) by {
                    assert(k / 4 == p as int && (k == 4 * p + k % 4)) by (nonlinear_arith)
                        requires
                            4 * p <= k < 4 * p + 4,
                            0 <= p,
                    ;
                }
            }
            p += 1;
        }
        assert(out@ =~= spec_rgba(self@));
        out
    }

    /// RGBA conversion for the 24-bit mode: each pixel is a direct
    /// 3-byte red, green, blue triplet, always fully opaque.
    fn convert_24bit_to_rgba8(&self) -> (r: Vec<u8>)
        requires
            spec_tim_wf(self@),
            self.pixel_mode == PixelMode::Direct24Bit,
        ensures
            r@ == spec_rgba(self@),
    {
        let words = self.pixels.dimensions.0 as usize;
        let w = words * 2 / 3;
        let h = self.pixels.dimensions.1 as usize;
        proof {
            assert(w * h * 4 <= 65535 * 8192 * 4) by (nonlinear_arith)
                requires
                    0 <= w <= 65535,
                    0 <= h <= 8192,
            ;
        }
        let mut out: Vec<u8> = Vec::new();
        let mut row: usize = 0;
        while row < h
            invariant
                0 <= row <= h,
                w == spec_tim_width(self@),
                h == self@.pixels.dimensions.1,
                words == self@.pixels.dimensions.0,
                w * h * 4 <= usize::MAX,
                spec_tim_wf(self@),
                self.pixel_mode == PixelMode::Direct24Bit,
                out@.len() == 4 * (row * w),
                forall|k: int| 0 <= k < out@.len() ==> out@[k] == spec_rgba_byte(self@, k),
            decreases h - row,
        {
            let mut col: usize = 0;
            while col < w
                invariant
                    0 <= col <= w,
                    0 <= row < h,
                    w == spec_tim_width(self@),
                    h == self@.pixels.dimensions.1,
                    words == self@.pixels.dimensions.0,
                    w * h * 4 <= usize::MAX,
                    spec_tim_wf(self@),
                    self.pixel_mode == PixelMode::Direct24Bit,
                    out@.len() == 4 * (row * w + col),
                    forall|k: int| 0 <= k < out@.len() ==> out@[k] == spec_rgba_byte(self@, k),
                decreases w - col,
            {
                proof {
                    assert(row * w + col < w * h && 4 * (row * w + col) + 4 <= 4 * (w * h))
                        by (nonlinear_arith)
                        requires
                            0 <= col < w,
                            0 <= row < h,
                    ;
                    assert(row * (words * 2) + col * 3 + 2 < words * 2 * h) by (nonlinear_arith)
                        requires
                            0 <= col < w,
                            0 <= row < h,
                            w == words * 2 / 3,
                            1 <= words,
                    ;
                    assert(words * 2 * h <= 16384 * 2 * 8192) by (nonlinear_arith)
                        requires
                            0 <= words <= 16384,
                            0 <= h <= 8192,
                    ;
                }
                let p = row * w + col;
                let base = row * (words * 2) + col * 3;
                let b0 = self.pixels.data[base];
                let b1 = self.pixels.data[base + 1];
                let b2 = self.pixels.data[base + 2];
                out.push(b0);
                out.push(b1);
                out.push(b2);
                out.push(255);
                proof {
                    assert forall|k: int| 4 * p <= k < 4 * p + 4 implies out@[k]
                        == spec_rgba_byte(self@, k) by {
                        assert(k / 4 == p as int && k == 4 * p + k % 4) by (nonlinear_arith)
                            requires
                                4 * p <= k < 4 * p + 4,
                                0 <= p,
                        ;
                        assert((p as int) / (w as int) == row as int && (p as int) % (w as int)
                            == col as int) by (nonlinear_arith)
                            requires
                                p == row * w + col,
                                0 <= col < w,
                                0 <= row,
                        ;
                    }
                }
                col += 1;
            }
            proof {
                assert(row * w + w == (row + 1) * w) by (nonlinear_arith);
            }
            row += 1;
        }
        proof {
            assert(out@.len() == 4 * (h * w));
            assert(4 * (h * w) == w * h * 4) by (nonlinear_arith);
        }
        assert(out@ =~= spec_rgba(self@));
        out
    }

    /// The display width in pixels (4-bit packs four pixels per word,
    /// 8-bit two, 24-bit two pixels in three words).
    pub fn width(&self) -> (r: u16)
        requires
            spec_tim_wf(self@),
        ensures
            r == spec_tim_width(self@),
    {
        match self.pixel_mode {
            PixelMode::Clut4Bit => self.pixels.dimensions.0 * 4,
            PixelMode::Clut8Bit => self.pixels.dimensions.0 * 2,
            PixelMode::Direct24Bit => self.pixels.dimensions.0 * 2 / 3,
            _ => self.pixels.dimensions.0,
        }
    }

    /// The display height in pixels.
    pub fn height(&self) -> (r: u16)
        ensures
            r == self@.pixels.dimensions.1,
    {
        self.pixels.dimensions.1
    }

    /// Total byte size of the texture as stored: header, palette
    /// block when present, pixel block.
    pub fn data_size(&self) -> (r: usize)
        requires
            spec_tim_size(self@) <= usize::MAX,
        ensures
            r == spec_tim_size(self@),
    {
        let mut size: usize = 8;
        match &self.clut {
            Some(c) => {
                size = size + 12 + c.data.len() * 2;
            },
            None => {},
        }
        size + 12 + self.pixels.data.len()
    }
}

/// The fast validator and the parser agree: they accept exactly the
/// same inputs, and on success the validator's size is the byte size
/// of the parsed texture and its dimensions are the parsed texture's
/// display dimensions.
pub proof fn lemma_validator_parser_agree(d: Seq<u8>)
    ensures
        spec_validate_tim(d) is Ok <==> spec_parse_tim(d) is Ok,
        spec_validate_tim(d) matches Ok(t) ==> spec_parse_tim(d) matches Ok(m) && t.2
            == spec_tim_size(m) && t.0 == spec_tim_width(m) as u16 && t.1 == m.pixels.dimensions.1,
{
}

/// A decodable texture converts to exactly `width * height * 4` RGBA
/// bytes.
pub proof fn lemma_rgba_length(m: TimModel)
    ensures
        spec_rgba(m).len() == spec_tim_width(m) * m.pixels.dimensions.1 * 4,
{
}

/// The alpha rule for 15-bit colors: a black pixel with the flag bit
/// clear is fully transparent (the transparency key); any other color
/// with the bit clear is fully opaque; a pixel with the bit set gets
/// the fixed semi-transparent value, black included.
pub proof fn lemma_alpha_rule(c: u16)
    ensures
        c == 0 ==> spec_alpha(c) == 0,
        c / 0x8000 == 0 && c != 0 ==> spec_alpha(c) == 255,
        c / 0x8000 == 1 ==> spec_alpha(c) == 254,
{
}

/// In 16-bit mode the alpha byte of display pixel `p` follows the
/// alpha rule applied to that pixel's stored color.
pub proof fn lemma_pixel_alpha(m: TimModel, p: int)
    requires
        m.pixel_mode == PixelMode::Direct16Bit,
        0 <= p,
        4 * p + 3 < spec_rgba(m).len(),
    ensures
        spec_rgba(m)[4 * p + 3] == spec_alpha(le16(m.pixels.data, 2 * p)),
{
    assert((4 * p + 3) / 4 == p && (4 * p + 3) % 4 == 3) by (nonlinear_arith);
}

} // verus!
