//! Tests of the format codecs.

use psxutils::formats::dat::DatArchive;
use psxutils::formats::dat::DatEntry;
use psxutils::formats::dat::SECTOR_SIZE;
use psxutils::formats::lzss;
use psxutils::formats::lzss::LzssConfig;
use psxutils::formats::lzss::LzssDecoder;
use psxutils::formats::tim::PixelMode;
use psxutils::formats::tim::Tim;
use psxutils::formats::tmd::Tmd;
use psxutils::formats::tmd::TMD_MAGIC;
use psxutils::formats::vab::Vab;
use psxutils::formats::vag::Vag;
use psxutils::formats::xa::CodingInfo;
use psxutils::formats::xa::SubMode;
use psxutils::formats::xa::XaSubHeader;
use psxutils::PsxError;

#[test]
fn dat_test_sector_size() {
    assert_eq!(SECTOR_SIZE, 2048);
}

#[test]
fn test_dat_entry_calculations() {
    // Entry with start_sector=3, end_sector=8
    // - Byte offset: 3 * 2048 = 6144
    // - Size: (8 - 3) * 2048 = 10240
    let entry = DatEntry {
        start_sector: 3,
        end_sector: 8,
    };

    assert_eq!(entry.byte_offset(), 6144);
    assert_eq!(entry.byte_size(), 10240);
    assert_eq!(entry.sector_count(), 5);
    assert_eq!(entry.byte_range(), (6144, 10240));
}

#[test]
fn test_dat_parse_and_extract() {
    // A table of two entries, a sentinel, and two sectors of payload.
    let mut data = vec![0u8; 4 * 2048];
    data[0..4].copy_from_slice(&2u32.to_le_bytes());
    data[4..8].copy_from_slice(&3u32.to_le_bytes());
    data[8..12].copy_from_slice(&3u32.to_le_bytes());
    data[12..16].copy_from_slice(&4u32.to_le_bytes());
    data[2 * 2048] = 0xaa;
    data[3 * 2048] = 0xbb;
    let archive = DatArchive::parse(&data).unwrap();
    assert_eq!(archive.entry_count(), 2);
    assert_eq!(archive.table_size(), 16);
    let first = archive.extract_file(0).unwrap();
    assert_eq!(first.len(), 2048);
    assert_eq!(first[0], 0xaa);
    let second = archive.extract_file_owned(1).unwrap();
    assert_eq!(second[0], 0xbb);
    assert!(matches!(
        archive.extract_file(2),
        Err(PsxError::OutOfBounds)
    ));
}

#[test]
fn test_dat_empty_is_rejected() {
    assert!(matches!(
        DatArchive::parse(&[0u8; 10]),
        Err(PsxError::Truncated)
    ));
    // A first entry whose range dwarfs the buffer ends the table
    // before any entry, leaving none.
    let mut data = vec![0u8; 64];
    data[0..4].copy_from_slice(&0x0080_0000u32.to_le_bytes());
    data[4..8].copy_from_slice(&0x0090_0000u32.to_le_bytes());
    assert!(matches!(
        DatArchive::parse(&data),
        Err(PsxError::InvalidField)
    ));
}

#[test]
fn test_lzss_literal_only() {
    // Control byte 0xFF = all literals (8 bits set)
    // Followed by 8 literal bytes
    let compressed = vec![
        0xFF, // Control: 8 literals
        b'H', b'e', b'l', b'l', b'o', b' ', b'P', b'S',
    ];

    let mut decoder = LzssDecoder::standard();
    let result = decoder.decompress_buf(&compressed).unwrap();
    assert_eq!(result, b"Hello PS");
}

#[test]
fn test_lzss_with_reference() {
    // Simple test with literal followed by reference
    let mut decoder = LzssDecoder::standard();

    let compressed = vec![
        0xFF, // All literals for first 8
        b'A', b'B', b'C', b'D', b'E', b'F', b'G', b'H',
    ];

    let result = decoder.decompress_buf(&compressed).unwrap();
    assert_eq!(result, b"ABCDEFGH");
}

#[test]
fn test_lzss_back_reference() {
    // Eight literals fill window cells 0..8; the second group's
    // first token copies three bytes from window offset 0, and its
    // remaining seven tokens are literals.
    let compressed = vec![
        0xFF,
        b'A', b'B', b'C', b'D', b'E', b'F', b'G', b'H',
        0xFE, // next group: one reference, then literals
        0x00, 0x00, // offset 0, length field 0 -> 3 bytes
        b'1', b'2', b'3', b'4', b'5', b'6', b'7',
    ];
    let mut decoder = LzssDecoder::standard();
    let result = decoder.decompress_buf(&compressed).unwrap();
    assert_eq!(result, b"ABCDEFGHAAA1234567");
}

#[test]
fn test_lzss_truncated_literal() {
    // The control byte promises a literal that is missing.
    let mut decoder = LzssDecoder::standard();
    assert!(matches!(
        decoder.decompress_buf(&[0x01]),
        Err(PsxError::Truncated)
    ));
}

#[test]
fn test_decoder_reset() {
    let mut decoder = LzssDecoder::standard();

    // Decompress some data
    let compressed = vec![0xFF, b'T', b'e', b's', b't', b'!', b'!', b'!', b'!'];
    let _ = decoder.decompress_buf(&compressed).unwrap();

    // Reset and verify window is cleared
    decoder.reset();
    assert_eq!(decoder.window_pos(), 0);
    assert!(decoder.window().iter().all(|&b| b == 0));
}

#[test]
fn test_config_standard() {
    let config = LzssConfig::standard();
    assert_eq!(config.window_size, 4096);
    assert_eq!(config.max_match_len, 18);
    assert_eq!(config.min_match_len, 3);
    assert_eq!(config.offset_bits, 12);
    assert_eq!(config.length_bits, 4);
}

#[test]
fn tim_test_pixel_mode_from_u32() {
    assert_eq!(PixelMode::from_u32(0).unwrap(), PixelMode::Clut4Bit);
    assert_eq!(PixelMode::from_u32(1).unwrap(), PixelMode::Clut8Bit);
    assert_eq!(PixelMode::from_u32(2).unwrap(), PixelMode::Direct16Bit);
    assert_eq!(PixelMode::from_u32(3).unwrap(), PixelMode::Direct24Bit);
    assert!(PixelMode::from_u32(7).is_err());
}

#[test]
fn mod_test_pixel_mode_from_u32() {
    assert_eq!(PixelMode::from_u32(0).unwrap(), PixelMode::Clut4Bit);
    assert_eq!(PixelMode::from_u32(1).unwrap(), PixelMode::Clut8Bit);
    assert_eq!(PixelMode::from_u32(2).unwrap(), PixelMode::Direct16Bit);
    assert_eq!(PixelMode::from_u32(3).unwrap(), PixelMode::Direct24Bit);
    assert!(PixelMode::from_u32(7).is_err());
}

#[test]
fn tim_test_bits_per_pixel() {
    assert_eq!(PixelMode::Clut4Bit.bits_per_pixel(), 4);
    assert_eq!(PixelMode::Clut8Bit.bits_per_pixel(), 8);
    assert_eq!(PixelMode::Direct16Bit.bits_per_pixel(), 16);
    assert_eq!(PixelMode::Direct24Bit.bits_per_pixel(), 24);
}

#[test]
fn mod_test_bits_per_pixel() {
    assert_eq!(PixelMode::Clut4Bit.bits_per_pixel(), 4);
    assert_eq!(PixelMode::Clut8Bit.bits_per_pixel(), 8);
    assert_eq!(PixelMode::Direct16Bit.bits_per_pixel(), 16);
    assert_eq!(PixelMode::Direct24Bit.bits_per_pixel(), 24);
}

/// Build a 16-bit-mode texture, 2 pixels wide and 1 high, from the
/// two given colors.
fn tiny_tim16(c0: u16, c1: u16) -> Vec<u8> {
    let mut d = Vec::new();
    d.extend_from_slice(&0x10u32.to_le_bytes());
    d.extend_from_slice(&2u32.to_le_bytes()); // 16-bit mode, no palette
    d.extend_from_slice(&16u32.to_le_bytes()); // pixel block size 12 + 4
    d.extend_from_slice(&0u16.to_le_bytes());
    d.extend_from_slice(&0u16.to_le_bytes());
    d.extend_from_slice(&2u16.to_le_bytes()); // 2 words wide
    d.extend_from_slice(&1u16.to_le_bytes()); // 1 high
    d.extend_from_slice(&c0.to_le_bytes());
    d.extend_from_slice(&c1.to_le_bytes());
    d
}

#[test]
fn test_tim_decode_dimensions_and_alpha() {
    // Flag-clear black is the transparency key; a flag-clear color is
    // opaque; the flag bit selects the semi-transparent value.
    let bytes = tiny_tim16(0x0000, 0x001f);
    let tim = Tim::parse(&bytes).unwrap();
    assert_eq!(tim.width(), 2);
    assert_eq!(tim.height(), 1);
    assert_eq!(tim.data_size(), bytes.len());
    let rgba = tim.to_rgba8().unwrap();
    assert_eq!(rgba.len(), 2 * 1 * 4);
    assert_eq!(&rgba[0..4], &[0, 0, 0, 0]);
    assert_eq!(&rgba[4..8], &[248, 0, 0, 255]);

    let semi = tiny_tim16(0x8000, 0x801f);
    let rgba = Tim::parse(&semi).unwrap().to_rgba8().unwrap();
    assert_eq!(rgba[3], 254);
    assert_eq!(rgba[7], 254);
}

#[test]
fn test_tim_validator_agrees_with_parser() {
    // Where the strict parser succeeds the fast validator agrees on
    // the size, and vice versa.
    let bytes = tiny_tim16(0x1234, 0x5678);
    let (w, h, total) = Tim::validate(&bytes).unwrap();
    let tim = Tim::parse(&bytes).unwrap();
    assert_eq!(w, tim.width());
    assert_eq!(h, tim.height());
    assert_eq!(total, tim.data_size());

    let mut bad = bytes.clone();
    bad[4] = 7; // unknown pixel mode
    assert!(Tim::validate(&bad).is_err());
    assert!(Tim::parse(&bad).is_err());
}

#[test]
fn test_tim_truncation_points() {
    // Every truncation of a valid texture fails with a truncation
    // error rather than a panic.
    let bytes = tiny_tim16(0x0000, 0x7fff);
    for cut in 0..bytes.len() {
        let r = Tim::parse(&bytes[..cut]);
        assert_eq!(r.err(), Some(PsxError::Truncated));
    }
    assert!(Tim::parse(&bytes).is_ok());
}

#[test]
fn test_tim_reserved_bits_rejected() {
    let mut bytes = tiny_tim16(0, 0);
    bytes[5] = 1; // a reserved flag bit
    assert!(matches!(Tim::parse(&bytes), Err(PsxError::InvalidField)));
    bytes[5] = 0;
    bytes[0] = 0x11; // wrong magic
    assert!(matches!(
        Tim::parse(&bytes),
        Err(PsxError::InvalidSignature)
    ));
}

#[test]
fn test_tmd_magic() {
    assert_eq!(TMD_MAGIC, 0x00000041);
}

#[test]
fn test_tmd_parse_empty() {
    let data = vec![0; 11];
    assert!(Tmd::parse(&data).is_err());
}

#[test]
fn test_tmd_parse_invalid_magic() {
    let mut data = vec![0; 12];
    // Set wrong magic
    data[0..4].copy_from_slice(&0xDEADBEEFu32.to_le_bytes());
    assert!(Tmd::parse(&data).is_err());
}

#[test]
fn test_tmd_zero_objects_rejected() {
    // A model with object_count == 0 is rejected.
    let mut data = vec![0u8; 40];
    data[0..4].copy_from_slice(&0x41u32.to_le_bytes());
    data[8..12].copy_from_slice(&0u32.to_le_bytes());
    assert!(matches!(Tmd::parse(&data), Err(PsxError::InvalidField)));
}

#[test]
fn test_tmd_vertex_overrun_rejected() {
    // An object claiming more vertices than the buffer holds is
    // rejected rather than read out of bounds.
    let mut data = vec![0u8; 40];
    data[0..4].copy_from_slice(&0x41u32.to_le_bytes());
    data[8..12].copy_from_slice(&1u32.to_le_bytes());
    data[12..16].copy_from_slice(&40u32.to_le_bytes()); // vertex offset
    data[16..20].copy_from_slice(&1000u32.to_le_bytes()); // vertex count
    assert!(matches!(Tmd::parse(&data), Err(PsxError::Truncated)));
}

#[test]
fn test_tmd_one_flat_triangle() {
    // One object, one untextured flat triangle over three vertices.
    let mut data = vec![0u8; 12 + 28 + 3 * 8 + 4 + 8];
    data[0..4].copy_from_slice(&0x41u32.to_le_bytes());
    data[8..12].copy_from_slice(&1u32.to_le_bytes());
    let vert_off = 40u32;
    let prim_off = 40 + 24u32;
    data[12..16].copy_from_slice(&vert_off.to_le_bytes());
    data[16..20].copy_from_slice(&3u32.to_le_bytes());
    data[20..24].copy_from_slice(&vert_off.to_le_bytes()); // normals (none)
    data[24..28].copy_from_slice(&0u32.to_le_bytes());
    data[28..32].copy_from_slice(&prim_off.to_le_bytes());
    data[32..36].copy_from_slice(&1u32.to_le_bytes());
    data[36..40].copy_from_slice(&1i32.to_le_bytes());
    // Vertices (1,2,3), (4,5,6), (7,8,9).
    for (i, v) in [(1, 2, 3), (4, 5, 6), (7, 8, 9)].iter().enumerate() {
        let o = 40 + i * 8;
        data[o..o + 2].copy_from_slice(&(v.0 as i16).to_le_bytes());
        data[o + 2..o + 4].copy_from_slice(&(v.1 as i16).to_le_bytes());
        data[o + 4..o + 6].copy_from_slice(&(v.2 as i16).to_le_bytes());
    }
    // Packet: length 3 words, mode 0x20 (triangle, untextured, flat).
    let p = prim_off as usize;
    data[p] = 3;
    data[p + 3] = 0x20;
    // One shared normal index, then three vertex indices.
    data[p + 4..p + 6].copy_from_slice(&0u16.to_le_bytes());
    data[p + 6..p + 8].copy_from_slice(&0u16.to_le_bytes());
    data[p + 8..p + 10].copy_from_slice(&1u16.to_le_bytes());
    data[p + 10..p + 12].copy_from_slice(&2u16.to_le_bytes());

    let tmd = Tmd::parse(&data).unwrap();
    assert_eq!(tmd.object_count(), 1);
    assert_eq!(tmd.vertex_count(0), Some(3));
    assert_eq!(tmd.vertex_count(1), None);
    assert_eq!(tmd.objects[0].scale, 1);
    assert_eq!(tmd.objects[0].vertices[1].x, 4);
    assert_eq!(tmd.objects[0].primitives.len(), 1);
}

#[test]
fn test_invalid_vab() {
    let data = vec![0u8; 10];
    assert!(Vab::parse(&data).is_err());
}

#[test]
fn test_vab_header_fields() {
    let mut data = vec![0u8; 2048];
    data[0..4].copy_from_slice(b"VABp");
    data[8..12].copy_from_slice(&7u32.to_le_bytes());
    data[18..20].copy_from_slice(&1u16.to_le_bytes()); // one program
    data[24] = 100;
    data[25] = 64;
    let vab = Vab::parse(&data).unwrap();
    assert_eq!(vab.vab_id, 7);
    assert_eq!(vab.master_volume, 100);
    assert_eq!(vab.master_pan, 64);
    // The program table lies past the buffer, so nothing is read.
    assert_eq!(vab.programs.len(), 0);
    assert!(vab.get_program(0).is_none());
    assert!(vab.get_tone(0).is_none());
    assert!(vab.get_vag(0).is_none());
}

#[test]
fn test_vab_program_table() {
    let mut data = vec![0u8; 2048 + 32];
    data[0..4].copy_from_slice(b"VABp");
    data[18..20].copy_from_slice(&2u16.to_le_bytes());
    data[2048] = 3; // first program: num_tones
    data[2048 + 1] = 99; // volume
    data[2048 + 6..2048 + 8].copy_from_slice(&(-5i16).to_le_bytes());
    let vab = Vab::parse(&data).unwrap();
    assert_eq!(vab.programs.len(), 2);
    let p = vab.get_program(0).unwrap();
    assert_eq!(p.num_tones, 3);
    assert_eq!(p.volume, 99);
    assert_eq!(p.pitch_bend, -5);
}

#[test]
fn test_invalid_vag() {
    let data = vec![0u8; 10];
    assert!(Vag::parse(&data).is_err());
}

/// Build a VAG file of `blocks` ADPCM blocks, each given as a
/// 16-byte array.
fn tiny_vag(blocks: &[[u8; 16]]) -> Vec<u8> {
    let mut d = vec![0u8; 48];
    d[0..4].copy_from_slice(b"VAGp");
    d[4..8].copy_from_slice(&0x20u32.to_be_bytes());
    d[12..16].copy_from_slice(&((blocks.len() * 16) as u32).to_be_bytes());
    d[16..20].copy_from_slice(&44100u32.to_be_bytes());
    d[32..36].copy_from_slice(b"SND\0");
    for b in blocks {
        d.extend_from_slice(b);
    }
    d
}

#[test]
fn test_vag_silence_decodes_to_zero() {
    // Blocks of pure silence (filter 0, all data nibbles zero)
    // decode to all-zero PCM, whatever the shift factor.
    let mut b0 = [0u8; 16];
    b0[0] = 0x40; // shift 4, filter 0
    let b1 = [0u8; 16];
    let vag = Vag::parse(&tiny_vag(&[b0, b1])).unwrap();
    assert_eq!(vag.sample_rate, 44100);
    assert_eq!(vag.name, b"SND".to_vec());
    let pcm = vag.decode_to_pcm();
    assert_eq!(pcm.len(), 56);
    assert!(pcm.iter().all(|&s| s == 0));
}

#[test]
fn test_vag_loop_points() {
    let mut b0 = [0u8; 16];
    b0[1] = 0x02; // loop start
    let mut b1 = [0u8; 16];
    b1[1] = 0x03; // loop end
    let vag = Vag::parse(&tiny_vag(&[b0, b1])).unwrap();
    assert_eq!(vag.loop_start, Some(0));
    assert_eq!(vag.loop_end, Some(28));

    let mut b = [0u8; 16];
    b[1] = 0x06; // start and end in one block
    let vag = Vag::parse(&tiny_vag(&[b])).unwrap();
    assert_eq!(vag.loop_start, Some(0));
    assert_eq!(vag.loop_end, Some(28));
}

#[test]
fn test_vag_nonzero_decode() {
    // One block, filter 0, shift 12 (unit scale): nibble 1 decodes
    // to sample 1, nibble 0xF to -1.
    let mut b = [0u8; 16];
    b[0] = 0xc0; // shift 12, filter 0
    b[2] = 0xf1; // low nibble 1, high nibble 0xF
    let vag = Vag::parse(&tiny_vag(&[b])).unwrap();
    let pcm = vag.decode_to_pcm();
    assert_eq!(pcm[0], 1);
    assert_eq!(pcm[1], -1);
    assert!(pcm[2..].iter().all(|&s| s == 0));
}

#[test]
fn test_submode_validation() {
    // Valid: Only Audio flag set
    let submode = SubMode::from_byte(0x04);
    assert!(submode.is_valid());
    assert!(submode.is_audio());

    // Invalid: Both Audio and Video flags set
    let submode = SubMode::from_byte(0x06);
    assert!(!submode.is_valid());

    // Valid: Form2 + Audio + RealTime (typical XA audio)
    let submode = SubMode::from_byte(0x64); // 0b01100100
    assert!(submode.is_valid());
    assert!(submode.is_form2());
    assert!(submode.is_audio());
    assert!(submode.is_real_time());
}

#[test]
fn test_coding_info() {
    // 4-bit, 37.8kHz, Mono
    let coding = CodingInfo::from_byte(0x00);
    assert!(coding.is_valid());
    assert_eq!(coding.bits_per_sample(), 4);
    assert_eq!(coding.sample_rate(), 37800);
    assert!(!coding.is_stereo());

    // 8-bit, 18.9kHz, Stereo
    let coding = CodingInfo::from_byte(0x15);
    assert!(coding.is_valid());
    assert_eq!(coding.bits_per_sample(), 8);
    assert_eq!(coding.sample_rate(), 18900);
    assert!(coding.is_stereo());

    // Invalid: Has reserved bit set
    let coding = CodingInfo::from_byte(0x02);
    assert!(!coding.is_valid());
}

#[test]
fn test_xa_subheader_parse() {
    // Valid XA sub-header with duplication
    let data = [
        1, 2, 0x64, 0x00, // File 1, Channel 2, SubMode, Coding
        1, 2, 0x64, 0x00, // Duplicate
    ];

    let header = XaSubHeader::parse(&data).unwrap();
    assert_eq!(header.file_number, 1);
    assert_eq!(header.channel, 2);
    assert!(header.is_audio());

    // Invalid: Mismatched duplication
    let data = [
        1, 2, 0x64, 0x00, // File 1
        2, 2, 0x64, 0x00, // File 2 (mismatch!)
    ];

    assert!(XaSubHeader::parse(&data).is_none());
}

#[test]
fn test_lzss_free_function() {
    let out = lzss::decompress(&[0xFF, 1, 2, 3, 4, 5, 6, 7, 8]).unwrap();
    assert_eq!(out, vec![1, 2, 3, 4, 5, 6, 7, 8]);
}
