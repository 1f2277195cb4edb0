//! Tests of the filesystem reader and the streaming position types.

use psxutils::cdrom::streaming::CdromPosition;
use psxutils::cdrom::streaming::CdromStreamParams;
use psxutils::cdrom::CdRom;
use psxutils::cdrom::DATA_SIZE;
use psxutils::cdrom::SECTOR_SIZE;
use psxutils::PsxError;

#[test]
fn mod_test_sector_size() {
    assert_eq!(SECTOR_SIZE, 2352);
    assert_eq!(DATA_SIZE, 2048);
}

#[test]
fn test_cdrom_position_conversion() {
    // Position 00:02:00 (2 seconds = 150 sectors).
    let pos = CdromPosition::new(0, 2, 0);
    assert_eq!(pos.to_sector_number(), 150);

    // Round-trip conversion.
    let sector_num = 12345u32;
    let pos = CdromPosition::from_sector_number(sector_num);
    assert_eq!(pos.to_sector_number(), sector_num);
}

#[test]
fn test_stream_params_flags() {
    let params = CdromStreamParams::new(100, true, false);
    assert!(params.should_start_async());
    assert!(!params.should_wait_complete());
    assert_eq!(params.mode_flags, 0x01);

    let params = CdromStreamParams::new(100, true, true);
    assert!(params.should_start_async());
    assert!(params.should_wait_complete());
    assert_eq!(params.mode_flags, 0x03);
}

#[test]
fn test_position_round_trip_both_ways() {
    // Every valid minute/second/sector triple survives the round trip.
    let pos = CdromPosition::new(73, 59, 74);
    let n = pos.to_sector_number();
    assert_eq!(CdromPosition::from_sector_number(n), pos);

    // And every reachable sector number does too.
    for n in [0u32, 1, 74, 75, 149, 150, 4499, 4500, 449999] {
        let p = CdromPosition::from_sector_number(n);
        assert_eq!(p.to_sector_number(), n);
    }
}

/// Build a minimal disc image: a primary volume descriptor at sector
/// 16 whose root directory is sector 17, holding one file entry named
/// `HELLO.TXT;1` that points at sector 18.
fn tiny_disc_image() -> Vec<u8> {
    let mut image = vec![0u8; 19 * SECTOR_SIZE];
    let pvd = 16 * SECTOR_SIZE + 24;
    image[pvd] = 1;
    image[pvd + 1..pvd + 6].copy_from_slice(b"CD001");
    // Root directory record: LBA at +158, byte size at +166.
    image[pvd + 158..pvd + 162].copy_from_slice(&17u32.to_le_bytes());
    image[pvd + 166..pvd + 170].copy_from_slice(&2048u32.to_le_bytes());

    // One directory record in sector 17.
    let dir = 17 * SECTOR_SIZE + 24;
    let name = b"HELLO.TXT;1";
    let record_len = 33 + name.len();
    image[dir] = record_len as u8;
    image[dir + 2..dir + 6].copy_from_slice(&18u32.to_le_bytes());
    image[dir + 10..dir + 14].copy_from_slice(&5u32.to_le_bytes());
    image[dir + 25] = 0;
    image[dir + 32] = name.len() as u8;
    image[dir + 33..dir + 33 + name.len()].copy_from_slice(name);

    // The file's five bytes in sector 18.
    let file = 18 * SECTOR_SIZE + 24;
    image[file..file + 5].copy_from_slice(b"WORLD");
    image
}

#[test]
fn test_read_dir_lists_the_file() {
    let disc = CdRom::from_image(tiny_disc_image()).unwrap();
    let entries = disc.read_dir("/").unwrap();
    assert_eq!(entries.len(), 1);
    assert_eq!(entries[0].name, b"HELLO.TXT".to_vec());
    assert_eq!(entries[0].lba, 18);
    assert_eq!(entries[0].size, 5);
    assert!(!entries[0].is_dir);
}

#[test]
fn test_read_dir_twice_is_identical() {
    // Resolving the same path twice yields identical extents.
    let disc = CdRom::from_image(tiny_disc_image()).unwrap();
    let first = disc.read_dir("").unwrap();
    let second = disc.read_dir("").unwrap();
    assert_eq!(first.len(), second.len());
    for (a, b) in first.iter().zip(second.iter()) {
        assert_eq!(a.name, b.name);
        assert_eq!(a.lba, b.lba);
        assert_eq!(a.size, b.size);
        assert_eq!(a.is_dir, b.is_dir);
    }
}

#[test]
fn test_read_file_case_insensitive() {
    let disc = CdRom::from_image(tiny_disc_image()).unwrap();
    let data = disc.read_file("/hello.txt").unwrap();
    assert_eq!(data, b"WORLD".to_vec());
}

#[test]
fn test_read_file_not_found() {
    let disc = CdRom::from_image(tiny_disc_image()).unwrap();
    assert_eq!(disc.read_file("/MISSING.BIN"), Err(PsxError::NotFound));
}

#[test]
fn test_bad_signature_is_rejected() {
    let mut image = tiny_disc_image();
    image[16 * SECTOR_SIZE + 24 + 1] = b'X';
    assert!(matches!(
        CdRom::from_image(image),
        Err(PsxError::InvalidSignature)
    ));
}

#[test]
fn test_short_image_is_rejected() {
    assert_eq!(
        CdRom::from_image(vec![0u8; 100]).err(),
        Some(PsxError::OutOfBounds)
    );
}

#[test]
fn test_read_sector_out_of_bounds() {
    let disc = CdRom::from_image(tiny_disc_image()).unwrap();
    assert_eq!(disc.sector_count(), 19);
    assert!(disc.read_sector(18).is_ok());
    assert_eq!(disc.read_sector(19), Err(PsxError::OutOfBounds));
}
