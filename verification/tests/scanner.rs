//! Tests of the asset scanner and the state manager.

use psxutils::formats::tim::TIM_MAGIC;
use psxutils::scanner::AssetScanner;
use psxutils::scanner::AssetType;
use psxutils::state::GameState;
use psxutils::state::StateManager;

#[test]
fn test_scanner_empty() {
    let data = vec![0; 1024];
    let scanner = AssetScanner::new(&data);
    let assets = scanner.scan();
    assert_eq!(assets.len(), 0);
}

#[test]
fn test_scanner_tim_magic() {
    let mut data = vec![0; 1024];
    // Insert TIM magic at offset 100
    data[100..104].copy_from_slice(&TIM_MAGIC.to_le_bytes());
    // This won't be detected as valid TIM without proper header
    let scanner = AssetScanner::new(&data);
    let assets = scanner.scan();
    // Should not detect invalid TIM
    assert_eq!(assets.len(), 0);
}

/// A valid 16-bit texture, 2 pixels by 1, 24 bytes long.
fn tim_bytes() -> Vec<u8> {
    let mut d = Vec::new();
    d.extend_from_slice(&0x10u32.to_le_bytes());
    d.extend_from_slice(&2u32.to_le_bytes());
    d.extend_from_slice(&16u32.to_le_bytes());
    d.extend_from_slice(&0u16.to_le_bytes());
    d.extend_from_slice(&0u16.to_le_bytes());
    d.extend_from_slice(&2u16.to_le_bytes());
    d.extend_from_slice(&1u16.to_le_bytes());
    d.extend_from_slice(&0x7fffu16.to_le_bytes());
    d.extend_from_slice(&0x0001u16.to_le_bytes());
    d
}

#[test]
fn test_scanner_finds_adjacent_textures() {
    // Two textures back to back at an odd offset: both are found, in
    // order, with non-overlapping ranges.
    let tim = tim_bytes();
    let mut data = vec![0u8; 7];
    data.extend_from_slice(&tim);
    data.extend_from_slice(&tim);
    data.extend_from_slice(&[0u8; 40]);
    let scanner = AssetScanner::new(&data).with_min_size(8);
    let assets = scanner.scan();
    assert_eq!(assets.len(), 2);
    assert_eq!(assets[0].offset, 7);
    assert_eq!(assets[0].size, tim.len());
    assert_eq!(
        assets[0].asset_type,
        AssetType::Tim {
            width: 2,
            height: 1
        }
    );
    assert_eq!(assets[1].offset, 7 + tim.len());
    assert!(assets[0].offset + assets[0].size <= assets[1].offset);

    let slice = scanner.extract(&assets[1]).unwrap();
    assert_eq!(slice, &tim[..]);
}

#[test]
fn test_scanner_min_size_filter() {
    // Below the minimum size the texture is passed over.
    let tim = tim_bytes();
    let mut data = vec![0u8; 3];
    data.extend_from_slice(&tim);
    let scanner = AssetScanner::new(&data);
    assert_eq!(scanner.scan().len(), 0);
    let scanner = AssetScanner::new(&data).with_min_size(24);
    assert_eq!(scanner.scan().len(), 1);
}

#[test]
fn test_scanner_vag_by_declared_size() {
    let mut data = vec![0u8; 128];
    data[16..20].copy_from_slice(b"VAGp");
    data[16 + 12..16 + 16].copy_from_slice(&16u32.to_be_bytes());
    let scanner = AssetScanner::new(&data).with_min_size(8);
    let assets = scanner.scan_vag();
    assert_eq!(assets.len(), 1);
    assert_eq!(assets[0].offset, 16);
    assert_eq!(assets[0].size, 64);
    assert_eq!(assets[0].asset_type, AssetType::Vag);
}

#[test]
fn test_scanner_tmd_estimate() {
    // A minimal one-object model; the scanner estimates its size
    // from the object count.
    let mut data = vec![0u8; 4096];
    data[0..4].copy_from_slice(&0x41u32.to_le_bytes());
    data[8..12].copy_from_slice(&1u32.to_le_bytes());
    // The object's tables are empty and point at offset 40.
    data[12..16].copy_from_slice(&40u32.to_le_bytes());
    data[20..24].copy_from_slice(&40u32.to_le_bytes());
    data[28..32].copy_from_slice(&40u32.to_le_bytes());
    let scanner = AssetScanner::new(&data).with_min_size(8);
    let assets = scanner.scan_tmd();
    assert_eq!(assets.len(), 1);
    assert_eq!(assets[0].offset, 0);
    assert_eq!(assets[0].size, 12 + 1024);
    assert_eq!(assets[0].asset_type, AssetType::Tmd { object_count: 1 });
}

#[test]
fn test_state_manager_transitions() {
    let mut mgr = StateManager::new();
    assert_eq!(mgr.current_state, GameState::Loading);
    assert!(!mgr.state_changed());

    mgr.counter_1 = 9;
    mgr.tick_frame();
    assert_eq!(mgr.frame_counter, 1);

    mgr.transition_to(GameState::Battle);
    assert_eq!(mgr.current_state, GameState::Battle);
    assert_eq!(mgr.previous_state, GameState::Loading);
    assert_eq!(mgr.backup_state, GameState::Battle);
    assert_eq!(mgr.counter_1, 0);
    assert_eq!(mgr.frame_counter, 1);
    assert!(mgr.state_changed());

    // A transition to the current state changes nothing.
    mgr.counter_2 = 5;
    mgr.transition_to(GameState::Battle);
    assert_eq!(mgr.counter_2, 5);
    assert_eq!(mgr.previous_state, GameState::Loading);
}

#[test]
fn test_frame_counter_wraps() {
    let mut mgr = StateManager::new();
    mgr.frame_counter = u32::MAX;
    mgr.tick_frame();
    assert_eq!(mgr.frame_counter, 0);
}
