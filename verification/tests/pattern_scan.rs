use remote_mem::error::Error;
use remote_mem::memory::pattern::{begins_with, find_in, BytePattern, Pattern, CHUNK};
use remote_mem::memory::region::{Access, LocalRegion};

fn planted(len: usize, at: usize, pattern: &[u8]) -> LocalRegion {
    let mut bytes = vec![0x11u8; len];
    bytes[at..at + pattern.len()].copy_from_slice(pattern);
    LocalRegion::new(bytes)
}

const SIGNATURE: [u8; 5] = [0x48, 0x8B, 0x05, 0xDE, 0xAD];

#[test]
fn find_in_gives_the_first_index() {
    assert_eq!(find_in(&[1, 2, 3, 2, 3], &[2, 3]), Some(1));
    assert_eq!(find_in(&[1, 2, 3], &[1, 2, 3]), Some(0));
    assert_eq!(find_in(&[1, 2, 3], &[3]), Some(2));
    assert_eq!(find_in(&[1, 1, 1, 2], &[1, 1, 2]), Some(1));
}

#[test]
fn find_in_gives_none_where_the_needle_is_absent() {
    assert_eq!(find_in(&[1, 2, 3], &[3, 2]), None);
    assert_eq!(find_in(&[1, 2, 3], &[1, 2, 3, 4]), None);
    assert_eq!(find_in(&[], &[1]), None);
    assert_eq!(find_in(&[1, 2, 3], &[2, 3, 4]), None);
}

#[test]
fn the_empty_needle_stands_at_the_start() {
    assert_eq!(find_in(&[1, 2, 3], &[]), Some(0));
    assert_eq!(find_in(&[], &[]), Some(0));
    assert!(begins_with(&[1, 2], &[]));
}

#[test]
fn begins_with_looks_at_the_front_only() {
    assert!(begins_with(&[1, 2, 3], &[1, 2]));
    assert!(begins_with(&[1, 2, 3], &[1, 2, 3]));
    assert!(!begins_with(&[1, 2, 3], &[2, 3]));
    assert!(!begins_with(&[1, 2], &[1, 2, 3]));
}

#[test]
fn a_planted_pattern_is_found_at_its_address() {
    for at in [0usize, 1, 100, 4000, 4091, 5000, 9995] {
        let region = planted(10_000, at, &SIGNATURE);
        assert_eq!(BytePattern::new(SIGNATURE.to_vec()).find(&region), Ok(at));
    }
}

#[test]
fn a_pattern_across_two_chunks_is_found() {
    for at in [CHUNK - 4, CHUNK - 3, CHUNK - 2, CHUNK - 1, CHUNK, 2 * CHUNK - 6, 3 * CHUNK - 11] {
        let region = planted(4 * CHUNK, at, &SIGNATURE);
        assert_eq!(BytePattern::new(SIGNATURE.to_vec()).find(&region), Ok(at));
    }
}

#[test]
fn the_first_of_several_matches_wins() {
    let mut bytes = vec![0u8; 9000];
    bytes[5000..5003].copy_from_slice(&[7, 8, 9]);
    bytes[300..303].copy_from_slice(&[7, 8, 9]);
    bytes[8000..8003].copy_from_slice(&[7, 8, 9]);
    let region = LocalRegion::new(bytes);
    assert_eq!(BytePattern::new(vec![7, 8, 9]).find(&region), Ok(300));
}

#[test]
fn an_absent_pattern_is_not_found() {
    let region = LocalRegion::new(vec![0x11u8; 3 * CHUNK + 17]);
    assert_eq!(
        BytePattern::new(SIGNATURE.to_vec()).find(&region),
        Err(Error::PatternNotFound)
    );
    let nearly = planted(10_000, 9_996, &SIGNATURE[..4]);
    assert_eq!(
        BytePattern::new(SIGNATURE.to_vec()).find(&nearly),
        Err(Error::PatternNotFound)
    );
}

#[test]
fn nothing_is_found_in_an_empty_region() {
    let region = LocalRegion::new(Vec::new());
    assert_eq!(BytePattern::new(vec![1]).find(&region), Err(Error::PatternNotFound));
}

#[test]
fn a_refused_scan_is_access_denied() {
    let region = LocalRegion::guarded(SIGNATURE.to_vec(), Access::Denied);
    assert_eq!(BytePattern::new(SIGNATURE.to_vec()).find(&region), Err(Error::AccessDenied));
}

#[test]
fn a_pattern_longer_than_a_chunk_is_found() {
    let pattern: Vec<u8> = (0..CHUNK + 100).map(|i| (i % 251) as u8).collect();
    let mut bytes = vec![0xEEu8; 3 * CHUNK];
    bytes[777..777 + pattern.len()].copy_from_slice(&pattern);
    let region = LocalRegion::new(bytes);
    assert_eq!(BytePattern::new(pattern).find(&region), Ok(777));
}

#[test]
fn a_pattern_that_fills_the_region_is_found() {
    let region = LocalRegion::new(SIGNATURE.to_vec());
    assert_eq!(BytePattern::new(SIGNATURE.to_vec()).find(&region), Ok(0));
}

#[test]
fn the_empty_pattern_stands_at_address_zero() {
    let region = LocalRegion::new(vec![1, 2, 3]);
    assert_eq!(BytePattern::new(Vec::new()).find(&region), Ok(0));
}

#[test]
fn a_capped_backend_is_scanned_in_smaller_steps() {
    let mut bytes = vec![0x11u8; 1000];
    bytes[611..616].copy_from_slice(&SIGNATURE);
    let region = LocalRegion::capped(bytes, 64);
    assert_eq!(BytePattern::new(SIGNATURE.to_vec()).find(&region), Ok(611));
    let narrow = LocalRegion::capped(SIGNATURE.to_vec(), 4);
    assert_eq!(
        BytePattern::new(SIGNATURE.to_vec()).find(&narrow),
        Err(Error::PatternNotFound)
    );
}

#[test]
fn a_pattern_keeps_its_bytes() {
    let pattern = BytePattern::new(vec![1, 2, 3]);
    assert_eq!(pattern.bytes(), &vec![1, 2, 3]);
}
