use f3core::file_fill::fill_buffer;
use f3core::utils::{random_number, SECTOR_SIZE};
use f3core::verify::{
    check_buffer, check_sector, classify_sector, read_offset, FileStats, SectorClass, TOLERANCE,
};

// ---- helpers ----

fn write_word_ne(buf: &mut [u8], i: usize, val: u64) {
    let start = i * 8;
    buf[start..start + 8].copy_from_slice(&val.to_ne_bytes());
}

fn gen_ok_sector(expected_offset: u64) -> [u8; SECTOR_SIZE] {
    assert_eq!(SECTOR_SIZE % std::mem::size_of::<u64>(), 0);
    let num_words = SECTOR_SIZE / std::mem::size_of::<u64>();

    let mut sector = [0u8; SECTOR_SIZE];

    // word[0] = expected_offset
    write_word_ne(&mut sector, 0, expected_offset);

    // words[1..] = random_number(chain)
    let mut rn = expected_offset;
    for i in 1..num_words {
        rn = random_number(rn);
        write_word_ne(&mut sector, i, rn);
    }
    sector
}

/// Mutates N 64-bit words (with indices >= 1) to force a desired class.
/// Does not touch the header word at index 0.
fn bump_words(sector: &mut [u8], word_indices: &[usize]) {
    for &i in word_indices {
        let start = i * 8;
        let mut arr = [0u8; 8];
        arr.copy_from_slice(&sector[start..start + 8]);
        let v = u64::from_ne_bytes(arr) + 1;
        sector[start..start + 8].copy_from_slice(&v.to_ne_bytes());
    }
}

fn assert_counts(s: &FileStats, ok: u64, corrupted: u64, changed: u64, overwritten: u64) {
    assert_eq!(s.secs_ok(), ok, "secs_ok");
    assert_eq!(s.secs_corrupted(), corrupted, "secs_corrupted");
    assert_eq!(s.secs_changed(), changed, "secs_changed");
    assert_eq!(s.secs_overwritten(), overwritten, "secs_overwritten");
}

// ---- tests for check_sector ----

#[test]
fn verify_sector_ok() {
    let mut stats = FileStats::new();
    let sector = gen_ok_sector(0);
    check_sector(&sector, 0, &mut stats);
    assert_counts(&stats, 1, 0, 0, 0);
}

#[test]
fn verify_sector_changed_le_tolerance() {
    let mut stats = FileStats::new();
    let mut sector = gen_ok_sector(512);

    let mut to_bump = Vec::new();
    for i in 1..=TOLERANCE {
        to_bump.push(i); // 1..=TOLERANCE
    }
    bump_words(&mut sector, &to_bump);

    check_sector(&sector, 512, &mut stats);
    assert_counts(&stats, 0, 0, 1, 0);
}

#[test]
fn verify_sector_corrupted_gt_tolerance_header_ok() {
    let mut stats = FileStats::new();
    let mut sector = gen_ok_sector(1024);

    // Corrupt TOLERANCE+1 words (not changing offset)
    let mut to_bump = Vec::new();
    for i in 1..=(TOLERANCE + 1) {
        to_bump.push(i);
    }
    bump_words(&mut sector, &to_bump);

    check_sector(&sector, 1024, &mut stats);
    assert_counts(&stats, 0, 1, 0, 0);
}

#[test]
fn verify_sector_overwritten_header_wrong_errors_le_tolerance() {
    let mut stats: FileStats = FileStats::new();
    let mut sector = gen_ok_sector(0);

    // Getting "overwritten": offset != expected_offset,
    // but the other words match (error_count == 0 <= TOLERANCE)
    write_word_ne(&mut sector, 0, 0);

    check_sector(&sector, 2048, &mut stats);
    assert_counts(&stats, 0, 0, 0, 1);
}

#[test]
fn verify_sector_corrupted_header_wrong_errors_gt_tolerance() {
    let mut stats = FileStats::new();
    let mut sector = gen_ok_sector(4096);

    // Incorrect header + > TOLERANCE corrupted
    write_word_ne(&mut sector, 0, 0xDEAD_BEEF);
    let mut to_bump = Vec::new();
    for i in 1..=(TOLERANCE + 1) {
        to_bump.push(i);
    }
    bump_words(&mut sector, &to_bump);

    check_sector(&sector, 4096, &mut stats);
    assert_counts(&stats, 0, 1, 0, 0);
}

// ---- test for check_buffer (some secs in a row) ----

#[test]
fn verify_buffer_three_sectors_all_ok() {
    let mut stats = FileStats::new();
    let expected_offset = 0u64;

    let s0 = gen_ok_sector(0);
    let s1 = gen_ok_sector(512);
    let s2 = gen_ok_sector(1024);

    let mut buf = Vec::with_capacity(SECTOR_SIZE * 3);
    buf.extend_from_slice(&s0);
    buf.extend_from_slice(&s1);
    buf.extend_from_slice(&s2);

    let new_off = check_buffer(&buf, buf.len(), expected_offset, &mut stats);

    assert_eq!(new_off, 1536);
    assert_counts(&stats, 3, 0, 0, 0);
}

// ---- further cases ----

#[test]
fn new_stats_are_empty() {
    let stats = FileStats::new();
    assert_counts(&stats, 0, 0, 0, 0);
    assert_eq!(stats.bytes_read(), 0);
    assert!(!stats.read_all());
    let stats = FileStats::default();
    assert_counts(&stats, 0, 0, 0, 0);
    assert_eq!(stats.bytes_read(), 0);
    assert!(!stats.read_all());
}

#[test]
fn read_offset_is_little_endian() {
    let bytes = [0x01u8, 0x02, 0x03, 0x04, 0x05, 0x06, 0x07, 0x08, 0xFF];
    assert_eq!(read_offset(&bytes), 0x0807_0605_0403_0201);
    assert_eq!(read_offset(&gen_ok_sector(77_824)), 77_824);
}

#[test]
fn round_trip_of_filled_sectors() {
    for offset in [0u64, 512, 1 << 30, (1 << 40) + 1024, u64::MAX - 511] {
        let mut sector = [0u8; SECTOR_SIZE];
        fill_buffer(&mut sector[..], SECTOR_SIZE, offset);
        assert_eq!(classify_sector(&sector, offset), SectorClass::Intact);
        assert_eq!(sector, gen_ok_sector(offset));
    }
}

#[test]
fn filled_sector_at_another_position_is_overwritten() {
    let mut sector = [0u8; SECTOR_SIZE];
    fill_buffer(&mut sector[..], SECTOR_SIZE, 512);
    assert_eq!(classify_sector(&sector, 0), SectorClass::Overwritten);
    assert_eq!(classify_sector(&sector, 1024), SectorClass::Overwritten);
    assert_eq!(classify_sector(&sector, 512), SectorClass::Intact);
}

#[test]
fn tolerance_boundary_on_any_body_words() {
    let clean = gen_ok_sector(8192);
    let mut one = clean;
    bump_words(&mut one, &[63]);
    assert_eq!(classify_sector(&one, 8192), SectorClass::Changed);
    let mut two = clean;
    bump_words(&mut two, &[17, 40]);
    assert_eq!(classify_sector(&two, 8192), SectorClass::Changed);
    let mut three = clean;
    bump_words(&mut three, &[5, 17, 63]);
    assert_eq!(classify_sector(&three, 8192), SectorClass::Corrupted);
    let mut all = clean;
    let body: Vec<usize> = (1..64).collect();
    bump_words(&mut all, &body);
    assert_eq!(classify_sector(&all, 8192), SectorClass::Corrupted);
}

#[test]
fn header_of_another_sector_with_light_damage_is_overwritten() {
    let mut sector = gen_ok_sector(4096);
    bump_words(&mut sector, &[1, 2]);
    assert_eq!(classify_sector(&sector, 0), SectorClass::Overwritten);
    bump_words(&mut sector, &[3]);
    assert_eq!(classify_sector(&sector, 0), SectorClass::Corrupted);
}

#[test]
fn header_zeroed_under_a_foreign_body_is_corrupted() {
    // The body still follows the chain of 512, so against the chain of the
    // new header every body word but none of the header differs.
    let mut sector = gen_ok_sector(512);
    write_word_ne(&mut sector, 0, 0);
    assert_eq!(classify_sector(&sector, 2048), SectorClass::Corrupted);
    assert_eq!(classify_sector(&sector, 0), SectorClass::Corrupted);
}

#[test]
fn all_zero_sector() {
    // header 0, and word 1 already differs from 17: 63 mismatches
    let sector = [0u8; SECTOR_SIZE];
    assert_eq!(classify_sector(&sector, 0), SectorClass::Corrupted);
    assert_eq!(classify_sector(&sector, 512), SectorClass::Corrupted);
}

#[test]
fn buffer_with_every_class() {
    let mut buf = Vec::new();
    buf.extend_from_slice(&gen_ok_sector(1024)); // intact at 1024
    let mut changed = gen_ok_sector(1536);
    bump_words(&mut changed, &[9]);
    buf.extend_from_slice(&changed); // changed at 1536
    buf.extend_from_slice(&gen_ok_sector(0)); // overwritten at 2048
    let mut bad = gen_ok_sector(2560);
    bump_words(&mut bad, &[1, 2, 3, 4]);
    buf.extend_from_slice(&bad); // corrupted at 2560
    buf.extend_from_slice(&gen_ok_sector(3072)); // not looked at

    let mut stats = FileStats::new();
    let next = check_buffer(&buf, 4 * SECTOR_SIZE, 1024, &mut stats);
    assert_eq!(next, 3072);
    assert_counts(&stats, 1, 1, 1, 1);
    assert_eq!(stats.bytes_read(), 0);

    let next = check_buffer(&buf[4 * SECTOR_SIZE..], SECTOR_SIZE, next, &mut stats);
    assert_eq!(next, 3584);
    assert_counts(&stats, 2, 1, 1, 1);
}

#[test]
fn empty_buffer_changes_nothing() {
    let mut stats = FileStats::new();
    assert_eq!(check_buffer(&[], 0, 999, &mut stats), 999);
    assert_counts(&stats, 0, 0, 0, 0);
}

#[test]
fn record_counts_each_class() {
    let mut stats = FileStats::new();
    stats.record(SectorClass::Intact);
    stats.record(SectorClass::Corrupted);
    stats.record(SectorClass::Corrupted);
    stats.record(SectorClass::Changed);
    stats.record(SectorClass::Changed);
    stats.record(SectorClass::Changed);
    stats.record(SectorClass::Overwritten);
    assert_counts(&stats, 1, 2, 3, 1);
}
