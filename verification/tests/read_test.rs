use f3core::utils::{random_number, SECTOR_SIZE};
use f3core::verify::{check_buffer, check_sector, FileStats, TOLERANCE};

// ---- helpers ----

fn write_word(buf: &mut [u8], i: usize, val: u64) {
    let start = i * 8;
    buf[start..start + 8].copy_from_slice(&val.to_ne_bytes());
}

fn ok_sector(expected_offset: u64) -> [u8; SECTOR_SIZE] {
    let num_words = SECTOR_SIZE / std::mem::size_of::<u64>();
    let mut sector = [0u8; SECTOR_SIZE];
    write_word(&mut sector, 0, expected_offset);
    let mut rn = expected_offset;
    for i in 1..num_words {
        rn = random_number(rn);
        write_word(&mut sector, i, rn);
    }
    sector
}

fn bump(sector: &mut [u8], word_indices: &[usize]) {
    for &i in word_indices {
        let start = i * 8;
        let mut arr = [0u8; 8];
        arr.copy_from_slice(&sector[start..start + 8]);
        let v = u64::from_ne_bytes(arr) + 1;
        sector[start..start + 8].copy_from_slice(&v.to_ne_bytes());
    }
}

fn counts(s: &FileStats) -> (u64, u64, u64, u64) {
    (s.secs_ok(), s.secs_corrupted(), s.secs_changed(), s.secs_overwritten())
}

// ---- tests for check_sector ----

#[test]
fn tests_sector_ok() {
    let mut stats = FileStats::new();
    let sector = ok_sector(0);
    check_sector(&sector, 0, &mut stats);
    assert_eq!(counts(&stats), (1, 0, 0, 0));
}

#[test]
fn tests_sector_changed_le_tolerance() {
    let mut stats = FileStats::new();
    let mut sector = ok_sector(512);

    let mut to_bump = Vec::new();
    for i in 1..=TOLERANCE {
        to_bump.push(i);
    }
    bump(&mut sector, &to_bump);

    check_sector(&sector, 512, &mut stats);
    assert_eq!(counts(&stats), (0, 0, 1, 0));
}

#[test]
fn tests_sector_corrupted_gt_tolerance_header_ok() {
    let mut stats = FileStats::new();
    let mut sector = ok_sector(1024);

    let mut to_bump = Vec::new();
    for i in 1..=(TOLERANCE + 1) {
        to_bump.push(i);
    }
    bump(&mut sector, &to_bump);

    check_sector(&sector, 1024, &mut stats);
    assert_eq!(counts(&stats), (0, 1, 0, 0));
}

#[test]
fn tests_sector_overwritten_header_wrong_errors_le_tolerance() {
    let mut stats: FileStats = FileStats::new();
    let mut sector = ok_sector(0);

    write_word(&mut sector, 0, 0);

    check_sector(&sector, 2048, &mut stats);
    assert_eq!(counts(&stats), (0, 0, 0, 1));
}

#[test]
fn tests_sector_corrupted_header_wrong_errors_gt_tolerance() {
    let mut stats = FileStats::new();
    let mut sector = ok_sector(4096);

    write_word(&mut sector, 0, 0xDEAD_BEEF);
    let mut to_bump = Vec::new();
    for i in 1..=(TOLERANCE + 1) {
        to_bump.push(i);
    }
    bump(&mut sector, &to_bump);

    check_sector(&sector, 4096, &mut stats);
    assert_eq!(counts(&stats), (0, 1, 0, 0));
}

// ---- test for check_buffer (some secs in a row) ----

#[test]
fn tests_buffer_three_sectors_all_ok() {
    let mut stats = FileStats::new();
    let expected_offset = 0u64;

    let s0 = ok_sector(0);
    let s1 = ok_sector(512);
    let s2 = ok_sector(1024);

    let mut buf = Vec::with_capacity(SECTOR_SIZE * 3);
    buf.extend_from_slice(&s0);
    buf.extend_from_slice(&s1);
    buf.extend_from_slice(&s2);

    let new_off = check_buffer(&buf, buf.len(), expected_offset, &mut stats);

    assert_eq!(new_off, 1536);
    assert_eq!(counts(&stats), (3, 0, 0, 0));
}
