use f3core::file_fill::fill_buffer;
use f3core::utils::{random_number, SECTOR_SIZE};

#[test]
fn test_fill_buffer_sector() {
    let mut buf = vec![0u8; SECTOR_SIZE];
    let len: usize = buf.len();
    let off0: u64 = 1234;
    let off1 = fill_buffer(&mut buf[..], len, off0);
    assert_eq!(off1, off0 + SECTOR_SIZE as u64);
    let first = u64::from_ne_bytes(buf[0..8].try_into().unwrap());
    assert_eq!(first, off0);
}

#[test]
fn fill_buffer_writes_the_chain_of_each_header() {
    let mut buf = vec![0xAAu8; 3 * SECTOR_SIZE + 7];
    let next = fill_buffer(&mut buf[..], 3 * SECTOR_SIZE, 1 << 30);
    assert_eq!(next, (1 << 30) + 1536);
    for s in 0..3 {
        let mut expected: u64 = (1 << 30) + 512 * s as u64;
        for w in 0..64 {
            let at = s * SECTOR_SIZE + 8 * w;
            let word = u64::from_le_bytes(buf[at..at + 8].try_into().unwrap());
            assert_eq!(word, expected);
            expected = random_number(expected);
        }
    }
    // bytes past `size` are left alone
    assert_eq!(&buf[3 * SECTOR_SIZE..], &[0xAAu8; 7][..]);
}

#[test]
fn fill_buffer_of_nothing_keeps_the_offset() {
    let mut buf = vec![7u8; SECTOR_SIZE];
    assert_eq!(fill_buffer(&mut buf[..], 0, 4096), 4096);
    assert_eq!(buf, vec![7u8; SECTOR_SIZE]);
}

#[test]
fn random_number_exact_values() {
    assert_eq!(random_number(0), 17);
    assert_eq!(random_number(1), 4_294_967_328);
    assert_eq!(random_number(17), 73_014_444_304);
    // 2^64 - 1 times the multiplier wraps to 2^64 - multiplier
    assert_eq!(random_number(u64::MAX), 0u64.wrapping_sub(4_294_967_311).wrapping_add(17));
    assert_eq!(random_number(1 << 63), (1u64 << 63) + 17);
}

#[test]
fn random_number_is_deterministic() {
    for seed in [0u64, 1, 512, 0xDEAD_BEEF, u64::MAX] {
        assert_eq!(random_number(seed), random_number(seed));
    }
}
