use f3core::file_fill::fill_buffer;
use f3core::flow::Flow;
use f3core::read::{reading_speed, FileSequence, RunTotals};
use f3core::utils::SECTOR_SIZE;
use f3core::verify::{
    read_all_step, ChunkCheck, FileStats, ReadEvent, ReadStep, SectorClass,
};
use f3core::write::{
    is_no_space, plan_fill, plan_fits, write_size, writing_speed, FillPlan, ENOSPC,
};

// ---- reading one buffer ----

#[test]
fn read_all_step_takes_data_until_the_buffer_is_full() {
    assert_eq!(read_all_step(0, 1024, ReadEvent::Data(512)), ReadStep::Again(512));
    assert_eq!(read_all_step(512, 1024, ReadEvent::Data(511)), ReadStep::Again(1023));
    assert_eq!(read_all_step(1023, 1024, ReadEvent::Data(1)), ReadStep::Done(1024));
    assert_eq!(read_all_step(0, 1024, ReadEvent::Data(1024)), ReadStep::Done(1024));
}

#[test]
fn read_all_step_stops_at_the_end_of_the_data() {
    assert_eq!(read_all_step(0, 1024, ReadEvent::End), ReadStep::Done(0));
    assert_eq!(read_all_step(700, 1024, ReadEvent::End), ReadStep::Done(700));
}

#[test]
fn read_all_step_retries_an_interrupted_read() {
    assert_eq!(read_all_step(0, 1024, ReadEvent::Interrupted), ReadStep::Again(0));
    assert_eq!(read_all_step(700, 1024, ReadEvent::Interrupted), ReadStep::Again(700));
}

#[test]
fn read_all_step_gives_the_negated_error_code() {
    assert_eq!(read_all_step(0, 1024, ReadEvent::Failed(Some(5))), ReadStep::Done(-5));
    assert_eq!(read_all_step(700, 1024, ReadEvent::Failed(Some(13))), ReadStep::Done(-13));
    assert_eq!(read_all_step(700, 1024, ReadEvent::Failed(None)), ReadStep::Done(-1));
    assert_eq!(
        read_all_step(0, 1, ReadEvent::Failed(Some(i32::MAX))),
        ReadStep::Done(-(i32::MAX as isize))
    );
}

// ---- checking one chunk ----

#[test]
fn chunk_check_follows_the_reads() {
    let mut data = vec![0u8; 5 * SECTOR_SIZE];
    fill_buffer(&mut data[..], 5 * SECTOR_SIZE, 1 << 30);
    data[4 * SECTOR_SIZE + 100] ^= 1; // one word of the last sector

    let mut stats = FileStats::new();
    let mut chunk = ChunkCheck::new(1 << 30, 8 * 512);
    assert_eq!(chunk.expected_offset(), 1 << 30);
    assert_eq!(chunk.chunk_left(), 4096);
    assert_eq!(chunk.total_bytes_read(), 0);
    // a buffer of 1024 bytes: two sectors per read
    assert_eq!(chunk.turn_size(1024), 1024);
    assert_eq!(chunk.step(&data[..1024], 1024, &mut stats), None);
    assert_eq!(chunk.expected_offset(), (1 << 30) + 1024);
    assert_eq!(chunk.chunk_left(), 3072);
    assert_eq!(chunk.total_bytes_read(), 1024);
    assert_eq!(stats.secs_ok(), 2);
    assert_eq!(stats.bytes_read(), 0);
    // the next read gave one sector only
    assert_eq!(chunk.step(&data[1024..2048], 512, &mut stats), None);
    assert_eq!(chunk.chunk_left(), 2560);
    assert_eq!(chunk.step(&data[1536..], 1024, &mut stats), None);
    assert_eq!(chunk.chunk_left(), 1536);
    assert_eq!(chunk.turn_size(1024), 1024);
    assert_eq!(chunk.turn_size(4096), 1536);
    // then the data ended
    assert_eq!(chunk.step(&data[..0], 0, &mut stats), Some(2560));
    let end = chunk.finish(&mut stats);
    assert_eq!(end, ((1 << 30) + 2560, 1536, 2560));
    assert_eq!(stats.bytes_read(), 2560);
    assert_eq!(
        (stats.secs_ok(), stats.secs_corrupted(), stats.secs_changed(), stats.secs_overwritten()),
        (4, 0, 1, 0)
    );
    assert!(!stats.read_all());
}

#[test]
fn chunk_check_ends_when_nothing_is_left() {
    let mut data = vec![0u8; 2 * SECTOR_SIZE];
    fill_buffer(&mut data[..], 2 * SECTOR_SIZE, 0);
    let mut stats = FileStats::new();
    let mut chunk = ChunkCheck::new(0, 1024);
    assert_eq!(chunk.turn_size(2 * 1024 * 1024), 1024);
    assert_eq!(chunk.step(&data, 512, &mut stats), None);
    assert_eq!(chunk.turn_size(2 * 1024 * 1024), 512);
    assert_eq!(chunk.step(&data[512..], 512, &mut stats), Some(1024));
    assert_eq!(chunk.turn_size(2 * 1024 * 1024), 0);
    assert_eq!(chunk.finish(&mut stats), (1024, 0, 1024));
    assert_eq!(stats.bytes_read(), 1024);
    assert_eq!(stats.secs_ok(), 2);
    assert_eq!(ChunkCheck::new(7, 0).turn_size(100), 0);
    assert_eq!(ChunkCheck::new(7, 100).turn_size(0), 0);
}

#[test]
fn chunk_check_gives_zero_exactly_at_the_end_of_the_data() {
    let mut stats = FileStats::new();
    let mut chunk = ChunkCheck::new(4096, 1024);
    assert_eq!(chunk.step(&[], 0, &mut stats), Some(0));
    assert_eq!(chunk.finish(&mut stats), (4096, 1024, 0));
    assert_eq!(stats.bytes_read(), 0);
}

#[test]
fn chunk_check_gives_the_error_code_of_a_failed_read() {
    let mut data = vec![0u8; SECTOR_SIZE];
    fill_buffer(&mut data[..], SECTOR_SIZE, 4096);
    let mut stats = FileStats::new();
    let mut chunk = ChunkCheck::new(4096, 1024);
    assert_eq!(chunk.step(&data, 512, &mut stats), None);
    assert_eq!(chunk.step(&data, -5, &mut stats), Some(-5));
    // what was read before the failure still counts
    assert_eq!(chunk.finish(&mut stats), (4608, 512, 512));
    assert_eq!(stats.bytes_read(), 512);
    assert_eq!(stats.secs_ok(), 1);
}

#[test]
fn chunk_check_classifies_the_complete_sectors_of_data_that_ends_inside_one() {
    let mut data = vec![0u8; 1024];
    fill_buffer(&mut data[..], 1024, 4096);
    let mut stats = FileStats::new();
    let mut chunk = ChunkCheck::new(4096, 1024);
    // 700 bytes were left in the file: one sector and a piece of the next
    assert!(chunk.accepts(1024, 700, &stats));
    assert_eq!(chunk.step(&data, 700, &mut stats), Some(512));
    assert_eq!(chunk.expected_offset(), 4608);
    assert_eq!(chunk.chunk_left(), 512);
    assert_eq!(chunk.total_bytes_read(), 512);
    assert_eq!(
        (stats.secs_ok(), stats.secs_corrupted(), stats.secs_changed(), stats.secs_overwritten()),
        (1, 0, 0, 0)
    );
    assert_eq!(chunk.finish(&mut stats), (4608, 512, 512));
    assert_eq!(stats.bytes_read(), 512);
}

#[test]
fn chunk_check_of_less_than_a_sector_reads_nothing() {
    let data = vec![0u8; 1024];
    let mut stats = FileStats::new();
    let mut chunk = ChunkCheck::new(4096, 1024);
    assert_eq!(chunk.step(&data, 300, &mut stats), Some(0));
    assert_eq!(chunk.finish(&mut stats), (4096, 1024, 0));
    assert_eq!(stats.bytes_read(), 0);
    assert_eq!(
        (stats.secs_ok(), stats.secs_corrupted(), stats.secs_changed(), stats.secs_overwritten()),
        (0, 0, 0, 0)
    );
}

#[test]
fn chunk_check_ends_at_a_piece_of_a_sector_after_several_reads() {
    let mut data = vec![0u8; 2048];
    fill_buffer(&mut data[..], 2048, 0);
    let mut stats = FileStats::new();
    let mut chunk = ChunkCheck::new(0, 4096);
    assert_eq!(chunk.step(&data[..1024], 1024, &mut stats), None);
    // the second read into the same buffer gets 1023 bytes of other sectors
    assert_eq!(chunk.step(&data[..1024], 1023, &mut stats), Some(1536));
    assert_eq!(chunk.finish(&mut stats), (1536, 2560, 1536));
    assert_eq!(stats.bytes_read(), 1536);
    // the sector written for 0, read again at 1024, is overwritten
    assert_eq!(
        (stats.secs_ok(), stats.secs_corrupted(), stats.secs_changed(), stats.secs_overwritten()),
        (2, 0, 0, 1)
    );
}

#[test]
fn chunk_check_accepts_data_that_fits() {
    let stats = FileStats::new();
    let chunk = ChunkCheck::new(4096, 2048);
    assert!(chunk.accepts(4096, 1024, &stats));
    assert!(chunk.accepts(4096, 2048, &stats));
    assert!(chunk.accepts(0, 0, &stats));
    assert!(chunk.accepts(0, -5, &stats));
    assert!(chunk.accepts(4096, 100, &stats)); // no whole sector: the data ends
    assert!(chunk.accepts(4096, 700, &stats));
    assert!(chunk.accepts(4096, 2047, &stats));
    // only the complete sectors move the position
    assert!(ChunkCheck::new(u64::MAX - 600, 1024).accepts(4096, 700, &stats));
    assert!(!ChunkCheck::new(u64::MAX - 500, 1024).accepts(4096, 700, &stats));
    assert!(!chunk.accepts(512, 1024, &stats)); // more than the buffer holds
    assert!(!chunk.accepts(4096, 2560, &stats)); // more than the chunk lacks
    assert!(!ChunkCheck::new(u64::MAX - 1023, 1024).accepts(4096, 1024, &stats));
    assert!(ChunkCheck::new(u64::MAX - 1024, 1024).accepts(4096, 1024, &stats));
    assert!(!ChunkCheck::new(0, u64::MAX).accepts(4096, 512, &stats));
    assert!(!ChunkCheck::new(0, u64::MAX).accepts(4096, 0, &stats));
}

#[test]
fn stats_have_room_below_the_limit() {
    let mut stats = FileStats::new();
    assert!(stats.has_room(0));
    assert!(stats.has_room(u64::MAX));
    stats.record(SectorClass::Changed);
    assert!(stats.has_room(u64::MAX - 1));
    assert!(!stats.has_room(u64::MAX));
}

#[test]
fn closing_a_file_tells_whether_all_was_read() {
    let mut stats = FileStats::new();
    stats.add_bytes_read(1024);
    stats.add_bytes_read(512);
    assert_eq!(stats.bytes_read(), 1536);
    stats.close(-5);
    assert!(!stats.read_all());
    stats.close(512);
    assert!(!stats.read_all());
    stats.close(0);
    assert!(stats.read_all());
    assert_eq!(stats.bytes_read(), 1536);
}

// ---- totals of a read run ----

fn stats_of(ok: u64, corrupted: u64, changed: u64, overwritten: u64, bytes: u64) -> FileStats {
    let mut stats = FileStats::new();
    for _ in 0..ok {
        stats.record(SectorClass::Intact);
    }
    for _ in 0..corrupted {
        stats.record(SectorClass::Corrupted);
    }
    for _ in 0..changed {
        stats.record(SectorClass::Changed);
    }
    for _ in 0..overwritten {
        stats.record(SectorClass::Overwritten);
    }
    stats.add_bytes_read(bytes);
    stats
}

#[test]
fn run_totals_add_up() {
    let mut totals = RunTotals::new();
    assert_eq!(totals.secs_ok(), 0);
    assert_eq!(totals.secs_lost(), 0);
    assert_eq!(totals.bytes_read(), 0);
    assert!(totals.is_consistent());
    totals.add(&stats_of(10, 1, 2, 3, 16 * 512));
    totals.add(&stats_of(5, 0, 0, 4, 9 * 512));
    totals.add(&FileStats::new());
    assert_eq!(totals.secs_ok(), 15);
    assert_eq!(totals.secs_corrupted(), 1);
    assert_eq!(totals.secs_changed(), 2);
    assert_eq!(totals.secs_overwritten(), 7);
    assert_eq!(totals.secs_lost(), 10);
    assert_eq!(totals.bytes_read(), 25 * 512);
    assert!(totals.is_consistent());
    totals.add(&stats_of(0, 0, 0, 0, 512));
    assert!(!totals.is_consistent());
}

#[test]
fn run_totals_can_add_within_64_bits() {
    let mut totals = RunTotals::new();
    let mut big = FileStats::new();
    big.add_bytes_read(u64::MAX - 10);
    assert!(totals.can_add(&big));
    totals.add(&big);
    assert!(totals.can_add(&stats_of(3, 1, 1, 1, 10)));
    assert!(!totals.can_add(&stats_of(0, 0, 0, 0, 11)));
}

// ---- gaps between the files of a read run ----

#[test]
fn file_sequence_without_gaps() {
    let mut sequence = FileSequence::new(1);
    assert_eq!((sequence.number(), sequence.missing()), (1, false));
    assert_eq!(sequence.advance(1), (1, 1));
    assert_eq!(sequence.advance(2), (2, 2));
    assert_eq!(sequence.advance(3), (3, 3));
    assert_eq!((sequence.number(), sequence.missing()), (4, false));
}

#[test]
fn file_sequence_finds_the_gaps() {
    let mut sequence = FileSequence::new(3);
    // files 3 and 4 are missing before 5
    assert_eq!(sequence.advance(5), (3, 5));
    assert_eq!((sequence.number(), sequence.missing()), (6, true));
    assert_eq!(sequence.advance(6), (6, 6));
    // 7 to 9 are missing before 10
    assert_eq!(sequence.advance(10), (7, 10));
    assert_eq!((sequence.number(), sequence.missing()), (11, true));
}

#[test]
fn file_sequence_counts_a_number_that_comes_again_as_a_gap() {
    let mut sequence = FileSequence::new(1);
    assert_eq!(sequence.advance(1), (1, 1));
    assert_eq!(sequence.advance(1), (2, 2));
    assert_eq!((sequence.number(), sequence.missing()), (3, true));
}

#[test]
fn file_sequence_can_advance_below_the_largest_number() {
    let sequence = FileSequence::new(5);
    assert!(sequence.can_advance(5));
    assert!(sequence.can_advance(i64::MAX - 1));
    assert!(!sequence.can_advance(i64::MAX));
    assert!(sequence.can_advance(i64::MIN));
    assert!(!FileSequence::new(i64::MAX).can_advance(1));
}

// ---- speed in the summary of a read run ----

#[test]
fn reading_speed_prefers_the_measured_average() {
    let mut flow = Flow::new(1 << 30, 0, false);
    assert_eq!(reading_speed(&flow, 0), None);
    assert_eq!(reading_speed(&flow, 10), Some(0));
    assert!(flow.measure(512));
    assert_eq!(reading_speed(&flow, 0), None);
    assert_eq!(reading_speed(&flow, 10), Some(51_200));
    flow.complete_window(1_001_000);
    assert!(flow.has_enough_measurements());
    assert_eq!(reading_speed(&flow, 0), Some(512_000 / 1001));
    assert_eq!(reading_speed(&flow, 10), Some(512_000 / 1001));
}

// ---- plan of a write run ----

const GIB: u64 = 1 << 30;

#[test]
fn plan_fill_writes_the_files_asked_for_if_they_fit() {
    assert_eq!(plan_fill(10 * GIB, 1, 3), Some(FillPlan { size: 3 * GIB, end_at: 3 }));
    assert_eq!(plan_fill(10 * GIB, 1, 10), Some(FillPlan { size: 10 * GIB, end_at: 10 }));
    assert_eq!(plan_fill(10 * GIB + 5, 4, 4), Some(FillPlan { size: GIB, end_at: 4 }));
    assert_eq!(plan_fill(GIB, 7, 7), Some(FillPlan { size: GIB, end_at: 7 }));
}

#[test]
fn plan_fill_writes_what_is_free_otherwise() {
    // more files than fit
    assert_eq!(plan_fill(10 * GIB, 1, 11), Some(FillPlan { size: 10 * GIB, end_at: 11 }));
    assert_eq!(
        plan_fill(10 * GIB + 5, 3, 100),
        Some(FillPlan { size: 10 * GIB + 5, end_at: 13 })
    );
    // no last file given
    assert_eq!(plan_fill(2 * GIB + GIB / 2, 1, 0), Some(FillPlan { size: 2 * GIB + GIB / 2, end_at: 3 }));
    assert_eq!(plan_fill(512, 1, 0), Some(FillPlan { size: 512, end_at: 1 }));
    assert_eq!(plan_fill(512, 1, 5), Some(FillPlan { size: 512, end_at: 1 }));
    assert_eq!(plan_fill(GIB - 1, 9, 9), Some(FillPlan { size: GIB - 1, end_at: 9 }));
    assert_eq!(
        plan_fill(u64::MAX, 1, 0),
        Some(FillPlan { size: u64::MAX, end_at: 1 + ((1 << 34) - 1) })
    );
}

#[test]
fn plan_fill_has_nothing_to_write_on_a_full_device() {
    assert_eq!(plan_fill(0, 1, 0), None);
    assert_eq!(plan_fill(0, 1, 5), None);
}

#[test]
fn plan_fits_unless_the_last_file_number_overflows() {
    assert!(plan_fits(10 * GIB, 1, 3));
    assert!(plan_fits(0, i64::MAX, 0));
    assert!(plan_fits(u64::MAX, 1, 0));
    assert!(plan_fits(GIB, i64::MAX - 1, 0));
    assert!(!plan_fits(GIB, i64::MAX, 0));
    assert!(!plan_fits(2 * GIB, i64::MAX - 1, 0));
    // the files asked for fit: the last number is the one given
    assert!(plan_fits(2 * GIB, i64::MAX - 1, i64::MAX));
    assert!(plan_fits(GIB - 1, i64::MAX, i64::MAX));
}

#[test]
fn write_size_is_the_chunk_as_far_as_the_file_goes() {
    assert_eq!(write_size(512, 1 << 30), 512);
    assert_eq!(write_size(4096, 4096), 4096);
    assert_eq!(write_size(4096, 1024), 1024);
    assert_eq!(write_size(4096, 0), 0);
    assert_eq!(write_size(0, 4096), 0);
    assert_eq!(write_size(u64::MAX, u64::MAX - 1), u64::MAX - 1);
}

#[test]
fn writing_speed_is_the_measured_average_once_time_has_passed() {
    let mut flow = Flow::new(1 << 30, 0, false);
    // nothing measured, no time passed: nothing to show
    assert_eq!(writing_speed(&flow, 0), None);
    assert!(flow.measure(512));
    flow.complete_window(2_000); // one block in 2 ms
    assert!(!flow.has_enough_measurements());
    assert_eq!(writing_speed(&flow, 0), None);
    assert_eq!(writing_speed(&flow, 5), Some(256_000));
    assert!(flow.measure(1024));
    flow.complete_window(1_000_000);
    assert!(flow.has_enough_measurements());
    assert_eq!(writing_speed(&flow, 0), Some(3 * 512_000 / 1002));
    assert_eq!(writing_speed(&flow, 9), Some(3 * 512_000 / 1002));
}

#[test]
fn no_space_is_error_28() {
    assert_eq!(ENOSPC, 28);
    assert!(is_no_space(Some(28)));
    assert!(!is_no_space(Some(13)));
    assert!(!is_no_space(Some(-28)));
    assert!(!is_no_space(None));
}
