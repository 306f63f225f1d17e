use vstd::bytes::*;
use vstd::prelude::*;
use vstd::slice::slice_subrange;

use crate::file_fill::{
    buffer_pattern, chain_word, lemma_buffer_pattern_sector, lemma_chain_word_injective,
    sector_pattern, word_at, WORDS_PER_SECTOR,
};
use crate::utils::{random_number, SECTOR_SIZE};

verus! {

/// Largest number of mismatching words for which a sector still counts as
/// slightly changed, or as consistent with its own header.
pub const TOLERANCE: usize = 2;

/// What the bytes of one sector say about it, given where it was read from.
#[derive(Clone, Copy, PartialEq, Eq, Debug, Structural)]
pub enum SectorClass {
    /// Header and body are exactly what was written for this position.
    Intact,
    /// Header is right, and at most `TOLERANCE` body words differ.
    Changed,
    /// More than `TOLERANCE` words differ from the chain of the header.
    Corrupted,
    /// The body agrees with the header, but the header names another position.
    Overwritten,
}

/// Counters of one file, as mathematical values.
pub struct StatsModel {
    /// Sectors found intact.
    pub secs_ok: nat,
    /// Sectors found corrupted.
    pub secs_corrupted: nat,
    /// Sectors found slightly changed.
    pub secs_changed: nat,
    /// Sectors found overwritten.
    pub secs_overwritten: nat,
    /// Bytes read from the file.
    pub bytes_read: nat,
    /// Whether the end of the data was reached.
    pub read_all: bool,
}

impl StatsModel {
    /// The counters of a file of which nothing has been read yet.
    pub open spec fn empty() -> StatsModel {
        StatsModel {
            secs_ok: 0,
            secs_corrupted: 0,
            secs_changed: 0,
            secs_overwritten: 0,
            bytes_read: 0,
            read_all: false,
        }
    }

    /// Number of sectors classified so far.
    pub open spec fn sectors(self) -> nat {
        self.secs_ok + self.secs_corrupted + self.secs_changed + self.secs_overwritten
    }

    /// Every sector counter can still grow by `n` within 64 bits.
    pub open spec fn has_room(self, n: nat) -> bool {
        &&& self.secs_ok + n <= u64::MAX
        &&& self.secs_corrupted + n <= u64::MAX
        &&& self.secs_changed + n <= u64::MAX
        &&& self.secs_overwritten + n <= u64::MAX
    }

    /// The counters after one more sector of class `class`.
    pub open spec fn record(self, class: SectorClass) -> StatsModel {
        match class {
            SectorClass::Intact => StatsModel { secs_ok: self.secs_ok + 1, ..self },
            SectorClass::Changed => StatsModel { secs_changed: self.secs_changed + 1, ..self },
            SectorClass::Corrupted => StatsModel {
                secs_corrupted: self.secs_corrupted + 1,
                ..self
            },
            SectorClass::Overwritten => StatsModel {
                secs_overwritten: self.secs_overwritten + 1,
                ..self
            },
        }
    }

    /// The counters after the first `sectors` sectors of `buf`, read from the
    /// position `expected_offset` onwards, have been classified one by one.
    pub open spec fn tally(self, buf: Seq<u8>, sectors: nat, expected_offset: int) -> StatsModel
        decreases sectors,
    {
        if sectors == 0 {
            self
        } else {
            let k: int = sectors - 1;
            self.tally(buf, k as nat, expected_offset).record(
                classify(buf.subrange(512 * k, 512 * k + 512), (expected_offset + 512 * k) as u64),
            )
        }
    }
}

/// Counters of one file: how many of its sectors fell into each class, how
/// many bytes were read, and whether the end of the data was reached.
pub struct FileStats {
    secs_ok: u64,
    secs_corrupted: u64,
    secs_changed: u64,
    secs_overwritten: u64,
    bytes_read: u64,
    read_all: bool,
}

impl View for FileStats {
    type V = StatsModel;

    closed spec fn view(&self) -> StatsModel {
        StatsModel {
            secs_ok: self.secs_ok as nat,
            secs_corrupted: self.secs_corrupted as nat,
            secs_changed: self.secs_changed as nat,
            secs_overwritten: self.secs_overwritten as nat,
            bytes_read: self.bytes_read as nat,
            read_all: self.read_all,
        }
    }
}

impl Default for FileStats {
    fn default() -> (stats: Self)
        ensures
            stats@ == StatsModel::empty(),
    {
        Self::new()
    }
}

impl FileStats {
    /// Counters of a file of which nothing has been read yet.
    pub fn new() -> (stats: Self)
        ensures
            stats@ == StatsModel::empty(),
    {
        FileStats {
            secs_ok: 0,
            secs_corrupted: 0,
            secs_changed: 0,
            secs_overwritten: 0,
            bytes_read: 0,
            read_all: false,
        }
    }

    /// Sectors found intact.
    #[inline]
    pub fn secs_ok(&self) -> (n: u64)
        ensures
            n == self@.secs_ok,
    {
        self.secs_ok
    }

    /// Sectors found corrupted.
    #[inline]
    pub fn secs_corrupted(&self) -> (n: u64)
        ensures
            n == self@.secs_corrupted,
    {
        self.secs_corrupted
    }

    /// Sectors found slightly changed.
    #[inline]
    pub fn secs_changed(&self) -> (n: u64)
        ensures
            n == self@.secs_changed,
    {
        self.secs_changed
    }

    /// Sectors found overwritten.
    #[inline]
    pub fn secs_overwritten(&self) -> (n: u64)
        ensures
            n == self@.secs_overwritten,
    {
        self.secs_overwritten
    }

    /// Bytes read from the file.
    #[inline]
    pub fn bytes_read(&self) -> (n: u64)
        ensures
            n == self@.bytes_read,
    {
        self.bytes_read
    }

    /// Whether the end of the data was reached.
    #[inline]
    pub fn read_all(&self) -> (done: bool)
        ensures
            done == self@.read_all,
    {
        self.read_all
    }

    /// Whether every sector counter can still grow by `sectors`.
    pub fn has_room(&self, sectors: u64) -> (room: bool)
        ensures
            room == self@.has_room(sectors as nat),
    {
        sectors <= u64::MAX - self.secs_ok && sectors <= u64::MAX - self.secs_corrupted && sectors
            <= u64::MAX - self.secs_changed && sectors <= u64::MAX - self.secs_overwritten
    }

    /// Adds `bytes` to the bytes read.
    pub fn add_bytes_read(&mut self, bytes: u64)
        requires
            old(self)@.bytes_read + bytes <= u64::MAX,
        ensures
            final(self)@ == (StatsModel {
                bytes_read: old(self)@.bytes_read + bytes as nat,
                ..old(self)@
            }),
    {
        self.bytes_read += bytes;
    }

    /// Closes the file after its last chunk: all of it was read if that
    /// chunk, `last_chunk` bytes long or negative for an error, was empty.
    pub fn close(&mut self, last_chunk: isize)
        ensures
            final(self)@ == (StatsModel { read_all: last_chunk == 0, ..old(self)@ }),
    {
        self.read_all = last_chunk == 0;
    }

    /// Counts one more sector of class `class`.
    pub fn record(&mut self, class: SectorClass)
        requires
            old(self)@.has_room(1),
        ensures
            final(self)@ == old(self)@.record(class),
    {
        match class {
            SectorClass::Intact => {
                self.secs_ok += 1;
            },
            SectorClass::Changed => {
                self.secs_changed += 1;
            },
            SectorClass::Corrupted => {
                self.secs_corrupted += 1;
            },
            SectorClass::Overwritten => {
                self.secs_overwritten += 1;
            },
        }
    }
}

/// Number of word indices below `upto` at which `sector` differs from the
/// chain seeded by its own header word.
pub open spec fn mismatches(sector: Seq<u8>, upto: int) -> nat
    decreases upto,
{
    if upto <= 0 {
        0
    } else {
        let i = upto - 1;
        let here: nat = if word_at(sector, i) != chain_word(word_at(sector, 0), i as nat) {
            1
        } else {
            0
        };
        mismatches(sector, i) + here
    }
}

/// The class of a sector read from the position `expected_offset`.
pub open spec fn classify(sector: Seq<u8>, expected_offset: u64) -> SectorClass {
    let errors = mismatches(sector, WORDS_PER_SECTOR as int);
    if word_at(sector, 0) == expected_offset {
        if errors == 0 {
            SectorClass::Intact
        } else if errors <= TOLERANCE {
            SectorClass::Changed
        } else {
            SectorClass::Corrupted
        }
    } else if errors <= TOLERANCE {
        SectorClass::Overwritten
    } else {
        SectorClass::Corrupted
    }
}

/// Counting more words never lowers the count.
pub proof fn lemma_mismatches_monotonic(sector: Seq<u8>, i: int, j: int)
    requires
        i <= j,
    ensures
        mismatches(sector, i) <= mismatches(sector, j),
    decreases j - i,
{
    if i < j {
        lemma_mismatches_monotonic(sector, i, j - 1);
    }
}

/// Reads the 64-bit word at word index `i` of `buf`.
fn read_word(buf: &[u8], i: usize) -> (word: u64)
    requires
        8 * i + 8 <= buf@.len(),
    ensures
        word == word_at(buf@, i as int),
{
    assert(buf@.len() == buf.len());
    u64_from_le_bytes(slice_subrange(buf, 8 * i, 8 * i + 8))
}

/// Reads the header word of a sector: the offset it was written for.
pub fn read_offset(buf: &[u8]) -> (offset: u64)
    requires
        buf@.len() >= 8,
    ensures
        offset == word_at(buf@, 0),
{
    read_word(buf, 0)
}

/// Classifies one sector read from the position `expected_offset`.
pub fn classify_sector(sector: &[u8], expected_offset: u64) -> (class: SectorClass)
    requires
        sector@.len() == SECTOR_SIZE,
    ensures
        class == classify(sector@, expected_offset),
{
    let first_word = read_offset(sector);
    let mut rn: u64 = first_word;
    let mut error_count: usize = 0;
    let mut i: usize = 0;
    while i < WORDS_PER_SECTOR
        invariant_except_break
            error_count == mismatches(sector@, i as int),
            error_count <= TOLERANCE,
        invariant
            i <= WORDS_PER_SECTOR,
            sector@.len() == SECTOR_SIZE,
            first_word == word_at(sector@, 0),
            i < WORDS_PER_SECTOR ==> rn == chain_word(first_word, i as nat),
        ensures
            error_count <= TOLERANCE ==> error_count == mismatches(
                sector@,
                WORDS_PER_SECTOR as int,
            ),
            error_count > TOLERANCE ==> mismatches(sector@, WORDS_PER_SECTOR as int) > TOLERANCE,
        decreases WORDS_PER_SECTOR - i,
    {
        let word = read_word(sector, i);
        if word != rn {
            error_count += 1;
            if error_count > TOLERANCE {
                proof {
                    lemma_mismatches_monotonic(sector@, i + 1, WORDS_PER_SECTOR as int);
                }
                break ;
            }
        }
        i += 1;
        if i < WORDS_PER_SECTOR {
            rn = random_number(rn);
        }
    }
    if expected_offset == first_word {
        if error_count == 0 {
            SectorClass::Intact
        } else if error_count <= TOLERANCE {
            SectorClass::Changed
        } else {
            SectorClass::Corrupted
        }
    } else if error_count <= TOLERANCE {
        SectorClass::Overwritten
    } else {
        SectorClass::Corrupted
    }
}

/// Classifying `sectors` sectors adds exactly `sectors` to the counters,
/// spread over the four classes, and touches nothing else.
pub proof fn lemma_tally_counts(stats: StatsModel, buf: Seq<u8>, sectors: nat, expected_offset: int)
    ensures
        ({
            let after = stats.tally(buf, sectors, expected_offset);
            &&& after.sectors() == stats.sectors() + sectors
            &&& stats.secs_ok <= after.secs_ok
            &&& stats.secs_corrupted <= after.secs_corrupted
            &&& stats.secs_changed <= after.secs_changed
            &&& stats.secs_overwritten <= after.secs_overwritten
            &&& after.bytes_read == stats.bytes_read
            &&& after.read_all == stats.read_all
        }),
    decreases sectors,
{
    if sectors > 0 {
        lemma_tally_counts(stats, buf, (sectors - 1) as nat, expected_offset);
    }
}

/// Classifies one sector read from the position `expected_offset` and counts
/// it in `stats`.
pub fn check_sector(sector: &[u8], expected_offset: u64, stats: &mut FileStats)
    requires
        sector@.len() == SECTOR_SIZE,
        old(stats)@.has_room(1),
    ensures
        final(stats)@ == old(stats)@.record(classify(sector@, expected_offset)),
{
    let class = classify_sector(sector, expected_offset);
    stats.record(class);
}

/// Classifies the sectors in the first `size` bytes of `buf`, the first of
/// them read from the position `expected_offset`, counts each in `stats`, and
/// returns the position that follows the last of them.
pub fn check_buffer(buf: &[u8], size: usize, expected_offset: u64, stats: &mut FileStats) -> (next_offset:
    u64)
    requires
        size % SECTOR_SIZE == 0,
        size <= buf@.len(),
        expected_offset + size <= u64::MAX,
        old(stats)@.has_room((size / SECTOR_SIZE) as nat),
    ensures
        next_offset == expected_offset + size,
        final(stats)@ == old(stats)@.tally(
            buf@,
            (size / SECTOR_SIZE) as nat,
            expected_offset as int,
        ),
{
    let mut pos: usize = 0;
    let mut current: u64 = expected_offset;
    while pos < size
        invariant
            pos <= size <= buf@.len(),
            pos % 512 == 0,
            size % 512 == 0,
            expected_offset + size <= u64::MAX,
            current == expected_offset + pos,
            old(stats)@.has_room((size / 512) as nat),
            stats@ == old(stats)@.tally(buf@, (pos / 512) as nat, expected_offset as int),
        decreases size - pos,
    {
        proof {
            lemma_tally_counts(old(stats)@, buf@, (pos / 512) as nat, expected_offset as int);
        }
        let sector = slice_subrange(buf, pos, pos + SECTOR_SIZE);
        check_sector(sector, current, stats);
        pos += SECTOR_SIZE;
        current += SECTOR_SIZE as u64;
    }
    current
}

/// What one call of the underlying read gave.
#[derive(Clone, Copy, PartialEq, Eq, Debug, Structural)]
pub enum ReadEvent {
    /// So many bytes, at least one.
    Data(usize),
    /// Nothing: the data has ended.
    End,
    /// Nothing yet: the call was interrupted.
    Interrupted,
    /// A failure, with the error code of the platform if it has one.
    Failed(Option<i32>),
}

/// What follows one call of the underlying read.
#[derive(Clone, Copy, PartialEq, Eq, Debug, Structural)]
pub enum ReadStep {
    /// Read again, behind the bytes that the buffer holds now.
    Again(usize),
    /// Stop: so many bytes were read in all, or, if negative, the read failed
    /// with the error code of that size.
    Done(isize),
}

/// What follows when `event` comes while `filled` of `len` bytes are read:
/// data is taken in until the buffer is full, the end of the data stops the
/// reading with what there is, an interruption is retried, and a failure
/// gives its error code, or 1 where it has none, negated.
pub open spec fn read_all_next(filled: int, len: int, event: ReadEvent) -> ReadStep {
    match event {
        ReadEvent::Data(n) => if filled + n < len {
            ReadStep::Again((filled + n) as usize)
        } else {
            ReadStep::Done((filled + n) as isize)
        },
        ReadEvent::End => ReadStep::Done(filled as isize),
        ReadEvent::Interrupted => ReadStep::Again(filled as usize),
        ReadEvent::Failed(Some(code)) => ReadStep::Done((-code) as isize),
        ReadEvent::Failed(None) => ReadStep::Done(-1isize),
    }
}

/// Decides what follows one call of the underlying read, made to fill the
/// last `len - filled` bytes of a buffer of `len` bytes.
pub fn read_all_step(filled: usize, len: usize, event: ReadEvent) -> (step: ReadStep)
    requires
        filled < len <= isize::MAX,
        event matches ReadEvent::Data(n) ==> 0 < n <= len - filled,
        event matches ReadEvent::Failed(Some(code)) ==> code > i32::MIN,
    ensures
        step == read_all_next(filled as int, len as int, event),
{
    match event {
        ReadEvent::Data(n) => {
            let filled: usize = filled + n;
            if filled < len {
                ReadStep::Again(filled)
            } else {
                ReadStep::Done(filled as isize)
            }
        },
        ReadEvent::End => ReadStep::Done(filled as isize),
        ReadEvent::Interrupted => ReadStep::Again(filled),
        ReadEvent::Failed(Some(code)) => ReadStep::Done((-code) as isize),
        ReadEvent::Failed(None) => ReadStep::Done(-1),
    }
}

/// The bytes of the complete sectors among the first `bytes` bytes.
pub open spec fn whole_sectors(bytes: int) -> int {
    bytes - bytes % 512
}

/// Where the check of one chunk stands, as mathematical values.
pub struct ChunkModel {
    /// Position that the next sector is read from.
    pub expected_offset: int,
    /// Bytes of the chunk that are still to be read.
    pub chunk_left: int,
    /// Bytes of the chunk that have been read and classified.
    pub total_bytes_read: int,
}

impl ChunkModel {
    /// Whether the chunk can take in the outcome `filled` of one read into a
    /// buffer of `buf_len` bytes, with `stats` to count in. Data must be no
    /// more than the buffer holds and the chunk still lacks; the positions
    /// and the counters must stay within 64 bits.
    pub open spec fn accepts(self, buf_len: int, filled: int, stats: StatsModel) -> bool {
        &&& self.total_bytes_read + self.chunk_left <= isize::MAX
        &&& filled > 0 ==> {
            &&& filled <= buf_len
            &&& filled <= self.chunk_left
            &&& self.expected_offset + whole_sectors(filled) <= u64::MAX
            &&& stats.has_room((filled / 512) as nat)
        }
    }

    /// What the chunk makes of the outcome `filled` of one read into `buf`,
    /// as `read_all_step` gives it. A failure ends the chunk with its
    /// negative code, and the end of the data ends it with the bytes read so
    /// far. Of data, the complete sectors are classified and counted, and the
    /// chunk moves on by them; it ends with the bytes read once nothing is
    /// left of it, or once the data has ended inside a sector.
    pub open spec fn after_read(self, filled: int) -> (ChunkModel, Option<int>) {
        if filled < 0 {
            (self, Some(filled))
        } else if filled == 0 {
            (self, Some(self.total_bytes_read))
        } else {
            let whole = whole_sectors(filled);
            let next = ChunkModel {
                expected_offset: self.expected_offset + whole,
                chunk_left: self.chunk_left - whole,
                total_bytes_read: self.total_bytes_read + whole,
            };
            (
                next,
                if next.chunk_left == 0 || filled % 512 != 0 {
                    Some(next.total_bytes_read)
                } else {
                    None
                },
            )
        }
    }
}

/// The check of one chunk of a file, which may take several reads.
pub struct ChunkCheck {
    expected_offset: u64,
    chunk_left: u64,
    total_bytes_read: u64,
}

impl View for ChunkCheck {
    type V = ChunkModel;

    closed spec fn view(&self) -> ChunkModel {
        ChunkModel {
            expected_offset: self.expected_offset as int,
            chunk_left: self.chunk_left as int,
            total_bytes_read: self.total_bytes_read as int,
        }
    }
}

impl ChunkCheck {
    /// The check of a chunk of `remaining_chunk_size` bytes, the first of
    /// them read from the position `expected_offset`.
    pub fn new(expected_offset: u64, remaining_chunk_size: u64) -> (chunk: Self)
        ensures
            chunk@ == (ChunkModel {
                expected_offset: expected_offset as int,
                chunk_left: remaining_chunk_size as int,
                total_bytes_read: 0,
            }),
    {
        ChunkCheck { expected_offset, chunk_left: remaining_chunk_size, total_bytes_read: 0 }
    }

    /// Position that the next sector is read from.
    pub fn expected_offset(&self) -> (offset: u64)
        ensures
            offset == self@.expected_offset,
    {
        self.expected_offset
    }

    /// Bytes of the chunk that are still to be read.
    pub fn chunk_left(&self) -> (bytes: u64)
        ensures
            bytes == self@.chunk_left,
    {
        self.chunk_left
    }

    /// Bytes of the chunk that have been read and classified.
    pub fn total_bytes_read(&self) -> (bytes: u64)
        ensures
            bytes == self@.total_bytes_read,
    {
        self.total_bytes_read
    }

    /// Number of bytes to ask of the next read into a buffer of `buf_len`
    /// bytes: what is left of the chunk, as far as the buffer holds it. Zero
    /// means that the chunk is done.
    pub fn turn_size(&self, buf_len: usize) -> (size: usize)
        ensures
            size == if self@.chunk_left <= buf_len {
                self@.chunk_left
            } else {
                buf_len as int
            },
    {
        if self.chunk_left <= buf_len as u64 {
            self.chunk_left as usize
        } else {
            buf_len
        }
    }

    /// Whether `step` can take in the outcome `filled` of one read into a
    /// buffer of `buf_len` bytes, with `stats` to count in.
    pub fn accepts(&self, buf_len: usize, filled: isize, stats: &FileStats) -> (accepted: bool)
        ensures
            accepted == self@.accepts(buf_len as int, filled as int, stats@),
    {
        if self.total_bytes_read as u128 + self.chunk_left as u128 > isize::MAX as u128 {
            return false;
        }
        if filled <= 0 {
            return true;
        }
        let size: usize = filled as usize;
        let whole: usize = size - size % SECTOR_SIZE;
        size <= buf_len && size as u64 <= self.chunk_left && whole as u64 <= u64::MAX
            - self.expected_offset && stats.has_room((size / SECTOR_SIZE) as u64)
    }

    /// Takes in the outcome of one read into `buf`: `filled` bytes, none at
    /// the end of the data, or a negative error code. The complete sectors
    /// read are classified and counted in `stats`; bytes behind them, of a
    /// file that ends inside a sector, are left out. Returns the result of
    /// the whole chunk once it has ended: the bytes of the sectors read, zero
    /// exactly when the data held no complete sector any more as the chunk
    /// began, or the error code.
    pub fn step(&mut self, buf: &[u8], filled: isize, stats: &mut FileStats) -> (result: Option<
        isize,
    >)
        requires
            old(self)@.accepts(buf@.len() as int, filled as int, old(stats)@),
        ensures
            final(self)@ == old(self)@.after_read(filled as int).0,
            match result {
                Some(bytes) => old(self)@.after_read(filled as int).1 == Some(bytes as int),
                None => old(self)@.after_read(filled as int).1 is None,
            },
            final(stats)@ == if filled > 0 {
                old(stats)@.tally(
                    buf@,
                    (filled as int / 512) as nat,
                    old(self)@.expected_offset,
                )
            } else {
                old(stats)@
            },
            final(self)@.total_bytes_read + final(self)@.chunk_left <= isize::MAX,
    {
        if filled < 0 {
            return Some(filled);
        }
        if filled == 0 {
            return Some(self.total_bytes_read as isize);
        }
        let size: usize = filled as usize;
        let whole: usize = size - size % SECTOR_SIZE;
        self.total_bytes_read += whole as u64;
        self.chunk_left -= whole as u64;
        self.expected_offset = check_buffer(buf, whole, self.expected_offset, stats);
        if self.chunk_left == 0 || size % SECTOR_SIZE != 0 {
            Some(self.total_bytes_read as isize)
        } else {
            None
        }
    }

    /// Ends the check of the chunk, after its last read or at the first
    /// that failed: the bytes read are added to those of `stats`. Returns
    /// the position that the next chunk starts from, what is left of this
    /// chunk, and the bytes of it that were read.
    pub fn finish(self, stats: &mut FileStats) -> (end: (u64, u64, u64))
        requires
            old(stats)@.bytes_read + self@.total_bytes_read <= u64::MAX,
        ensures
            end == (
                self@.expected_offset as u64,
                self@.chunk_left as u64,
                self@.total_bytes_read as u64,
            ),
            final(stats)@ == (StatsModel {
                bytes_read: old(stats)@.bytes_read + self@.total_bytes_read as nat,
                ..old(stats)@
            }),
    {
        stats.add_bytes_read(self.total_bytes_read);
        (self.expected_offset, self.chunk_left, self.total_bytes_read)
    }
}

/// `sector` with the word at index `i` replaced by `word`.
pub open spec fn with_word(sector: Seq<u8>, i: int, word: u64) -> Seq<u8> {
    Seq::new(
        sector.len(),
        |k: int|
            if 8 * i <= k < 8 * i + 8 {
                spec_u64_to_le_bytes(word)[k - 8 * i]
            } else {
                sector[k]
            },
    )
}

/// Every word of a written sector is the chain word of its index.
pub proof fn lemma_pattern_word(offset: u64, i: int)
    requires
        0 <= i < WORDS_PER_SECTOR,
    ensures
        word_at(sector_pattern(offset), i) == chain_word(offset, i as nat),
{
    let word = chain_word(offset, i as nat);
    lemma_auto_spec_u64_to_from_le_bytes();
    assert(sector_pattern(offset).subrange(8 * i, 8 * i + 8) =~= spec_u64_to_le_bytes(word)) by {
        assert forall|k: int| 0 <= k < 8 implies sector_pattern(offset)[8 * i + k]
            == spec_u64_to_le_bytes(word)[k] by {
            assert((8 * i + k) / 8 == i && (8 * i + k) % 8 == k);
        }
    }
}

/// Replacing one word changes that word and no other.
pub proof fn lemma_with_word(sector: Seq<u8>, i: int, word: u64, j: int)
    requires
        sector.len() == SECTOR_SIZE,
        0 <= i < WORDS_PER_SECTOR,
        0 <= j < WORDS_PER_SECTOR,
    ensures
        word_at(with_word(sector, i, word), j) == if j == i {
            word
        } else {
            word_at(sector, j)
        },
{
    lemma_auto_spec_u64_to_from_le_bytes();
    let changed = with_word(sector, i, word);
    if j == i {
        assert(changed.subrange(8 * j, 8 * j + 8) =~= spec_u64_to_le_bytes(word));
    } else {
        assert(changed.subrange(8 * j, 8 * j + 8) =~= sector.subrange(8 * j, 8 * j + 8));
    }
}

/// A written sector agrees with the chain of its header in every word.
proof fn lemma_pattern_has_no_mismatch(offset: u64, upto: int)
    requires
        upto <= WORDS_PER_SECTOR,
    ensures
        mismatches(sector_pattern(offset), upto) == 0,
    decreases upto,
{
    if upto > 0 {
        lemma_pattern_has_no_mismatch(offset, upto - 1);
        lemma_pattern_word(offset, upto - 1);
        lemma_pattern_word(offset, 0);
    }
}

/// Replacing a body word that agreed with the chain by another value adds
/// one mismatch once the count reaches that word, and leaves the header alone.
proof fn lemma_damage_counts(sector: Seq<u8>, i: int, word: u64, upto: int)
    requires
        sector.len() == SECTOR_SIZE,
        1 <= i < WORDS_PER_SECTOR,
        upto <= WORDS_PER_SECTOR,
        word_at(sector, i) == chain_word(word_at(sector, 0), i as nat),
        word != word_at(sector, i),
    ensures
        mismatches(with_word(sector, i, word), upto) == mismatches(sector, upto) + if i < upto {
            1nat
        } else {
            0nat
        },
    decreases upto,
{
    if upto > 0 {
        lemma_damage_counts(sector, i, word, upto - 1);
        lemma_with_word(sector, i, word, upto - 1);
        lemma_with_word(sector, i, word, 0);
    }
}

/// A sector read back unchanged from the position it was written for is
/// intact, whatever that position is.
pub proof fn lemma_written_sector_is_intact(offset: u64)
    ensures
        mismatches(sector_pattern(offset), WORDS_PER_SECTOR as int) == 0,
        classify(sector_pattern(offset), offset) == SectorClass::Intact,
{
    lemma_pattern_has_no_mismatch(offset, WORDS_PER_SECTOR as int);
    lemma_pattern_word(offset, 0);
}

/// Whether every body word of `sector` is the word that the chain of its
/// header word has at that place: what the generator writes, untouched.
pub open spec fn follows_own_chain(sector: Seq<u8>) -> bool {
    forall|i: int|
        1 <= i < WORDS_PER_SECTOR ==> #[trigger] word_at(sector, i) == chain_word(
            word_at(sector, 0),
            i as nat,
        )
}

/// A sector that follows the chain of its own header counts as
/// ok where it is read from the position that its header names, and as
/// overwritten anywhere else; no other counter moves.
pub proof fn lemma_coherent_sector_counts(stats: StatsModel, sector: Seq<u8>, expected_offset: u64)
    requires
        follows_own_chain(sector),
    ensures
        mismatches(sector, WORDS_PER_SECTOR as int) == 0,
        word_at(sector, 0) == expected_offset ==> stats.record(classify(sector, expected_offset))
            == (StatsModel { secs_ok: stats.secs_ok + 1, ..stats }),
        word_at(sector, 0) != expected_offset ==> stats.record(classify(sector, expected_offset))
            == (StatsModel { secs_overwritten: stats.secs_overwritten + 1, ..stats }),
{
    lemma_coherent_has_no_mismatch(sector, WORDS_PER_SECTOR as int);
}

/// A sector whose body words follow the chain of its header has no mismatch.
proof fn lemma_coherent_has_no_mismatch(sector: Seq<u8>, upto: int)
    requires
        upto <= WORDS_PER_SECTOR,
        follows_own_chain(sector),
    ensures
        mismatches(sector, upto) == 0,
    decreases upto,
{
    if upto > 0 {
        lemma_coherent_has_no_mismatch(sector, upto - 1);
    }
}

/// Round trip: every sector of a buffer filled from `offset` on is intact
/// when it is read back from the position that it was filled for.
pub proof fn lemma_filled_sector_is_intact(offset: int, sectors: nat, k: int)
    requires
        0 <= offset,
        offset + 512 * sectors <= u64::MAX,
        0 <= k < sectors,
    ensures
        classify(
            buffer_pattern(offset, sectors).subrange(512 * k, 512 * k + 512),
            (offset + 512 * k) as u64,
        ) == SectorClass::Intact,
{
    lemma_buffer_pattern_sector(offset, sectors, k);
    lemma_written_sector_is_intact((offset + 512 * k) as u64);
}

/// A sector read back unchanged from a position other than the one it was
/// written for is overwritten.
pub proof fn lemma_relocated_sector_is_overwritten(offset: u64, expected_offset: u64)
    requires
        offset != expected_offset,
    ensures
        classify(sector_pattern(offset), expected_offset) == SectorClass::Overwritten,
{
    lemma_pattern_has_no_mismatch(offset, WORDS_PER_SECTOR as int);
    lemma_pattern_word(offset, 0);
}

/// Under another header every body word of a written sector is a mismatch.
proof fn lemma_rewritten_header_counts(offset: u64, header: u64, upto: int)
    requires
        offset != header,
        1 <= upto <= WORDS_PER_SECTOR,
    ensures
        mismatches(with_word(sector_pattern(offset), 0, header), upto) == upto - 1,
    decreases upto,
{
    lemma_with_word(sector_pattern(offset), 0, header, 0);
    if upto > 1 {
        let i = upto - 1;
        lemma_rewritten_header_counts(offset, header, i);
        lemma_with_word(sector_pattern(offset), 0, header, i);
        lemma_pattern_word(offset, i);
        lemma_chain_word_injective(offset, header, i as nat);
    } else {
        assert(mismatches(with_word(sector_pattern(offset), 0, header), 0) == 0);
    }
}

/// A written sector whose header word alone is replaced by another value is
/// corrupted, wherever it is read from: its body follows the chain of the
/// header that was written, and the chain of the new header differs from
/// that in every word.
pub proof fn lemma_rewritten_header_is_corrupted(offset: u64, header: u64, expected_offset: u64)
    requires
        offset != header,
    ensures
        mismatches(with_word(sector_pattern(offset), 0, header), WORDS_PER_SECTOR as int) == 63,
        classify(with_word(sector_pattern(offset), 0, header), expected_offset)
            == SectorClass::Corrupted,
{
    lemma_rewritten_header_counts(offset, header, WORDS_PER_SECTOR as int);
}

/// Damage to one more body word of a sector adds exactly one mismatch and
/// keeps the header.
pub proof fn lemma_damage_adds_one(sector: Seq<u8>, i: int, word: u64)
    requires
        sector.len() == SECTOR_SIZE,
        1 <= i < WORDS_PER_SECTOR,
        word_at(sector, i) == chain_word(word_at(sector, 0), i as nat),
        word != word_at(sector, i),
    ensures
        with_word(sector, i, word).len() == SECTOR_SIZE,
        word_at(with_word(sector, i, word), 0) == word_at(sector, 0),
        mismatches(with_word(sector, i, word), WORDS_PER_SECTOR as int) == mismatches(
            sector,
            WORDS_PER_SECTOR as int,
        ) + 1,
        forall|j: int|
            0 <= j < WORDS_PER_SECTOR && j != i ==> word_at(with_word(sector, i, word), j)
                == word_at(sector, j),
{
    lemma_damage_counts(sector, i, word, WORDS_PER_SECTOR as int);
    lemma_with_word(sector, i, word, 0);
    assert forall|j: int| 0 <= j < WORDS_PER_SECTOR && j != i implies word_at(
        with_word(sector, i, word),
        j,
    ) == word_at(sector, j) by {
        lemma_with_word(sector, i, word, j);
    }
}

/// The tolerance boundary: a written sector read from its own position with
/// one or two damaged body words is changed, and with three it is corrupted.
pub proof fn lemma_tolerance_boundary(
    offset: u64,
    i1: int,
    w1: u64,
    i2: int,
    w2: u64,
    i3: int,
    w3: u64,
)
    requires
        1 <= i1 < WORDS_PER_SECTOR,
        1 <= i2 < WORDS_PER_SECTOR,
        1 <= i3 < WORDS_PER_SECTOR,
        i1 != i2 && i1 != i3 && i2 != i3,
        w1 != chain_word(offset, i1 as nat),
        w2 != chain_word(offset, i2 as nat),
        w3 != chain_word(offset, i3 as nat),
    ensures
        ({
            let one = with_word(sector_pattern(offset), i1, w1);
            let two = with_word(one, i2, w2);
            let three = with_word(two, i3, w3);
            &&& classify(one, offset) == SectorClass::Changed
            &&& classify(two, offset) == SectorClass::Changed
            &&& classify(three, offset) == SectorClass::Corrupted
        }),
{
    let zero = sector_pattern(offset);
    let one = with_word(zero, i1, w1);
    let two = with_word(one, i2, w2);
    lemma_written_sector_is_intact(offset);
    lemma_pattern_word(offset, 0);
    lemma_pattern_word(offset, i1);
    lemma_pattern_word(offset, i2);
    lemma_pattern_word(offset, i3);
    lemma_damage_adds_one(zero, i1, w1);
    lemma_damage_adds_one(one, i2, w2);
    lemma_damage_adds_one(two, i3, w3);
}

/// The first `upto` of the `sectors` written sectors of `buf` are all counted
/// as ok.
proof fn lemma_written_prefix_is_intact(
    stats: StatsModel,
    buf: Seq<u8>,
    offset: int,
    sectors: nat,
    upto: nat,
)
    requires
        0 <= offset,
        offset + 512 * sectors <= u64::MAX,
        upto <= sectors,
        512 * sectors <= buf.len(),
        buf.subrange(0, 512 * sectors as int) == buffer_pattern(offset, sectors),
    ensures
        stats.tally(buf, upto, offset) == (StatsModel { secs_ok: stats.secs_ok + upto, ..stats }),
    decreases upto,
{
    if upto > 0 {
        let k: int = upto - 1;
        lemma_written_prefix_is_intact(stats, buf, offset, sectors, k as nat);
        let here = (offset + 512 * k) as u64;
        lemma_buffer_pattern_sector(offset, sectors, k);
        assert(buf.subrange(512 * k, 512 * k + 512) =~= buf.subrange(
            0,
            512 * sectors as int,
        ).subrange(512 * k, 512 * k + 512));
        lemma_written_sector_is_intact(here);
    }
}

/// Classifying a buffer whose first `sectors` sectors are read back
/// unchanged from where they were written counts every one of them as ok.
pub proof fn lemma_written_buffer_is_intact(
    stats: StatsModel,
    buf: Seq<u8>,
    offset: int,
    sectors: nat,
)
    requires
        0 <= offset,
        offset + 512 * sectors <= u64::MAX,
        512 * sectors <= buf.len(),
        buf.subrange(0, 512 * sectors as int) == buffer_pattern(offset, sectors),
    ensures
        stats.tally(buf, sectors, offset) == (StatsModel {
            secs_ok: stats.secs_ok + sectors,
            ..stats
        }),
{
    lemma_written_prefix_is_intact(stats, buf, offset, sectors, sectors);
}

} // verus!
