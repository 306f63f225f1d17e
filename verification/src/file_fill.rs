use vstd::bytes::*;
use vstd::prelude::*;

use crate::utils::{lemma_next_word_injective, next_word, random_number, SECTOR_SIZE};

verus! {

/// Number of 64-bit words in one sector.
pub const WORDS_PER_SECTOR: usize = 64;

/// Word `i` of the chain that starts at `seed`: the seed itself, then the
/// generator applied `i` times.
pub open spec fn chain_word(seed: u64, i: nat) -> u64
    decreases i,
{
    if i == 0 {
        seed
    } else {
        next_word(chain_word(seed, (i - 1) as nat))
    }
}

/// The chains of two seeds differ in every word.
pub proof fn lemma_chain_word_injective(a: u64, b: u64, i: nat)
    requires
        a != b,
    ensures
        chain_word(a, i) != chain_word(b, i),
    decreases i,
{
    if i > 0 {
        lemma_chain_word_injective(a, b, (i - 1) as nat);
        lemma_next_word_injective(chain_word(a, (i - 1) as nat), chain_word(b, (i - 1) as nat));
    }
}

/// The 64-bit word stored little-endian at word index `i` of `bytes`.
pub open spec fn word_at(bytes: Seq<u8>, i: int) -> u64 {
    spec_u64_from_le_bytes(bytes.subrange(8 * i, 8 * i + 8))
}

/// Content of the sector whose absolute offset is `offset`: the offset as
/// header word, followed by the chain it seeds.
pub open spec fn sector_pattern(offset: u64) -> Seq<u8> {
    Seq::new(512, |j: int| spec_u64_to_le_bytes(chain_word(offset, (j / 8) as nat))[j % 8])
}

/// Content of `sectors` consecutive sectors, the first one at `offset`.
pub open spec fn buffer_pattern(offset: int, sectors: nat) -> Seq<u8> {
    Seq::new(512 * sectors, |j: int| sector_pattern((offset + 512 * (j / 512)) as u64)[j % 512])
}

/// Sector `k` of a written buffer is the sector written for its position.
pub proof fn lemma_buffer_pattern_sector(offset: int, sectors: nat, k: int)
    requires
        0 <= k < sectors,
    ensures
        buffer_pattern(offset, sectors).subrange(512 * k, 512 * k + 512) == sector_pattern(
            (offset + 512 * k) as u64,
        ),
{
    let here = sector_pattern((offset + 512 * k) as u64);
    assert forall|j: int| 0 <= j < 512 implies buffer_pattern(offset, sectors)[512 * k + j]
        == here[j] by {
        assert((512 * k + j) / 512 == k && (512 * k + j) % 512 == j);
    }
}

/// Stores `word` little-endian in the eight bytes of `buf` that start at `pos`.
fn write_word(buf: &mut [u8], pos: usize, word: u64)
    requires
        pos + 8 <= old(buf)@.len(),
    ensures
        final(buf)@.len() == old(buf)@.len(),
        final(buf)@.subrange(pos as int, pos + 8) == spec_u64_to_le_bytes(word),
        forall|j: int|
            0 <= j < old(buf)@.len() && !(pos <= j < pos + 8) ==> final(buf)@[j] == old(buf)@[j],
{
    buf[pos] = (word & 0xff) as u8;
    buf[pos + 1] = ((word >> 8) & 0xff) as u8;
    buf[pos + 2] = ((word >> 16) & 0xff) as u8;
    buf[pos + 3] = ((word >> 24) & 0xff) as u8;
    buf[pos + 4] = ((word >> 32) & 0xff) as u8;
    buf[pos + 5] = ((word >> 40) & 0xff) as u8;
    buf[pos + 6] = ((word >> 48) & 0xff) as u8;
    buf[pos + 7] = ((word >> 56) & 0xff) as u8;
    proof {
        spec_u64_to_le_bytes_to_open(word);
    }
}

/// Writes the sector for `offset` into the 512 bytes of `buf` that start at `pos`.
fn fill_sector(buf: &mut [u8], pos: usize, offset: u64)
    requires
        pos + 512 <= old(buf)@.len(),
    ensures
        final(buf)@.len() == old(buf)@.len(),
        final(buf)@.subrange(pos as int, pos + 512) == sector_pattern(offset),
        forall|j: int|
            0 <= j < old(buf)@.len() && !(pos <= j < pos + 512) ==> final(buf)@[j] == old(buf)@[j],
{
    let len: usize = buf.len();
    let mut word: u64 = offset;
    let mut i: usize = 0;
    while i < WORDS_PER_SECTOR
        invariant
            i <= WORDS_PER_SECTOR,
            pos + 512 <= len == buf@.len(),
            buf@.len() == old(buf)@.len(),
            i < WORDS_PER_SECTOR ==> word == chain_word(offset, i as nat),
            forall|j: int| 0 <= j < 8 * i ==> buf@[pos + j] == sector_pattern(offset)[j],
            forall|j: int|
                0 <= j < buf@.len() && !(pos <= j < pos + 512) ==> buf@[j] == old(buf)@[j],
        decreases WORDS_PER_SECTOR - i,
    {
        write_word(buf, pos + 8 * i, word);
        proof {
            let stored = buf@.subrange(pos + 8 * i, pos + 8 * i + 8);
            assert forall|j: int| 8 * i <= j < 8 * (i + 1) implies buf@[pos + j]
                == sector_pattern(offset)[j] by {
                assert(j / 8 == i && j % 8 == j - 8 * i);
                assert(buf@[pos + j] == stored[j - 8 * i]);
            }
        }
        i += 1;
        if i < WORDS_PER_SECTOR {
            word = random_number(word);
        }
    }
}

/// Fills the first `size` bytes of `buf` with consecutive sectors, the first
/// one for the absolute offset `offset`, and returns the offset that follows
/// the last sector written.
pub fn fill_buffer(buf: &mut [u8], size: usize, offset: u64) -> (next_offset: u64)
    requires
        size % SECTOR_SIZE == 0,
        size <= old(buf)@.len(),
        offset + size <= u64::MAX,
    ensures
        next_offset == offset + size,
        final(buf)@.len() == old(buf)@.len(),
        final(buf)@.subrange(0, size as int) == buffer_pattern(
            offset as int,
            (size / SECTOR_SIZE) as nat,
        ),
        forall|j: int| size <= j < old(buf)@.len() ==> final(buf)@[j] == old(buf)@[j],
{
    let mut pos: usize = 0;
    let mut current: u64 = offset;
    while pos < size
        invariant
            pos <= size <= buf@.len(),
            pos % 512 == 0,
            size % 512 == 0,
            buf@.len() == old(buf)@.len(),
            offset + size <= u64::MAX,
            current == offset + pos,
            forall|j: int|
                0 <= j < pos ==> buf@[j] == sector_pattern((offset + 512 * (j / 512)) as u64)[j
                    % 512],
            forall|j: int| size <= j < buf@.len() ==> buf@[j] == old(buf)@[j],
        decreases size - pos,
    {
        fill_sector(buf, pos, current);
        proof {
            let written = buf@.subrange(pos as int, pos + 512);
            assert forall|j: int| pos <= j < pos + 512 implies buf@[j] == sector_pattern(
                (offset + 512 * (j / 512)) as u64,
            )[j % 512] by {
                assert(512 * (j / 512) == pos && j % 512 == j - pos);
                assert(buf@[j] == written[j - pos]);
            }
        }
        pos += SECTOR_SIZE;
        current += SECTOR_SIZE as u64;
    }
    assert(buf@.subrange(0, size as int) =~= buffer_pattern(
        offset as int,
        (size / SECTOR_SIZE) as nat,
    ));
    current
}

} // verus!
