//! The chunked-compression envelope. A container is a fixed 64-byte
//! little-endian header, a table of `chunk_count` compressed chunk lengths,
//! and the compressed chunk data itself. The spec functions here read the
//! authoritative header fields straight off the byte sequence; the exec
//! unpacking code in the crate root is verified against them.
use vstd::prelude::*;

use crate::le::le_u32_at;
use crate::le::le_u64_at;

verus! {

/// Byte length of the fixed container header: five informational u32 fields,
/// the authoritative uncompressed size (u64), the compressed size (u64), the
/// chunk count (u32), the nominal per-chunk uncompressed size (u64), and four
/// reserved u32 fields.
pub const HEADER_LEN: usize = 64;

/// The authoritative total output length declared by the header.
pub open spec fn spec_uncompressed_size(b: Seq<u8>) -> nat {
    le_u64_at(b, 20)
}

/// The number of compressed chunks declared by the header.
pub open spec fn spec_chunk_count(b: Seq<u8>) -> nat {
    le_u32_at(b, 36)
}

/// The nominal uncompressed size of every chunk but the last.
pub open spec fn spec_chunk_unpacked_size(b: Seq<u8>) -> nat {
    le_u64_at(b, 40)
}

/// The compressed byte length of chunk `i`, from the chunk-size table that
/// follows the fixed header.
pub open spec fn spec_chunk_size(b: Seq<u8>, i: int) -> nat {
    le_u32_at(b, HEADER_LEN + 4 * i)
}

/// The fixed header is present in full.
pub open spec fn header_present(b: Seq<u8>) -> bool {
    b.len() >= HEADER_LEN
}

/// The declared output length fits this machine's address space.
pub open spec fn size_fits(b: Seq<u8>) -> bool {
    spec_uncompressed_size(b) <= usize::MAX
}

/// The declared chunks can cover the declared output length: otherwise the
/// header is internally inconsistent and the container is rejected.
pub open spec fn header_consistent(b: Seq<u8>) -> bool {
    spec_chunk_count(b) * spec_chunk_unpacked_size(b) >= spec_uncompressed_size(b)
}

/// The chunk-size table itself lies within the container.
pub open spec fn table_in_bounds(b: Seq<u8>) -> bool {
    HEADER_LEN + 4 * spec_chunk_count(b) <= b.len()
}

/// End offset of chunk `i`'s compressed bytes: the chunk data starts right
/// after the chunk-size table and chunks are laid out back to back.
pub open spec fn chunk_data_end(b: Seq<u8>, i: int) -> int
    decreases i,
{
    if i <= 0 {
        HEADER_LEN + 4 * spec_chunk_count(b)
    } else {
        chunk_data_end(b, i - 1) + spec_chunk_size(b, i - 1)
    }
}

/// Every declared chunk's compressed bytes lie within the container.
pub open spec fn chunks_in_bounds(b: Seq<u8>) -> bool {
    chunk_data_end(b, spec_chunk_count(b) as int) <= b.len()
}

/// A container whose envelope is structurally sound: only the codec can make
/// unpacking such a container fail.
pub open spec fn container_wf(b: Seq<u8>) -> bool {
    &&& header_present(b)
    &&& size_fits(b)
    &&& header_consistent(b)
    &&& table_in_bounds(b)
    &&& chunks_in_bounds(b)
}

/// Bytes still owed after `i` chunks have produced their output: starts at
/// the declared uncompressed size and each chunk subtracts the nominal chunk
/// size, floored at zero.
pub open spec fn remaining_after(u: nat, per: nat, i: nat) -> nat
    decreases i,
{
    if i == 0 {
        u
    } else {
        let p = remaining_after(u, per, (i - 1) as nat);
        if p >= per {
            (p - per) as nat
        } else {
            0
        }
    }
}

/// The expected output length of chunk `i`: the nominal chunk size, except
/// that the final chunk produces only the remainder.
pub open spec fn chunk_output_len(u: nat, per: nat, i: nat) -> nat {
    let p = remaining_after(u, per, i);
    if p >= per {
        per
    } else {
        p
    }
}

/// Closed form of `remaining_after`.
pub proof fn lemma_remaining_after_value(u: nat, per: nat, i: nat)
    ensures
        remaining_after(u, per, i) == if u > i * per {
            u - i * per
        } else {
            0
        },
    decreases i,
{
    if i > 0 {
        lemma_remaining_after_value(u, per, (i - 1) as nat);
        assert(i * per == (i - 1) * per + per) by (nonlinear_arith)
            requires
                i >= 1,
        ;
    } else {
        assert(i * per == 0) by (nonlinear_arith)
            requires
                i == 0,
        ;
    }
}

/// Law: every chunk's expected output is the nominal chunk size, except that
/// the chunk crossing the declared total produces only the remainder, and
/// chunks past the total produce nothing.
pub proof fn lemma_chunk_output_len(u: nat, per: nat, i: nat)
    ensures
        chunk_output_len(u, per, i) == if u >= (i + 1) * per {
            per
        } else if u > i * per {
            (u - i * per) as nat
        } else {
            0
        },
{
    lemma_remaining_after_value(u, per, i);
    assert((i + 1) * per == i * per + per) by (nonlinear_arith);
}

/// Once the declared chunks can cover the declared output, nothing is owed
/// after the last chunk.
pub proof fn lemma_chunks_cover(u: nat, per: nat, n: nat)
    requires
        n * per >= u,
    ensures
        remaining_after(u, per, n) == 0,
{
    lemma_remaining_after_value(u, per, n);
}

/// Chunk data offsets never move backwards.
pub proof fn lemma_chunk_data_end_mono(b: Seq<u8>, i: int, j: int)
    requires
        0 <= i <= j,
    ensures
        chunk_data_end(b, i) <= chunk_data_end(b, j),
    decreases j - i,
{
    if i < j {
        lemma_chunk_data_end_mono(b, i, j - 1);
    }
}

/// Law: the size query is a pure function of the container bytes — any two
/// queries agree — and matches the length of any successful unpack, whose
/// contract pins that length to the same header field.
pub proof fn lemma_size_query_idempotent(c: Seq<u8>, s1: u64, s2: u64, unpacked: Seq<u8>)
    requires
        s1 == spec_uncompressed_size(c),
        s2 == spec_uncompressed_size(c),
        unpacked.len() == spec_uncompressed_size(c),
    ensures
        s1 == s2,
        unpacked.len() == s1,
{
}

} // verus!
