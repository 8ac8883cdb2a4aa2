//! Decoder for a chunked-compression game asset container format: the
//! container envelope itself, the index that maps path hashes to byte ranges
//! inside bundles, and the back-reference path table that lists every logical
//! file path. The decompression codec and all file or archive access stay
//! outside: the codec is an injected capability, and callers hand the raw
//! bytes in.
use vstd::prelude::*;

pub mod container;
pub mod err;
pub mod paths;
pub mod reader;
pub mod tables;
pub mod le;
pub mod util;

use std::collections::HashMap;

use vstd::slice::slice_subrange;

use crate::container::chunk_data_end;
use crate::container::chunk_output_len;
use crate::container::chunks_in_bounds;
use crate::container::container_wf;
use crate::container::header_consistent;
use crate::container::header_present;
use crate::container::lemma_chunk_data_end_mono;
use crate::container::lemma_chunks_cover;
use crate::container::remaining_after;
use crate::container::size_fits;
use crate::container::spec_chunk_count;
use crate::container::spec_chunk_size;
use crate::container::spec_chunk_unpacked_size;
use crate::container::spec_uncompressed_size;
use crate::container::table_in_bounds;
use crate::container::HEADER_LEN;
use crate::err::BundleError;
use crate::le::read_u32_le;
use crate::le::read_u64_le;
use crate::paths::build_paths;
use crate::tables::bundle_vec_view;
use crate::tables::parse_tables;
use crate::tables::spec_parse_index;
use crate::tables::FileEntry;
use crate::tables::RepEntry;

verus! {

broadcast use vstd::std_specs::hash::group_hash_axioms;

/// Failure reported by the decompression codec for one chunk.
#[derive(Clone, Copy, Debug, PartialEq, Eq, Structural)]
pub struct CodecError;

/// The external decompression capability: given one compressed chunk and the
/// exact number of bytes it must produce, hand back exactly that many
/// decompressed bytes or report a failure. The unpacking code checks the
/// returned length itself and treats a wrong-sized result as a codec failure,
/// so nothing is assumed of an implementation.
pub trait Codec {
    fn decompress(&self, src: &[u8], expected_len: usize) -> Result<Vec<u8>, CodecError>;
}

/// Query the total output length a container will unpack to. Reads only the
/// fixed header; no chunk table is touched and no codec is involved.
pub fn size_of(src: &[u8]) -> (r: Result<u64, BundleError>)
    ensures
        header_present(src@) ==> r == Ok::<u64, BundleError>(spec_uncompressed_size(src@) as u64),
        !header_present(src@) ==> r == Err::<u64, BundleError>(BundleError::TruncatedHeader),
{
    if src.len() < HEADER_LEN {
        return Err(BundleError::TruncatedHeader);
    }
    Ok(read_u64_le(src, 20))
}

/// Unpack a whole container: parse and validate the header and chunk-size
/// table, then run the codec over each compressed chunk in index order and
/// concatenate the results. Chunk `i` must produce `chunk_output_len` bytes —
/// the nominal chunk size, or the remainder for the final chunk — and a
/// failing or wrong-sized codec result aborts the call. On success the output
/// holds exactly the declared number of bytes.
pub fn unpack<C: Codec>(src: &[u8], codec: &C) -> (r: Result<Vec<u8>, BundleError>)
    ensures
        !header_present(src@) <==> r == Err::<Vec<u8>, BundleError>(BundleError::TruncatedHeader),
        header_present(src@) && !size_fits(src@) ==> r == Err::<Vec<u8>, BundleError>(
            BundleError::SizeOverflow,
        ),
        header_present(src@) && size_fits(src@) && !header_consistent(src@) ==> r == Err::<
            Vec<u8>,
            BundleError,
        >(BundleError::InconsistentHeader),
        header_present(src@) && size_fits(src@) && header_consistent(src@) && !table_in_bounds(
            src@,
        ) ==> r == Err::<Vec<u8>, BundleError>(BundleError::TruncatedChunkTable),
        container_wf(src@) ==> r is Ok || r == Err::<Vec<u8>, BundleError>(
            BundleError::CodecFailure,
        ),
        r is Ok ==> container_wf(src@) && r->Ok_0@.len() == spec_uncompressed_size(src@),
{
    let n = src.len();
    if n < HEADER_LEN {
        return Err(BundleError::TruncatedHeader);
    }
    let uncompressed_size = read_u64_le(src, 20);
    let chunk_count = read_u32_le(src, 36);
    let chunk_unpacked = read_u64_le(src, 40);
    if uncompressed_size > usize::MAX as u64 {
        return Err(BundleError::SizeOverflow);
    }
    proof {
        vstd::arithmetic::mul::lemma_mul_upper_bound(
            chunk_count as int,
            0xffffffff,
            chunk_unpacked as int,
            0xffffffffffffffff,
        );
    }
    if (chunk_count as u128) * (chunk_unpacked as u128) < uncompressed_size as u128 {
        return Err(BundleError::InconsistentHeader);
    }
    let table_end_u64: u64 = (HEADER_LEN as u64) + 4u64 * (chunk_count as u64);
    if table_end_u64 > n as u64 {
        return Err(BundleError::TruncatedChunkTable);
    }
    let table_end: usize = table_end_u64 as usize;

    let count = chunk_count as usize;
    let mut out: Vec<u8> = Vec::new();
    let mut offset: usize = table_end;
    let mut remaining: u64 = uncompressed_size;
    let mut i: usize = 0;
    while i < count
        invariant
            count == spec_chunk_count(src@),
            uncompressed_size == spec_uncompressed_size(src@),
            chunk_unpacked == spec_chunk_unpacked_size(src@),
            uncompressed_size <= usize::MAX,
            spec_chunk_count(src@) * spec_chunk_unpacked_size(src@) >= spec_uncompressed_size(src@),
            n == src@.len(),
            header_present(src@),
            table_in_bounds(src@),
            i <= count,
            offset == chunk_data_end(src@, i as int),
            offset <= n,
            remaining == remaining_after(
                uncompressed_size as nat,
                chunk_unpacked as nat,
                i as nat,
            ),
            remaining <= uncompressed_size,
            out@.len() + remaining == uncompressed_size,
        decreases count - i,
    {
        let csize32 = read_u32_le(src, HEADER_LEN + 4 * i);
        let csize = csize32 as usize;
        proof {
            assert(csize == spec_chunk_size(src@, i as int));
        }
        if csize > n - offset {
            proof {
                if chunks_in_bounds(src@) {
                    lemma_chunk_data_end_mono(src@, i as int + 1, count as int);
                    assert(chunk_data_end(src@, i as int + 1) == chunk_data_end(src@, i as int)
                        + spec_chunk_size(src@, i as int));
                }
            }
            return Err(BundleError::ChunkOutOfBounds);
        }
        let expected64: u64 = if remaining < chunk_unpacked {
            remaining
        } else {
            chunk_unpacked
        };
        let expected: usize = expected64 as usize;
        proof {
            assert(expected == chunk_output_len(
                uncompressed_size as nat,
                chunk_unpacked as nat,
                i as nat,
            ));
        }
        let chunk_src = slice_subrange(src, offset, offset + csize);
        match codec.decompress(chunk_src, expected) {
            Err(_) => {
                return Err(BundleError::CodecFailure);
            },
            Ok(mut piece) => {
                if piece.len() != expected {
                    return Err(BundleError::CodecFailure);
                }
                out.append(&mut piece);
            },
        }
        remaining = if remaining >= chunk_unpacked {
            remaining - chunk_unpacked
        } else {
            0
        };
        offset = offset + csize;
        i = i + 1;
        proof {
            assert(remaining == remaining_after(
                uncompressed_size as nat,
                chunk_unpacked as nat,
                i as nat,
            ));
            assert(offset == chunk_data_end(src@, i as int));
        }
    }
    proof {
        lemma_chunks_cover(
            uncompressed_size as nat,
            chunk_unpacked as nat,
            spec_chunk_count(src@),
        );
        assert(remaining == 0);
        assert(chunks_in_bounds(src@));
    }
    Ok(out)
}

/// One bundle of the index: the container file's stored name and its declared
/// decompressed size.
#[derive(Debug, Clone)]
pub struct Bundle {
    pub name: String,
    pub uncompressed_size: u32,
}

/// One file of the index: which bundle holds it, and where its bytes lie in
/// that bundle's decompressed content.
#[derive(Clone, Copy, Debug, PartialEq, Eq, Structural)]
pub struct File {
    pub bundle_index: u32,
    pub offset: u32,
    pub size: u32,
}

/// Directory-level size bookkeeping, keyed by path hash.
#[derive(Clone, Copy, Debug, PartialEq, Eq, Structural)]
pub struct PathRep {
    pub payload_offset: u32,
    pub payload_size: u32,
    pub payload_recursive_size: u32,
}

/// The decoded index: bundles under dense ids in table order, files and
/// path representations keyed by path hash, and the ordered list of logical
/// paths from the trailing path table. Built once, immutable thereafter.
pub struct Index {
    pub bundles: HashMap<u32, Bundle>,
    pub files: HashMap<u64, File>,
    pub path_reps: HashMap<u64, PathRep>,
    pub paths: Vec<String>,
}

/// The file map that a file-table entry sequence denotes: later entries with
/// the same hash win.
pub open spec fn files_map_of(fs: Seq<FileEntry>) -> Map<u64, File>
    decreases fs.len(),
{
    if fs.len() == 0 {
        Map::empty()
    } else {
        files_map_of(fs.drop_last()).insert(
            fs.last().0,
            File { bundle_index: fs.last().1, offset: fs.last().2, size: fs.last().3 },
        )
    }
}

/// Law: the file map holds a hash exactly when some file-table entry carries
/// it; an index built with no entry for a path's hash therefore reports a
/// miss for that path, never a stray entry.
pub proof fn lemma_files_map_domain(fs: Seq<FileEntry>, h: u64)
    ensures
        files_map_of(fs).contains_key(h) <==> exists|j: int| 0 <= j < fs.len() && fs[j].0 == h,
    decreases fs.len(),
{
    if fs.len() > 0 {
        lemma_files_map_domain(fs.drop_last(), h);
        if fs.last().0 == h {
            assert(fs[fs.len() - 1].0 == h);
        } else if files_map_of(fs).contains_key(h) {
            let j = choose|j: int| 0 <= j < fs.drop_last().len() && fs.drop_last()[j].0 == h;
            assert(fs[j].0 == h);
        } else if exists|j: int| 0 <= j < fs.len() && fs[j].0 == h {
            let j = choose|j: int| 0 <= j < fs.len() && fs[j].0 == h;
            assert(fs.drop_last()[j].0 == h);
        }
    }
}

/// The path-representation map that a table-entry sequence denotes.
pub open spec fn reps_map_of(rs: Seq<RepEntry>) -> Map<u64, PathRep>
    decreases rs.len(),
{
    if rs.len() == 0 {
        Map::empty()
    } else {
        reps_map_of(rs.drop_last()).insert(
            rs.last().0,
            PathRep {
                payload_offset: rs.last().1,
                payload_size: rs.last().2,
                payload_recursive_size: rs.last().3,
            },
        )
    }
}

/// Build an `Index` from an already-decompressed index blob: parse the three
/// tables, then unpack the trailing nested container with `codec` and decode
/// it as the path table. The table maps are pinned exactly to the parse of
/// `data`; the path list is the decode of whatever the codec produced, so its
/// exact contents are governed by the contracts of `unpack` and
/// `build_paths`.
pub fn build_index<C: Codec>(data: &[u8], codec: &C) -> (r: Result<Index, BundleError>)
    ensures
        spec_parse_index(data@) is Err ==> r == Err::<Index, BundleError>(
            spec_parse_index(data@)->Err_0,
        ),
        r is Ok ==> spec_parse_index(data@) is Ok && {
            let (bs, fs, rs, rest) = spec_parse_index(data@)->Ok_0;
            let ix = r->Ok_0;
            &&& forall|i: u32| ix.bundles@.contains_key(i) <==> (i as nat) < bs.len()
            &&& forall|i: u32|
                (i as nat) < bs.len() ==> (#[trigger] ix.bundles@[i]).name@ == bs[i as int].0
                    && ix.bundles@[i].uncompressed_size == bs[i as int].1
            &&& ix.files@ == files_map_of(fs)
            &&& ix.path_reps@ == reps_map_of(rs)
            &&& container_wf(data@.subrange(rest, data@.len() as int))
        },
{
    let (bundles, files, reps, rest_pos) = match parse_tables(data) {
        Result::Err(e) => {
            return Err(e);
        },
        Result::Ok(v) => v,
    };

    let mut bundle_map: HashMap<u32, Bundle> = HashMap::new();
    let mut k: usize = 0;
    while k < bundles.len()
        invariant
            k <= bundles@.len(),
            bundles@.len() <= u32::MAX,
            forall|i: u32| bundle_map@.contains_key(i) <==> (i as nat) < k,
            forall|i: u32|
                (i as nat) < k ==> (#[trigger] bundle_map@[i]).name@ == bundle_vec_view(bundles@)[
                    i as int].0 && bundle_map@[i].uncompressed_size == bundle_vec_view(bundles@)[
                    i as int].1,
        decreases bundles@.len() - k,
    {
        let name = (&bundles[k].0).clone();
        let uncompressed_size = bundles[k].1;
        bundle_map.insert(k as u32, Bundle { name, uncompressed_size });
        k = k + 1;
    }

    let mut file_map: HashMap<u64, File> = HashMap::new();
    let mut j: usize = 0;
    proof {
        assert(files@.subrange(0, 0) =~= Seq::<FileEntry>::empty());
    }
    while j < files.len()
        invariant
            j <= files@.len(),
            file_map@ == files_map_of(files@.subrange(0, j as int)),
        decreases files@.len() - j,
    {
        let (hash, bundle_index, offset, size) = files[j];
        file_map.insert(hash, File { bundle_index, offset, size });
        proof {
            assert(files@.subrange(0, j + 1 as int).drop_last() =~= files@.subrange(0, j as int));
        }
        j = j + 1;
    }
    proof {
        assert(files@.subrange(0, files@.len() as int) =~= files@);
    }

    let mut rep_map: HashMap<u64, PathRep> = HashMap::new();
    let mut m: usize = 0;
    proof {
        assert(reps@.subrange(0, 0) =~= Seq::<RepEntry>::empty());
    }
    while m < reps.len()
        invariant
            m <= reps@.len(),
            rep_map@ == reps_map_of(reps@.subrange(0, m as int)),
        decreases reps@.len() - m,
    {
        let (hash, payload_offset, payload_size, payload_recursive_size) = reps[m];
        rep_map.insert(hash, PathRep { payload_offset, payload_size, payload_recursive_size });
        proof {
            assert(reps@.subrange(0, m + 1 as int).drop_last() =~= reps@.subrange(0, m as int));
        }
        m = m + 1;
    }
    proof {
        assert(reps@.subrange(0, reps@.len() as int) =~= reps@);
    }

    let rest = slice_subrange(data, rest_pos, data.len());
    let blob = match unpack(rest, codec) {
        Result::Err(e) => {
            return Err(e);
        },
        Result::Ok(v) => v,
    };
    let paths = match build_paths(blob.as_slice()) {
        Result::Err(e) => {
            return Err(e);
        },
        Result::Ok(v) => v,
    };
    Ok(Index { bundles: bundle_map, files: file_map, path_reps: rep_map, paths })
}

/// Decode a raw index resource: unpack the outer container with `codec`,
/// then build the index from the decompressed blob.
pub fn read_index<C: Codec>(data: &[u8], codec: &C) -> (r: Result<Index, BundleError>)
    ensures
        !header_present(data@) ==> r == Err::<Index, BundleError>(BundleError::TruncatedHeader),
        header_present(data@) && !size_fits(data@) ==> r == Err::<Index, BundleError>(
            BundleError::SizeOverflow,
        ),
        header_present(data@) && size_fits(data@) && !header_consistent(data@) ==> r == Err::<
            Index,
            BundleError,
        >(BundleError::InconsistentHeader),
        header_present(data@) && size_fits(data@) && header_consistent(data@) && !table_in_bounds(
            data@,
        ) ==> r == Err::<Index, BundleError>(BundleError::TruncatedChunkTable),
        r is Ok ==> container_wf(data@),
{
    let blob = match unpack(data, codec) {
        Result::Err(e) => {
            return Err(e);
        },
        Result::Ok(v) => v,
    };
    build_index(blob.as_slice(), codec)
}

} // verus!

