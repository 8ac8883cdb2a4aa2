//! The resolver side of the format: a `BundleIndex` keeps the file table
//! denormalized — each entry carries its owning bundle's stored name and
//! declared decompressed size — so a lookup needs no second table access.
//! Locating bundle bytes on disk or in an archive is the caller's business;
//! this module owns the lookup, the conventional resource names, and the
//! bounds-checked slice out of a bundle's decompressed content.
use vstd::prelude::*;

use std::collections::HashMap;

use vstd::slice::slice_subrange;
use vstd::string::StringExecFns;

use crate::container::container_wf;
use crate::container::header_consistent;
use crate::container::header_present;
use crate::container::size_fits;
use crate::container::table_in_bounds;
use crate::err::BundleError;
use crate::tables::bundle_vec_view;
use crate::tables::lemma_parse_files_bounded;
use crate::tables::parse_bundles_from;
use crate::tables::parse_tables;
use crate::tables::spec_parse_index;
use crate::tables::BundleEntry;
use crate::tables::FileEntry;
use crate::unpack;
use crate::util::filepath_hash;
use crate::util::spec_filepath_hash;
use crate::Codec;

verus! {

broadcast use vstd::std_specs::hash::group_hash_axioms;

/// A file entry joined with its owning bundle: the bundle's stored name and
/// declared decompressed size, and the file's byte range within that content.
pub struct BundledFile {
    pub bundle_path: String,
    pub bundle_uncompressed_size: u32,
    pub offset: u32,
    pub size: u32,
}

impl View for BundledFile {
    type V = (Seq<char>, u32, u32, u32);

    open spec fn view(&self) -> (Seq<char>, u32, u32, u32) {
        (self.bundle_path@, self.bundle_uncompressed_size, self.offset, self.size)
    }
}

/// One bundle of the index: stored name and declared decompressed size.
#[derive(Debug, Clone)]
pub struct Bundle {
    pub name: String,
    pub uncompressed_size: u32,
}

/// The resolver's index: the denormalized file table keyed by path hash, and
/// the ordered list of logical paths.
pub struct BundleIndex {
    files: HashMap<u64, BundledFile>,
    pub paths: Vec<String>,
}

/// A file map as plain values: each entry's bundle name characters, bundle
/// size, offset and size.
pub open spec fn bundled_map_view(m: Map<u64, BundledFile>) -> Map<u64, (Seq<char>, u32, u32, u32)> {
    Map::new(|h: u64| m.contains_key(h), |h: u64| m[h]@)
}

/// The denormalized file map that parsed tables denote: each file entry's
/// bundle id is replaced by the referenced bundle's name and size; later
/// entries with the same hash win.
pub open spec fn denorm_files_map(bs: Seq<BundleEntry>, fs: Seq<FileEntry>) -> Map<
    u64,
    (Seq<char>, u32, u32, u32),
>
    decreases fs.len(),
{
    if fs.len() == 0 {
        Map::empty()
    } else {
        let e = fs.last();
        denorm_files_map(bs, fs.drop_last()).insert(
            e.0,
            (bs[e.1 as int].0, bs[e.1 as int].1, e.2, e.3),
        )
    }
}

/// Law: the denormalized file map holds a hash exactly when some file-table
/// entry carries it; a resolver built with no entry for a path's hash reports
/// a miss for that path.
pub proof fn lemma_denorm_files_map_domain(bs: Seq<BundleEntry>, fs: Seq<FileEntry>, h: u64)
    ensures
        denorm_files_map(bs, fs).contains_key(h) <==> exists|j: int|
            0 <= j < fs.len() && fs[j].0 == h,
    decreases fs.len(),
{
    if fs.len() > 0 {
        lemma_denorm_files_map_domain(bs, fs.drop_last(), h);
        if fs.last().0 == h {
            assert(fs[fs.len() - 1].0 == h);
        } else if denorm_files_map(bs, fs).contains_key(h) {
            let j = choose|j: int| 0 <= j < fs.drop_last().len() && fs.drop_last()[j].0 == h;
            assert(fs[j].0 == h);
        } else if exists|j: int| 0 <= j < fs.len() && fs[j].0 == h {
            let j = choose|j: int| 0 <= j < fs.len() && fs[j].0 == h;
            assert(fs.drop_last()[j].0 == h);
        }
    }
}

/// Look up a file entry by a path's hash.
pub trait BundleFileRead {
    fn get(&self, filepath: &str) -> Option<&BundledFile>;
}

/// What a resolver owes its callers: the declared size of a file without
/// decompressing anything, and the file's bytes written into a sink.
pub trait BundleReaderRead {
    fn size_of(&self, file: &str) -> Option<usize>;

    fn write_into(&self, file: &str, dst: &mut Vec<u8>) -> Result<usize, BundleError>;
}

impl BundleIndex {
    /// The file table as plain values, keyed by path hash.
    pub closed spec fn files_view(&self) -> Map<u64, (Seq<char>, u32, u32, u32)> {
        bundled_map_view(self.files@)
    }

    /// Resolve a logical path: hash it and look the hash up in the file
    /// table. `None` exactly when the table has no entry for the path's hash.
    pub fn lookup(&self, filepath: &str) -> (r: Option<&BundledFile>)
        ensures
            r is Some <==> self.files_view().contains_key(spec_filepath_hash(filepath@)),
            r is Some ==> r->0@ == self.files_view()[spec_filepath_hash(filepath@)],
    {
        let hash = filepath_hash(filepath.to_owned());
        self.files.get(&hash)
    }

    /// A file's declared size, from the index alone: pure metadata, nothing
    /// is decompressed. `None` exactly on a lookup miss.
    pub fn size_of(&self, file: &str) -> (r: Option<usize>)
        ensures
            r is Some <==> self.files_view().contains_key(spec_filepath_hash(file@)),
            r is Some ==> r->0 == self.files_view()[spec_filepath_hash(file@)].3,
    {
        match self.lookup(file) {
            Option::Some(f) => Option::Some(f.size as usize),
            Option::None => Option::None,
        }
    }

    /// Decode a raw index resource: unpack the outer container with `codec`,
    /// then build the denormalized index from the decompressed blob.
    pub fn read_index<C: Codec>(data: &[u8], codec: &C) -> (r: Result<BundleIndex, BundleError>)
        ensures
            !header_present(data@) ==> r == Err::<BundleIndex, BundleError>(
                BundleError::TruncatedHeader,
            ),
            header_present(data@) && !size_fits(data@) ==> r == Err::<BundleIndex, BundleError>(
                BundleError::SizeOverflow,
            ),
            header_present(data@) && size_fits(data@) && !header_consistent(data@) ==> r == Err::<
                BundleIndex,
                BundleError,
            >(BundleError::InconsistentHeader),
            header_present(data@) && size_fits(data@) && header_consistent(data@)
                && !table_in_bounds(data@) ==> r == Err::<BundleIndex, BundleError>(
                BundleError::TruncatedChunkTable,
            ),
            r is Ok ==> container_wf(data@),
    {
        let blob = match unpack(data, codec) {
            Result::Err(e) => {
                return Err(e);
            },
            Result::Ok(v) => v,
        };
        Self::build_index(blob.as_slice(), codec)
    }

    /// Build the denormalized index from an already-decompressed index blob:
    /// parse the tables, join each file entry with its bundle, skip the
    /// path-representation data, then unpack the trailing nested container
    /// with `codec` and decode it as the path table. The file map is pinned
    /// exactly to the parse of `data`; the path list is the decode of
    /// whatever the codec produced, governed by the contracts of `unpack`
    /// and `build_paths`.
    pub fn build_index<C: Codec>(data: &[u8], codec: &C) -> (r: Result<BundleIndex, BundleError>)
        ensures
            spec_parse_index(data@) is Err ==> r == Err::<BundleIndex, BundleError>(
                spec_parse_index(data@)->Err_0,
            ),
            r is Ok ==> spec_parse_index(data@) is Ok && {
                let (bs, fs, rs, rest) = spec_parse_index(data@)->Ok_0;
                &&& r->Ok_0.files_view() == denorm_files_map(bs, fs)
                &&& container_wf(data@.subrange(rest, data@.len() as int))
            },
    {
        let (bundles, files, _reps, rest_pos) = match parse_tables(data) {
            Result::Err(e) => {
                return Err(e);
            },
            Result::Ok(v) => v,
        };
        let ghost bs = spec_parse_index(data@)->Ok_0.0;
        let ghost fs = spec_parse_index(data@)->Ok_0.1;
        proof {
            let bc = crate::le::le_u32_at(data@, 0);
            let p1 = parse_bundles_from(data@, 4, bc, Seq::empty())->Ok_0.1;
            let fc = crate::le::le_u32_at(data@, p1);
            lemma_parse_files_bounded(data@, p1 + 4, fc, bs.len(), Seq::empty());
        }

        let mut file_map: HashMap<u64, BundledFile> = HashMap::new();
        let mut j: usize = 0;
        proof {
            assert(fs.subrange(0, 0) =~= Seq::<FileEntry>::empty());
            assert(bundled_map_view(file_map@) =~~= denorm_files_map(bs, fs.subrange(0, 0)));
        }
        while j < files.len()
            invariant
                j <= files@.len(),
                files@ == fs,
                bundle_vec_view(bundles@) == bs,
                forall|t: int| 0 <= t < fs.len() ==> (#[trigger] fs[t]).1 < bs.len(),
                bundles@.len() == bs.len(),
                bundled_map_view(file_map@) == denorm_files_map(bs, fs.subrange(0, j as int)),
            decreases files@.len() - j,
        {
            let ghost pre = bundled_map_view(file_map@);
            let (hash, bundle_index, offset, size) = files[j];
            let bundle_name = (&bundles[bundle_index as usize].0).clone();
            let bundle_size = bundles[bundle_index as usize].1;
            let entry = BundledFile {
                bundle_path: bundle_name,
                bundle_uncompressed_size: bundle_size,
                offset,
                size,
            };
            let ghost entry_view = entry@;
            file_map.insert(hash, entry);
            proof {
                assert(bundled_map_view(file_map@) =~~= pre.insert(hash, entry_view));
                assert(fs.subrange(0, j + 1 as int).drop_last() =~= fs.subrange(0, j as int));
                assert(fs.subrange(0, j + 1 as int).last() == fs[j as int]);
            }
            j = j + 1;
        }
        proof {
            assert(fs.subrange(0, fs.len() as int) =~= fs);
        }

        let rest = slice_subrange(data, rest_pos, data.len());
        let blob = match unpack(rest, codec) {
            Result::Err(e) => {
                return Err(e);
            },
            Result::Ok(v) => v,
        };
        let paths = match crate::paths::build_paths(blob.as_slice()) {
            Result::Err(e) => {
                return Err(e);
            },
            Result::Ok(v) => v,
        };
        Ok(BundleIndex { files: file_map, paths })
    }
}

impl BundleFileRead for BundleIndex {
    fn get(&self, filepath: &str) -> Option<&BundledFile> {
        self.lookup(filepath)
    }
}

/// The byte range an index entry assigns to a file, sliced out of its
/// bundle's decompressed content; fails — rather than reading out of bounds —
/// when the index and the content disagree.
pub fn file_slice<'a>(unpacked: &'a [u8], entry: &BundledFile) -> (r: Result<&'a [u8], BundleError>)
    ensures
        r is Ok <==> entry.offset + entry.size <= unpacked@.len(),
        r is Ok ==> r->Ok_0@ == unpacked@.subrange(
            entry.offset as int,
            entry.offset + entry.size,
        ),
        r is Err ==> r == Err::<&'a [u8], BundleError>(BundleError::SliceOutOfBounds),
{
    let n = unpacked.len();
    let end64 = entry.offset as u64 + entry.size as u64;
    if end64 > n as u64 {
        return Err(BundleError::SliceOutOfBounds);
    }
    let end = end64 as usize;
    Ok(slice_subrange(unpacked, entry.offset as usize, end))
}

/// The conventional resource name of a bundle: the stored bundle name between
/// the bundle directory prefix and the container suffix.
pub fn bundle_resource_path(name: &str) -> (r: String)
    ensures
        r@ == "Bundles2/"@ + name@ + ".bundle.bin"@,
{
    let mut s = "Bundles2/".to_owned();
    s.append(name);
    s.append(".bundle.bin");
    s
}

/// The conventional resource name of the index itself.
pub fn index_resource_path() -> (r: String)
    ensures
        r@ == "Bundles2/_.index.bin"@,
{
    "Bundles2/_.index.bin".to_owned()
}

} // verus!
