//! The three fixed-layout tables at the front of a decompressed index blob:
//! the bundle table (length-prefixed UTF-8 name and an uncompressed size per
//! entry), the file table (path hash, bundle id, offset, size per entry) and
//! the path-representation table (path hash and three payload fields per
//! entry). Each table is preceded by its u32 entry count. Every file entry's
//! bundle id must resolve against the bundle table; an unresolved reference
//! is a fatal parse error.
use vstd::prelude::*;

use vstd::slice::slice_subrange;
use vstd::slice::slice_to_vec;

use crate::err::BundleError;
use crate::le::le_u32_at;
use crate::le::le_u64_at;
use crate::le::read_u32_le;
use crate::le::read_u64_le;
use crate::paths::string_from_utf8;
use crate::paths::utf8_decode;

verus! {

/// A parsed bundle-table entry: name characters and uncompressed size.
pub type BundleEntry = (Seq<char>, u32);

/// A parsed file-table entry: path hash, bundle id, offset, size.
pub type FileEntry = (u64, u32, u32, u32);

/// A parsed path-representation entry: path hash, payload offset, payload
/// size, recursive payload size.
pub type RepEntry = (u64, u32, u32, u32);

/// Parse `n` more bundle-table entries starting at `pos`, onto `acc`.
pub open spec fn parse_bundles_from(b: Seq<u8>, pos: int, n: nat, acc: Seq<BundleEntry>) -> Result<
    (Seq<BundleEntry>, int),
    BundleError,
>
    decreases n,
{
    if n == 0 {
        Ok((acc, pos))
    } else if pos + 4 > b.len() {
        Err(BundleError::TruncatedBundleTable)
    } else {
        let name_len = le_u32_at(b, pos);
        if pos + 8 + name_len > b.len() {
            Err(BundleError::TruncatedBundleTable)
        } else {
            match utf8_decode(b.subrange(pos + 4, pos + 4 + name_len)) {
                Option::None => Err(BundleError::InvalidBundleName),
                Option::Some(name) => {
                    let size = le_u32_at(b, pos + 4 + name_len) as u32;
                    parse_bundles_from(b, pos + 8 + name_len, (n - 1) as nat, acc.push((name, size)))
                },
            }
        }
    }
}

/// Parse `n` more file-table entries starting at `pos`, onto `acc`; each
/// entry's bundle id must be below `nbundles`.
pub open spec fn parse_files_from(
    b: Seq<u8>,
    pos: int,
    n: nat,
    nbundles: nat,
    acc: Seq<FileEntry>,
) -> Result<(Seq<FileEntry>, int), BundleError>
    decreases n,
{
    if n == 0 {
        Ok((acc, pos))
    } else if pos + 20 > b.len() {
        Err(BundleError::TruncatedFileTable)
    } else {
        let hash = le_u64_at(b, pos) as u64;
        let bundle_index = le_u32_at(b, pos + 8);
        if bundle_index >= nbundles {
            Err(BundleError::UnresolvedBundleRef)
        } else {
            let offset = le_u32_at(b, pos + 12) as u32;
            let size = le_u32_at(b, pos + 16) as u32;
            parse_files_from(
                b,
                pos + 20,
                (n - 1) as nat,
                nbundles,
                acc.push((hash, bundle_index as u32, offset, size)),
            )
        }
    }
}

/// Parse `n` more path-representation entries starting at `pos`, onto `acc`.
pub open spec fn parse_reps_from(b: Seq<u8>, pos: int, n: nat, acc: Seq<RepEntry>) -> Result<
    (Seq<RepEntry>, int),
    BundleError,
>
    decreases n,
{
    if n == 0 {
        Ok((acc, pos))
    } else if pos + 20 > b.len() {
        Err(BundleError::TruncatedPathRepTable)
    } else {
        let hash = le_u64_at(b, pos) as u64;
        let payload_offset = le_u32_at(b, pos + 8) as u32;
        let payload_size = le_u32_at(b, pos + 12) as u32;
        let payload_recursive_size = le_u32_at(b, pos + 16) as u32;
        parse_reps_from(
            b,
            pos + 20,
            (n - 1) as nat,
            acc.push((hash, payload_offset, payload_size, payload_recursive_size)),
        )
    }
}

/// Every entry a successful file-table parse yields carries a bundle id that
/// resolved against the bundle table.
pub proof fn lemma_parse_files_bounded(
    b: Seq<u8>,
    pos: int,
    n: nat,
    nbundles: nat,
    acc: Seq<FileEntry>,
)
    requires
        parse_files_from(b, pos, n, nbundles, acc) is Ok,
        forall|j: int| 0 <= j < acc.len() ==> (#[trigger] acc[j]).1 < nbundles,
    ensures
        forall|j: int|
            0 <= j < parse_files_from(b, pos, n, nbundles, acc)->Ok_0.0.len() ==> (
            #[trigger] parse_files_from(b, pos, n, nbundles, acc)->Ok_0.0[j]).1 < nbundles,
    decreases n,
{
    if n != 0 && pos + 20 <= b.len() {
        let bundle_index = le_u32_at(b, pos + 8);
        if bundle_index < nbundles {
            let hash = le_u64_at(b, pos) as u64;
            let offset = le_u32_at(b, pos + 12) as u32;
            let size = le_u32_at(b, pos + 16) as u32;
            let acc2 = acc.push((hash, bundle_index as u32, offset, size));
            assert(forall|j: int| 0 <= j < acc2.len() ==> (#[trigger] acc2[j]).1 < nbundles);
            lemma_parse_files_bounded(b, pos + 20, (n - 1) as nat, nbundles, acc2);
        }
    }
}

/// Parse the whole table region of a decompressed index blob: bundle table,
/// file table, path-representation table, each behind its u32 entry count.
/// On success also yields the offset where the trailing nested container
/// begins.
pub open spec fn spec_parse_index(b: Seq<u8>) -> Result<
    (Seq<BundleEntry>, Seq<FileEntry>, Seq<RepEntry>, int),
    BundleError,
> {
    if b.len() < 4 {
        Err(BundleError::TruncatedBundleTable)
    } else {
        match parse_bundles_from(b, 4, le_u32_at(b, 0), Seq::empty()) {
            Err(e) => Err(e),
            Ok((bundles, p1)) => {
                if p1 + 4 > b.len() {
                    Err(BundleError::TruncatedFileTable)
                } else {
                    match parse_files_from(
                        b,
                        p1 + 4,
                        le_u32_at(b, p1),
                        bundles.len(),
                        Seq::empty(),
                    ) {
                        Err(e) => Err(e),
                        Ok((files, p2)) => {
                            if p2 + 4 > b.len() {
                                Err(BundleError::TruncatedPathRepTable)
                            } else {
                                match parse_reps_from(b, p2 + 4, le_u32_at(b, p2), Seq::empty()) {
                                    Err(e) => Err(e),
                                    Ok((reps, p3)) => Ok((bundles, files, reps, p3)),
                                }
                            }
                        },
                    }
                }
            },
        }
    }
}

/// View of a parsed bundle vector as its entry sequence.
pub open spec fn bundle_vec_view(v: Seq<(String, u32)>) -> Seq<BundleEntry> {
    v.map_values(|p: (String, u32)| (p.0@, p.1))
}

/// Read `count` bundle-table entries starting at `pos`.
pub fn parse_bundle_table(b: &[u8], pos: usize, count: u32) -> (r: Result<
    (Vec<(String, u32)>, usize),
    BundleError,
>)
    requires
        pos <= b@.len(),
    ensures
        match parse_bundles_from(b@, pos as int, count as nat, Seq::empty()) {
            Result::Err(e) => r == Err::<(Vec<(String, u32)>, usize), BundleError>(e),
            Result::Ok((s, end)) => r is Ok && bundle_vec_view(r->Ok_0.0@) == s && r->Ok_0.1 == end
                && pos <= end <= b@.len(),
        },
        r is Ok ==> r->Ok_0.0@.len() == count,
{
    let n = b.len();
    let mut acc: Vec<(String, u32)> = Vec::new();
    let mut p = pos;
    let mut k: u32 = 0;
    proof {
        assert(bundle_vec_view(acc@) =~= Seq::<BundleEntry>::empty());
    }
    while k < count
        invariant
            k <= count,
            pos <= p <= n,
            n == b@.len(),
            acc@.len() == k,
            parse_bundles_from(b@, pos as int, count as nat, Seq::empty()) == parse_bundles_from(
                b@,
                p as int,
                (count - k) as nat,
                bundle_vec_view(acc@),
            ),
        decreases count - k,
    {
        let ghost pre_acc = bundle_vec_view(acc@);
        if n - p < 4 {
            return Err(BundleError::TruncatedBundleTable);
        }
        let name_len = read_u32_le(b, p);
        if (name_len as u64) + 8 > (n - p) as u64 {
            return Err(BundleError::TruncatedBundleTable);
        }
        let name_end = p + 4 + name_len as usize;
        let raw = slice_to_vec(slice_subrange(b, p + 4, name_end));
        match string_from_utf8(raw) {
            Option::None => {
                return Err(BundleError::InvalidBundleName);
            },
            Option::Some(name) => {
                let size = read_u32_le(b, name_end);
                acc.push((name, size));
                proof {
                    assert(bundle_vec_view(acc@) =~= pre_acc.push((name@, size)));
                }
                p = name_end + 4;
                k = k + 1;
            },
        }
    }
    Ok((acc, p))
}

/// Read `count` file-table entries starting at `pos`, resolving each bundle
/// id against a table of `bundle_count` bundles.
pub fn parse_file_table(b: &[u8], pos: usize, count: u32, bundle_count: usize) -> (r: Result<
    (Vec<(u64, u32, u32, u32)>, usize),
    BundleError,
>)
    requires
        pos <= b@.len(),
    ensures
        match parse_files_from(b@, pos as int, count as nat, bundle_count as nat, Seq::empty()) {
            Result::Err(e) => r == Err::<(Vec<(u64, u32, u32, u32)>, usize), BundleError>(e),
            Result::Ok((s, end)) => r is Ok && r->Ok_0.0@ == s && r->Ok_0.1 == end && pos <= end
                <= b@.len(),
        },
{
    let n = b.len();
    let mut acc: Vec<(u64, u32, u32, u32)> = Vec::new();
    let mut p = pos;
    let mut k: u32 = 0;
    proof {
        assert(acc@ =~= Seq::<FileEntry>::empty());
    }
    while k < count
        invariant
            k <= count,
            pos <= p <= n,
            n == b@.len(),
            parse_files_from(b@, pos as int, count as nat, bundle_count as nat, Seq::empty())
                == parse_files_from(b@, p as int, (count - k) as nat, bundle_count as nat, acc@),
        decreases count - k,
    {
        if n - p < 20 {
            return Err(BundleError::TruncatedFileTable);
        }
        let hash = read_u64_le(b, p);
        let bundle_index = read_u32_le(b, p + 8);
        if bundle_index as usize >= bundle_count {
            return Err(BundleError::UnresolvedBundleRef);
        }
        let offset = read_u32_le(b, p + 12);
        let size = read_u32_le(b, p + 16);
        acc.push((hash, bundle_index, offset, size));
        p = p + 20;
        k = k + 1;
    }
    Ok((acc, p))
}

/// Read `count` path-representation entries starting at `pos`.
pub fn parse_rep_table(b: &[u8], pos: usize, count: u32) -> (r: Result<
    (Vec<(u64, u32, u32, u32)>, usize),
    BundleError,
>)
    requires
        pos <= b@.len(),
    ensures
        match parse_reps_from(b@, pos as int, count as nat, Seq::empty()) {
            Result::Err(e) => r == Err::<(Vec<(u64, u32, u32, u32)>, usize), BundleError>(e),
            Result::Ok((s, end)) => r is Ok && r->Ok_0.0@ == s && r->Ok_0.1 == end && pos <= end
                <= b@.len(),
        },
{
    let n = b.len();
    let mut acc: Vec<(u64, u32, u32, u32)> = Vec::new();
    let mut p = pos;
    let mut k: u32 = 0;
    proof {
        assert(acc@ =~= Seq::<RepEntry>::empty());
    }
    while k < count
        invariant
            k <= count,
            pos <= p <= n,
            n == b@.len(),
            parse_reps_from(b@, pos as int, count as nat, Seq::empty()) == parse_reps_from(
                b@,
                p as int,
                (count - k) as nat,
                acc@,
            ),
        decreases count - k,
    {
        if n - p < 20 {
            return Err(BundleError::TruncatedPathRepTable);
        }
        let hash = read_u64_le(b, p);
        let payload_offset = read_u32_le(b, p + 8);
        let payload_size = read_u32_le(b, p + 12);
        let payload_recursive_size = read_u32_le(b, p + 16);
        acc.push((hash, payload_offset, payload_size, payload_recursive_size));
        p = p + 20;
        k = k + 1;
    }
    Ok((acc, p))
}

/// Parse the three tables of a decompressed index blob; on success the
/// returned offset is where the trailing nested container begins.
pub fn parse_tables(b: &[u8]) -> (r: Result<
    (Vec<(String, u32)>, Vec<(u64, u32, u32, u32)>, Vec<(u64, u32, u32, u32)>, usize),
    BundleError,
>)
    ensures
        match spec_parse_index(b@) {
            Result::Err(e) => r == Err::<
                (Vec<(String, u32)>, Vec<(u64, u32, u32, u32)>, Vec<(u64, u32, u32, u32)>, usize),
                BundleError,
            >(e),
            Result::Ok((bs, fs, rs, rest)) => r is Ok && bundle_vec_view(r->Ok_0.0@) == bs
                && r->Ok_0.1@ == fs && r->Ok_0.2@ == rs && r->Ok_0.3 == rest && 0 <= rest
                <= b@.len(),
        },
        r is Ok ==> r->Ok_0.0@.len() <= u32::MAX,
{
    let n = b.len();
    if n < 4 {
        return Err(BundleError::TruncatedBundleTable);
    }
    let bundle_count = read_u32_le(b, 0);
    let (bundles, p1) = match parse_bundle_table(b, 4, bundle_count) {
        Result::Err(e) => {
            return Err(e);
        },
        Result::Ok(v) => v,
    };
    if n - p1 < 4 {
        return Err(BundleError::TruncatedFileTable);
    }
    let file_count = read_u32_le(b, p1);
    let (files, p2) = match parse_file_table(b, p1 + 4, file_count, bundles.len()) {
        Result::Err(e) => {
            return Err(e);
        },
        Result::Ok(v) => v,
    };
    if n - p2 < 4 {
        return Err(BundleError::TruncatedPathRepTable);
    }
    let rep_count = read_u32_le(b, p2);
    let (reps, p3) = match parse_rep_table(b, p2 + 4, rep_count) {
        Result::Err(e) => {
            return Err(e);
        },
        Result::Ok(v) => v,
    };
    Ok((bundles, files, reps, p3))
}

} // verus!
