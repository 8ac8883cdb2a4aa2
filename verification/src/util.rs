//! Path hashing: 64-bit FNV-1a over the lowercased, salted UTF-8 bytes of a
//! logical file path. The normalization (case folding plus a fixed two-byte
//! salt) must match the side of the format that produced the file table keys.
use vstd::prelude::*;

verus! {

pub const FNV_PRIME: u64 = 1099511628211;

pub const FNV_OFFSET_BASIS: u64 = 14695981039346656037;

/// The byte that the salt consists of, twice: b'+'.
pub const SALT_BYTE: u8 = 43;

/// One FNV-1a round: fold one byte into the running hash.
pub open spec fn fnv1a_step(h: u64, b: u8) -> u64 {
    (h ^ (b as u64)).wrapping_mul(FNV_PRIME)
}

/// FNV-1a over `s`, starting from the running hash `h`.
pub open spec fn spec_fnv1a_from(h: u64, s: Seq<u8>) -> u64
    decreases s.len(),
{
    if s.len() == 0 {
        h
    } else {
        spec_fnv1a_from(fnv1a_step(h, s[0]), s.drop_first())
    }
}

/// 64-bit FNV-1a of a byte sequence, from the standard offset basis.
pub open spec fn spec_fnv1a(s: Seq<u8>) -> u64 {
    spec_fnv1a_from(FNV_OFFSET_BASIS, s)
}

/// The UTF-8 bytes of the lowercase form of a string; what `str::to_lowercase`
/// returns depends on the characters alone, so the result bears a name that
/// contracts can share.
pub uninterp spec fn lower_bytes_of(s: Seq<char>) -> Seq<u8>;

/// Relies on str::to_lowercase: the lowercase equivalent of the string, a
/// function of its characters alone; the result is converted to its UTF-8
/// bytes.
#[verifier::external_body]
fn lowercase_bytes(s: &str) -> (r: Vec<u8>)
    ensures
        r@ == lower_bytes_of(s@),
{
    s.to_lowercase().into_bytes()
}

/// The key under which a logical path is looked up in the file table:
/// FNV-1a of the lowercased path followed by the two salt bytes.
pub open spec fn spec_filepath_hash(path: Seq<char>) -> u64 {
    spec_fnv1a(lower_bytes_of(path).push(SALT_BYTE).push(SALT_BYTE))
}

proof fn lemma_fnv1a_from_append_byte(h: u64, s: Seq<u8>, b: u8)
    ensures
        spec_fnv1a_from(h, s.push(b)) == fnv1a_step(spec_fnv1a_from(h, s), b),
    decreases s.len(),
{
    if s.len() == 0 {
        assert(s.push(b).drop_first() =~= Seq::<u8>::empty());
        assert(s.push(b)[0] == b);
        assert(spec_fnv1a_from(h, s.push(b)) == spec_fnv1a_from(fnv1a_step(h, b), Seq::<
            u8,
        >::empty()));
    } else {
        assert(s.push(b)[0] == s[0]);
        assert(s.push(b).drop_first() =~= s.drop_first().push(b));
        lemma_fnv1a_from_append_byte(fnv1a_step(h, s[0]), s.drop_first(), b);
        assert(spec_fnv1a_from(h, s.push(b)) == spec_fnv1a_from(
            fnv1a_step(h, s[0]),
            s.drop_first().push(b),
        ));
        assert(spec_fnv1a_from(h, s) == spec_fnv1a_from(fnv1a_step(h, s[0]), s.drop_first()));
    }
}

/// 64-bit FNV-1a hash of `data`.
pub fn hash_fnv1a(data: &[u8]) -> (r: u64)
    ensures
        r == spec_fnv1a(data@),
{
    let mut hash: u64 = FNV_OFFSET_BASIS;
    let mut i: usize = 0;
    while i < data.len()
        invariant
            i <= data@.len(),
            hash == spec_fnv1a_from(FNV_OFFSET_BASIS, data@.subrange(0, i as int)),
        decreases data@.len() - i,
    {
        let b = data[i];
        proof {
            lemma_fnv1a_from_append_byte(FNV_OFFSET_BASIS, data@.subrange(0, i as int), b);
            assert(data@.subrange(0, i as int).push(b) =~= data@.subrange(0, i + 1 as int));
        }
        hash = (hash ^ (b as u64)).wrapping_mul(FNV_PRIME);
        i = i + 1;
    }
    proof {
        assert(data@.subrange(0, data@.len() as int) =~= data@);
    }
    hash
}

/// Table key of a logical path: lowercase it, append the salt, hash.
pub fn filepath_hash(data: String) -> (r: u64)
    ensures
        r == spec_filepath_hash(data@),
{
    let mut salted = lowercase_bytes(data.as_str());
    salted.push(SALT_BYTE);
    salted.push(SALT_BYTE);
    hash_fnv1a(salted.as_slice())
}

/// Law: the path hash is a pure function of the path's characters; two
/// queries for the same path always yield the same key.
pub proof fn lemma_filepath_hash_deterministic(a: Seq<char>, b: Seq<char>)
    requires
        a == b,
    ensures
        spec_filepath_hash(a) == spec_filepath_hash(b),
{
}

} // verus!
