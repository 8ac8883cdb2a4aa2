//! The path-string table: a flat byte stream of records, each a 4-byte
//! little-endian index followed (when the index is not zero) by a
//! NUL-terminated UTF-8 suffix. A zero index toggles between a generation
//! phase, which rebuilds a palette of reusable prefixes, and an output phase,
//! which emits full paths. A non-zero index that points into the palette
//! prepends the referenced entry to the suffix. Trailing bytes too short to
//! form another index field are ignored.
use vstd::prelude::*;

use vstd::slice::slice_index_get;
use vstd::slice::slice_subrange;
use vstd::slice::slice_to_vec;
use vstd::string::StringExecFns;

use crate::err::BundleError;
use crate::le::le_u32_at;
use crate::le::read_u32_le;

verus! {

/// What `String::from_utf8` decodes a byte sequence to: `Some` exactly on
/// valid UTF-8, and then a function of the bytes alone.
pub uninterp spec fn utf8_decode(b: Seq<u8>) -> Option<Seq<char>>;

/// Relies on String::from_utf8: succeeds exactly on valid UTF-8 input, and
/// the resulting characters depend on the bytes alone.
#[verifier::external_body]
pub(crate) fn string_from_utf8(b: Vec<u8>) -> (r: Option<String>)
    ensures
        r is Some <==> utf8_decode(b@) is Some,
        r is Some ==> r->0@ == utf8_decode(b@)->0,
{
    String::from_utf8(b).ok()
}

/// Offset of the first NUL byte at or after `pos`, if any.
pub open spec fn find_nul(b: Seq<u8>, pos: int) -> Option<int>
    decreases b.len() - pos,
{
    if pos < 0 || pos >= b.len() {
        None
    } else if b[pos] == 0 {
        Some(pos)
    } else {
        find_nul(b, pos + 1)
    }
}

/// `find_nul` returns the first NUL: its result is in range, is a NUL, and
/// nothing before it is; `None` means no NUL remains.
pub proof fn lemma_find_nul_found(b: Seq<u8>, from: int, j: int)
    requires
        0 <= from <= j < b.len(),
        b[j] == 0,
        forall|k: int| from <= k < j ==> b[k] != 0,
    ensures
        find_nul(b, from) == Some(j),
    decreases j - from,
{
    if from < j {
        lemma_find_nul_found(b, from + 1, j);
    }
}

/// When no NUL follows `from`, the search fails.
pub proof fn lemma_find_nul_missing(b: Seq<u8>, from: int)
    requires
        0 <= from,
        forall|k: int| from <= k < b.len() ==> b[k] != 0,
    ensures
        find_nul(b, from) is None,
    decreases b.len() - from,
{
    if from < b.len() {
        lemma_find_nul_missing(b, from + 1);
    }
}

/// The string a record yields: when the index points into the palette, the
/// referenced entry is prepended to the record's own text.
pub open spec fn record_text(table: Seq<Seq<char>>, index: nat, text: Seq<char>) -> Seq<char> {
    if 1 <= index && index <= table.len() {
        table[index - 1] + text
    } else {
        text
    }
}

/// The decoder as a state machine over the stream: `pos` is the cursor,
/// `phase` the generation flag, `table` the palette, `out` the emitted paths.
/// Entering the generation phase clears the palette.
pub open spec fn decode_from(
    b: Seq<u8>,
    pos: int,
    phase: bool,
    table: Seq<Seq<char>>,
    out: Seq<Seq<char>>,
) -> Result<Seq<Seq<char>>, BundleError>
    decreases b.len() - pos,
    when 0 <= pos
    via decode_from_dec
{
    if pos + 4 > b.len() {
        Ok(out)
    } else {
        let index = le_u32_at(b, pos);
        if index == 0 {
            let nphase = !phase;
            decode_from(
                b,
                pos + 4,
                nphase,
                if nphase {
                    Seq::empty()
                } else {
                    table
                },
                out,
            )
        } else {
            match find_nul(b, pos + 4) {
                None => Err(BundleError::MissingPathTerminator),
                Some(end) => match utf8_decode(b.subrange(pos + 4, end)) {
                    None => Err(BundleError::InvalidPathText),
                    Some(text) => {
                        let value = record_text(table, index, text);
                        if phase {
                            decode_from(b, end + 1, phase, table.push(value), out)
                        } else {
                            decode_from(b, end + 1, phase, table, out.push(value))
                        }
                    },
                },
            }
        }
    }
}

#[via_fn]
proof fn decode_from_dec(b: Seq<u8>, pos: int, phase: bool, table: Seq<Seq<char>>, out: Seq<
    Seq<char>,
>) {
    if pos + 4 <= b.len() && le_u32_at(b, pos) != 0 {
        if find_nul(b, pos + 4) is Some {
            lemma_find_nul_in_range(b, pos + 4);
        }
    }
}

/// A successful NUL search lands within the stream, at or after the start.
proof fn lemma_find_nul_in_range(b: Seq<u8>, from: int)
    requires
        find_nul(b, from) is Some,
    ensures
        from <= find_nul(b, from)->0 < b.len(),
    decreases b.len() - from,
{
    if !(from < 0 || from >= b.len()) && b[from] != 0 {
        lemma_find_nul_in_range(b, from + 1);
    }
}

/// The whole decode: from the start of the stream, outside the generation
/// phase, with an empty palette and no output yet.
pub open spec fn spec_decode_paths(b: Seq<u8>) -> Result<Seq<Seq<char>>, BundleError> {
    decode_from(b, 0, false, Seq::<Seq<char>>::empty(), Seq::<Seq<char>>::empty())
}

/// Read the NUL-terminated UTF-8 text starting at `pos`; on success also
/// return the cursor position just past the terminator.
pub fn read_utf8(bytes: &[u8], pos: usize) -> (r: Result<(String, usize), BundleError>)
    requires
        pos <= bytes@.len(),
    ensures
        match find_nul(bytes@, pos as int) {
            Option::None => r == Err::<(String, usize), BundleError>(
                BundleError::MissingPathTerminator,
            ),
            Option::Some(end) => match utf8_decode(bytes@.subrange(pos as int, end)) {
                Option::None => r == Err::<(String, usize), BundleError>(
                    BundleError::InvalidPathText,
                ),
                Option::Some(text) => r is Ok && r->Ok_0.0@ == text && r->Ok_0.1 == end + 1,
            },
        },
        r is Ok ==> pos < r->Ok_0.1 <= bytes@.len(),
{
    let n = bytes.len();
    let mut j = pos;
    while j < n && *slice_index_get(bytes, j) != 0
        invariant
            pos <= j <= n,
            n == bytes@.len(),
            forall|k: int| pos <= k < j ==> bytes@[k] != 0,
        decreases n - j,
    {
        j = j + 1;
    }
    if j == n {
        proof {
            lemma_find_nul_missing(bytes@, pos as int);
        }
        return Err(BundleError::MissingPathTerminator);
    }
    proof {
        lemma_find_nul_found(bytes@, pos as int, j as int);
    }
    let raw = slice_to_vec(slice_subrange(bytes, pos, j));
    match string_from_utf8(raw) {
        Option::None => Err(BundleError::InvalidPathText),
        Option::Some(text) => Ok((text, j + 1)),
    }
}

/// Decode a whole path-table stream into the ordered list of full paths.
pub fn build_paths(bytes: &[u8]) -> (r: Result<Vec<String>, BundleError>)
    ensures
        (r is Err) == (spec_decode_paths(bytes@) is Err),
        r is Err ==> r->Err_0 == spec_decode_paths(bytes@)->Err_0,
        r is Ok ==> r->Ok_0@.map_values(|s: String| s@) == spec_decode_paths(bytes@)->Ok_0,
{
    let n = bytes.len();
    let mut generation_phase = false;
    let mut table: Vec<String> = Vec::new();
    let mut files: Vec<String> = Vec::new();
    let mut pos: usize = 0;
    proof {
        assert(table@.map_values(|s: String| s@) =~= Seq::<Seq<char>>::empty());
        assert(files@.map_values(|s: String| s@) =~= Seq::<Seq<char>>::empty());
    }
    while n - pos >= 4
        invariant
            pos <= n,
            n == bytes@.len(),
            spec_decode_paths(bytes@) == decode_from(
                bytes@,
                pos as int,
                generation_phase,
                table@.map_values(|s: String| s@),
                files@.map_values(|s: String| s@),
            ),
        decreases n - pos,
    {
        let ghost pre_table = table@.map_values(|s: String| s@);
        let ghost pre_files = files@.map_values(|s: String| s@);
        let ghost pre_pos = pos as int;
        let ghost pre_phase = generation_phase;
        let index32 = read_u32_le(bytes, pos);
        if index32 == 0 {
            generation_phase = !generation_phase;
            if generation_phase {
                table.clear();
            }
            pos = pos + 4;
            proof {
                assert(table@.map_values(|s: String| s@) =~= if generation_phase {
                    Seq::<Seq<char>>::empty()
                } else {
                    pre_table
                });
            }
        } else {
            match read_utf8(bytes, pos + 4) {
                Err(e) => {
                    return Err(e);
                },
                Ok((text, next)) => {
                    let ghost end = next - 1;
                    let index = index32 as usize;
                    let value: String;
                    if 0 < index && index <= table.len() {
                        let mut prefixed = (&table[index - 1]).clone();
                        prefixed.append(text.as_str());
                        value = prefixed;
                    } else {
                        value = text;
                    }
                    proof {
                        assert(value@ == record_text(pre_table, index32 as nat, utf8_decode(
                            bytes@.subrange(pre_pos + 4, end),
                        )->0));
                    }
                    if generation_phase {
                        table.push(value);
                        proof {
                            assert(table@.map_values(|s: String| s@) =~= pre_table.push(value@));
                        }
                    } else {
                        files.push(value);
                        proof {
                            assert(files@.map_values(|s: String| s@) =~= pre_files.push(value@));
                        }
                    }
                    pos = next;
                },
            }
        }
    }
    proof {
        assert(decode_from(
            bytes@,
            pos as int,
            generation_phase,
            table@.map_values(|s: String| s@),
            files@.map_values(|s: String| s@),
        ) == Ok::<Seq<Seq<char>>, BundleError>(files@.map_values(|s: String| s@)));
    }
    Ok(files)
}

/// Law: an output or palette entry produced from a record whose index
/// resolves against the palette starts with the referenced palette entry
/// exactly.
pub proof fn lemma_record_prefix(table: Seq<Seq<char>>, index: nat, text: Seq<char>)
    requires
        1 <= index <= table.len(),
    ensures
        record_text(table, index, text).len() >= table[index - 1].len(),
        record_text(table, index, text).subrange(0, table[index - 1].len() as int) == table[index
            - 1],
{
    assert(record_text(table, index, text).subrange(0, table[index - 1].len() as int) =~= table[
        index - 1]);
}

/// Law: two consecutive zero-index records emit nothing and leave the phase
/// as it was; the decode continues exactly as if the pair were skipped with
/// the palette cleared. With an empty palette the pair is therefore a pure
/// no-op — palette, phase and output all unchanged; with a non-empty palette
/// the toggle that enters the generation phase clears it.
pub proof fn lemma_toggle_pair(
    b: Seq<u8>,
    pos: int,
    phase: bool,
    table: Seq<Seq<char>>,
    out: Seq<Seq<char>>,
)
    requires
        0 <= pos,
        le_u32_at(b, pos) == 0,
        le_u32_at(b, pos + 4) == 0,
    ensures
        decode_from(b, pos, phase, table, out) == decode_from(
            b,
            pos + 8,
            phase,
            Seq::<Seq<char>>::empty(),
            out,
        ),
{
    let empty = Seq::<Seq<char>>::empty();
    if pos + 4 > b.len() {
        assert(decode_from(b, pos, phase, table, out) == Ok::<Seq<Seq<char>>, BundleError>(out));
        assert(decode_from(b, pos + 8, phase, empty, out) == Ok::<Seq<Seq<char>>, BundleError>(
            out,
        ));
    } else {
        let mid = if !phase {
            empty
        } else {
            table
        };
        assert(decode_from(b, pos, phase, table, out) == decode_from(b, pos + 4, !phase, mid, out));
        if pos + 8 > b.len() {
            assert(decode_from(b, pos + 4, !phase, mid, out) == Ok::<Seq<Seq<char>>, BundleError>(
                out,
            ));
            assert(decode_from(b, pos + 8, phase, empty, out) == Ok::<
                Seq<Seq<char>>,
                BundleError,
            >(out));
        } else {
            assert(decode_from(b, pos + 4, !phase, mid, out) == decode_from(
                b,
                pos + 8,
                phase,
                empty,
                out,
            ));
        }
    }
}

} // verus!
