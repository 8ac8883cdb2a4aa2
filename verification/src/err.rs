//! Error taxonomy of the decoder. Each parse-time variant names the table or
//! field whose decoding failed; a lookup miss is reported as `Option::None`
//! by the query functions, never through this type.
use vstd::prelude::*;

verus! {

#[derive(Clone, Copy, Debug, PartialEq, Eq, Structural)]
pub enum BundleError {
    /// The stream ends before the fixed container header is complete.
    TruncatedHeader,
    /// The chunk-size table would read past the end of the container.
    TruncatedChunkTable,
    /// The header's chunk count and nominal chunk size cannot cover the
    /// declared uncompressed size.
    InconsistentHeader,
    /// The declared uncompressed size does not fit in this machine's memory
    /// limits.
    SizeOverflow,
    /// A chunk's compressed bytes would be sliced past the end of the
    /// container.
    ChunkOutOfBounds,
    /// The codec reported a failure, or handed back a chunk of the wrong
    /// length, while decompressing a chunk.
    CodecFailure,
    /// The stream ends inside the bundle table.
    TruncatedBundleTable,
    /// A bundle name is not valid UTF-8.
    InvalidBundleName,
    /// The stream ends inside the file table.
    TruncatedFileTable,
    /// A file entry references a bundle id outside the bundle table.
    UnresolvedBundleRef,
    /// The stream ends inside the path-representation table.
    TruncatedPathRepTable,
    /// A path record has no NUL terminator before the stream ends.
    MissingPathTerminator,
    /// A path record's text is not valid UTF-8.
    InvalidPathText,
    /// A resolved offset/size range exceeds the decompressed bundle content.
    SliceOutOfBounds,
    /// The requested logical path has no entry in the file table.
    NotFound,
}

} // verus!
