//! Per-target error taxonomy. Every failure while processing one target is
//! one of these; none of them aborts the batch.

use vstd::prelude::*;

verus! {

/// Why processing a single target failed.
#[derive(Debug, Clone)]
pub enum ScanError {
    /// The target path does not have the `<root>/<hash>-<name>` shape.
    PathParse,
    /// The metadata fetch came back with a status that is neither success
    /// nor the not-found code.
    MetadataStatus(u16),
    /// The metadata body is not valid UTF-8 text.
    MetadataNotText,
    /// The metadata text has no `URL` line.
    MetadataMissingUrl,
    /// The metadata text has no `Compression` line.
    MetadataMissingCompression,
    /// The metadata text has no `NarSize` line.
    MetadataMissingSize,
    /// The metadata text has a `NarSize` line whose value is not an
    /// unsigned decimal integer in range.
    MetadataInvalidSize,
    /// The descriptor names a compression algorithm the decoder does not
    /// support; the name is carried along.
    UnsupportedCompression(String),
    /// The compressed payload could not be decompressed.
    ArchiveDecompress,
    /// The decompressed payload is not a well-formed archive.
    ArchiveParse,
}

/// The operator-facing description of each error.
pub open spec fn spec_message(e: ScanError) -> Seq<char> {
    match e {
        ScanError::PathParse => "path does not look like <root>/<hash>-<name>"@,
        ScanError::MetadataStatus(_) => "metadata fetch failed with an unexpected status"@,
        ScanError::MetadataNotText => "metadata body is not valid UTF-8"@,
        ScanError::MetadataMissingUrl => "metadata has no URL field"@,
        ScanError::MetadataMissingCompression => "metadata has no Compression field"@,
        ScanError::MetadataMissingSize => "metadata has no NarSize field"@,
        ScanError::MetadataInvalidSize => "metadata NarSize is not a valid size"@,
        ScanError::UnsupportedCompression(c) => "unsupported compression method: "@ + c@,
        ScanError::ArchiveDecompress => "could not decompress the archive payload"@,
        ScanError::ArchiveParse => "payload is not a well-formed archive"@,
    }
}

impl ScanError {
    /// Render the error for reporting.
    pub fn message(&self) -> (r: String)
        ensures
            r@ == spec_message(*self),
    {
        match self {
            ScanError::PathParse => String::from_str("path does not look like <root>/<hash>-<name>"),
            ScanError::MetadataStatus(_) => String::from_str(
                "metadata fetch failed with an unexpected status",
            ),
            ScanError::MetadataNotText => String::from_str("metadata body is not valid UTF-8"),
            ScanError::MetadataMissingUrl => String::from_str("metadata has no URL field"),
            ScanError::MetadataMissingCompression => String::from_str(
                "metadata has no Compression field",
            ),
            ScanError::MetadataMissingSize => String::from_str("metadata has no NarSize field"),
            ScanError::MetadataInvalidSize => String::from_str(
                "metadata NarSize is not a valid size",
            ),
            ScanError::UnsupportedCompression(c) => String::from_str(
                "unsupported compression method: ",
            ).concat(c.as_str()),
            ScanError::ArchiveDecompress => String::from_str(
                "could not decompress the archive payload",
            ),
            ScanError::ArchiveParse => String::from_str("payload is not a well-formed archive"),
        }
    }
}

} // verus!
