use vstd::prelude::*;

verus! {

/// The failure modes of format detection and of the codec adapters.
#[derive(Copy, Clone, PartialEq, Eq, Debug, Structural)]
pub enum PackError {
    /// Format sniffing found no matching signature.
    UnsupportedFormat,
    /// An archive entry's path would escape the destination root.
    PathTraversalRejected,
    /// The codec refused to append or encode an entry.
    IoFailure,
    /// The underlying container codec cannot parse the structure.
    MalformedArchive,
}

impl PackError {
    /// A short human-readable name for the error, for callers that print it.
    pub fn message(&self) -> (r: &'static str)
        ensures
            r@ == spec_error_message(*self),
    {
        match self {
            PackError::UnsupportedFormat => "unsupported format",
            PackError::PathTraversalRejected => "path traversal rejected",
            PackError::IoFailure => "io failure",
            PackError::MalformedArchive => "malformed archive",
        }
    }
}

/// What `PackError::message` returns for each variant.
pub open spec fn spec_error_message(e: PackError) -> Seq<char> {
    match e {
        PackError::UnsupportedFormat => "unsupported format"@,
        PackError::PathTraversalRejected => "path traversal rejected"@,
        PackError::IoFailure => "io failure"@,
        PackError::MalformedArchive => "malformed archive"@,
    }
}

} // verus!
