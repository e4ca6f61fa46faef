use vstd::prelude::*;

verus! {

/// Every way in which decoding can fail.
#[derive(Debug, Clone, Copy, PartialEq, Eq, Structural)]
pub enum ZimError {
    /// Fewer bytes were available than a fixed- or variable-length read needed.
    ShortRead,
    /// The first four header bytes do not hold the archive magic number.
    InvalidMagicNumber,
    /// The low nibble of a cluster tag is outside 1 to 5; it carries that nibble.
    InvalidCompressionTag(u8),
    /// A cluster's self-described offset count exceeds the allocation cap; it carries that count.
    TooManyBlobs(u64),
    /// The end of the MIME-type region does not lie after its start.
    InvalidMimeListBounds,
    /// A MIME-type entry runs to the end of its region without a terminating null.
    MimeListNotTerminated,
    /// A MIME type, URL or title is not valid UTF-8.
    InvalidUtf8,
}

/// The text that describes each error.
pub open spec fn message_text(e: ZimError) -> Seq<char> {
    match e {
        ZimError::ShortRead => "failed to fill whole buffer"@,
        ZimError::InvalidMagicNumber => "Invalid magic number"@,
        ZimError::InvalidCompressionTag(_) => "Invalid compression type"@,
        ZimError::TooManyBlobs(_) => "Too many blobs in cluster"@,
        ZimError::InvalidMimeListBounds => "Invalid mime list position"@,
        ZimError::MimeListNotTerminated => "Mime list not null terminated"@,
        ZimError::InvalidUtf8 => "Invalid UTF-8"@,
    }
}

impl ZimError {
    /// A human-readable description of the error.
    pub fn message(&self) -> (r: String)
        ensures
            r@ == message_text(*self),
    {
        match self {
            ZimError::ShortRead => "failed to fill whole buffer".to_owned(),
            ZimError::InvalidMagicNumber => "Invalid magic number".to_owned(),
            ZimError::InvalidCompressionTag(_) => "Invalid compression type".to_owned(),
            ZimError::TooManyBlobs(_) => "Too many blobs in cluster".to_owned(),
            ZimError::InvalidMimeListBounds => "Invalid mime list position".to_owned(),
            ZimError::MimeListNotTerminated => "Mime list not null terminated".to_owned(),
            ZimError::InvalidUtf8 => "Invalid UTF-8".to_owned(),
        }
    }
}

} // verus!
