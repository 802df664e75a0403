use vstd::prelude::*;

verus! {

/// The broad category of an [`IoError`], mirroring the kinds that a byte
/// stream reports.
#[derive(Debug, Clone, Copy, PartialEq, Eq, Structural)]
pub enum ErrorKind {
    /// The stream ended before the requested data could be read.
    UnexpectedEof,
    /// A seek was asked to move before the start of the stream or past the
    /// largest representable position.
    InvalidInput,
    /// The bytes that were read do not form a valid record.
    InvalidData,
}

/// An error raised while reading or writing a byte or bit stream.
#[derive(Debug, Clone, Copy, PartialEq, Eq, Structural)]
pub enum IoError {
    /// Not enough bytes were left in the stream.
    UnexpectedEof,
    /// Fewer bytes are left than a cursor was asked to extract.
    NotEnoughBytes,
    /// A seek would move to a negative or overflowing position.
    InvalidSeek,
    /// The marker bit of an AV1 codec configuration record is not set.
    MarkerNotSet,
    /// The version of an AV1 codec configuration record is not 1.
    VersionNotOne,
    /// A bit reader was not on a byte boundary where a record had to end.
    NotAligned,
}

impl IoError {
    /// The kind that this error belongs to.
    pub open spec fn spec_kind(self) -> ErrorKind {
        match self {
            IoError::UnexpectedEof => ErrorKind::UnexpectedEof,
            IoError::NotEnoughBytes => ErrorKind::UnexpectedEof,
            IoError::InvalidSeek => ErrorKind::InvalidInput,
            _ => ErrorKind::InvalidData,
        }
    }

    /// Returns the kind of this error.
    pub fn kind(&self) -> (k: ErrorKind)
        ensures
            k == self.spec_kind(),
    {
        match self {
            IoError::UnexpectedEof => ErrorKind::UnexpectedEof,
            IoError::NotEnoughBytes => ErrorKind::UnexpectedEof,
            IoError::InvalidSeek => ErrorKind::InvalidInput,
            _ => ErrorKind::InvalidData,
        }
    }

    /// Returns the human readable message of this error.
    pub fn message(&self) -> (m: &'static str)
        ensures
            *self == IoError::UnexpectedEof ==> m@ == "failed to fill whole buffer"@,
            *self == IoError::NotEnoughBytes ==> m@ == "not enough bytes"@,
            *self == IoError::InvalidSeek ==> m@ == "invalid seek to a negative or overflowing position"@,
            *self == IoError::MarkerNotSet ==> m@ == "marker is not set"@,
            *self == IoError::VersionNotOne ==> m@ == "version is not 1"@,
            *self == IoError::NotAligned ==> m@ == "Bit reader is not aligned"@,
    {
        match self {
            IoError::UnexpectedEof => "failed to fill whole buffer",
            IoError::NotEnoughBytes => "not enough bytes",
            IoError::InvalidSeek => "invalid seek to a negative or overflowing position",
            IoError::MarkerNotSet => "marker is not set",
            IoError::VersionNotOne => "version is not 1",
            IoError::NotAligned => "Bit reader is not aligned",
        }
    }
}

} // verus!
