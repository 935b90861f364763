//! The errors of the decoder.

use vstd::prelude::*;
use vstd::string::*;

verus! {

/// What was found to be structurally wrong with a file.
#[derive(Clone, Copy, Debug, PartialEq, Eq, Structural)]
pub enum FormatFault {
    /// The byte-order marker is none of `B`, `b`, `L`, `l`.
    Endianness { found: u8 },
    /// The file-type marker is none of `S`, `C`, `P`.
    FileType { found: u8 },
    /// The number of doubles or of integers per summary is negative.
    SummaryShape { nd: i32, ni: i32 },
    /// The first summary record is below 1, or the last lies before the first.
    RecordPointers { fward: i32, bward: i32 },
    /// The byte address of a record of the chain does not fit in 64 bits.
    RecordNumber { record: u64 },
    /// The chain of summary records has more links than the file has records.
    RecordChain { record: u64 },
    /// The byte address of a summary does not fit in 64 bits.
    SummaryAddress { record: u64, index: u64 },
    /// A data range ends before it starts.
    DataRange { start: u64, end: u64 },
}

/// Why a read or a decode failed. Every failure ends the operation in
/// progress; nothing is retried.
#[derive(Clone, Copy, Debug, PartialEq, Eq, Structural)]
pub enum DAFError {
    /// `wanted` bytes were asked for at `offset`, and the source, `len`
    /// bytes long, ends before the last of them.
    IO { offset: u64, wanted: u64, len: u64 },
    /// The byte at `offset` is not 7-bit ASCII where ASCII is required.
    Encoding { offset: u64, found: u8 },
    /// The file is not laid out as a DAF.
    Format(FormatFault),
}

impl DAFError {
    /// A one-line description of the kind of failure.
    pub fn message(&self) -> (text: String)
        ensures
            text@ == match *self {
                DAFError::IO { .. } => "Short read"@,
                DAFError::Encoding { .. } => "Non-ASCII value read"@,
                DAFError::Format(FormatFault::Endianness { .. }) =>
                    "Unable to determine DAF file endian-ness"@,
                DAFError::Format(FormatFault::FileType { .. }) => "Unsupported DAF file type"@,
                DAFError::Format(FormatFault::SummaryShape { .. }) => "Negative summary size"@,
                DAFError::Format(FormatFault::RecordPointers { .. }) =>
                    "Invalid summary record pointers"@,
                DAFError::Format(FormatFault::RecordNumber { .. }) => "Record number out of range"@,
                DAFError::Format(FormatFault::RecordChain { .. }) =>
                    "Summary record chain does not end"@,
                DAFError::Format(FormatFault::SummaryAddress { .. }) =>
                    "Summary address out of range"@,
                DAFError::Format(FormatFault::DataRange { .. }) => "Data range ends before it starts"@,
            },
    {
        let text: &str = match self {
            DAFError::IO { .. } => "Short read",
            DAFError::Encoding { .. } => "Non-ASCII value read",
            DAFError::Format(FormatFault::Endianness { .. }) =>
                "Unable to determine DAF file endian-ness",
            DAFError::Format(FormatFault::FileType { .. }) => "Unsupported DAF file type",
            DAFError::Format(FormatFault::SummaryShape { .. }) => "Negative summary size",
            DAFError::Format(FormatFault::RecordPointers { .. }) => "Invalid summary record pointers",
            DAFError::Format(FormatFault::RecordNumber { .. }) => "Record number out of range",
            DAFError::Format(FormatFault::RecordChain { .. }) => "Summary record chain does not end",
            DAFError::Format(FormatFault::SummaryAddress { .. }) => "Summary address out of range",
            DAFError::Format(FormatFault::DataRange { .. }) => "Data range ends before it starts",
        };
        String::from_str(text)
    }
}

} // verus!
