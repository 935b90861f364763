//! The shape of a file: what kind of data it holds, how large its
//! summaries are, and where records, summaries and names lie.

use crate::error::{DAFError, FormatFault};
use vstd::prelude::*;
use vstd::string::*;

verus! {

/// The size of a record in bytes. Records are numbered from 1, and record
/// `n` starts at byte `1024 * (n - 1)`.
pub const RECORD_SIZE: u64 = 1024;

/// The size in bytes of the control words that open a summary record: the
/// number of the next summary record, that of the previous one, and the
/// count of summaries in this record, each stored as a double.
pub const CONTROL_SIZE: u64 = 24;

/// The kind of data that a file holds.
#[derive(Clone, Copy, Debug, PartialEq, Eq, Structural)]
pub enum DAFKind {
    /// Ephemeris data.
    SPK,
    /// Attitude data.
    CK,
    /// Binary planetary constants.
    BPCK,
    /// None of the kinds that can be decoded.
    Unknown,
}

impl DAFKind {
    /// The kind that a file-type marker stands for.
    pub open spec fn of_marker(marker: char) -> DAFKind {
        if marker == 'S' {
            DAFKind::SPK
        } else if marker == 'C' {
            DAFKind::CK
        } else if marker == 'P' {
            DAFKind::BPCK
        } else {
            DAFKind::Unknown
        }
    }

    /// The kind that a file-type marker stands for.
    pub fn from_marker(marker: char) -> (kind: DAFKind)
        ensures
            kind == Self::of_marker(marker),
    {
        if marker == 'S' {
            DAFKind::SPK
        } else if marker == 'C' {
            DAFKind::CK
        } else if marker == 'P' {
            DAFKind::BPCK
        } else {
            DAFKind::Unknown
        }
    }

    /// The name of the kind, as it is written out.
    pub fn label(&self) -> (text: String)
        ensures
            text@ == match *self {
                DAFKind::SPK => "SPK"@,
                DAFKind::CK => "CK"@,
                DAFKind::BPCK => "BPCK"@,
                DAFKind::Unknown => "unknown"@,
            },
    {
        match self {
            DAFKind::SPK => String::from_str("SPK"),
            DAFKind::CK => String::from_str("CK"),
            DAFKind::BPCK => String::from_str("BPCK"),
            DAFKind::Unknown => String::from_str("unknown"),
        }
    }
}

/// The byte address at which a record starts.
pub open spec fn record_address(record: u64) -> int {
    RECORD_SIZE * (record - 1)
}

/// The byte address of the summary with the given index in a summary
/// record: summaries follow the control words, one after the other.
pub open spec fn summary_address(record: u64, index: u64, sum_size: u64) -> int {
    record_address(record) + CONTROL_SIZE + index * sum_size
}

/// The sizes that follow from a file record. They are fixed when the file
/// is opened, and every summary and name is found through them.
#[derive(Clone, Copy, Debug, PartialEq, Eq, Structural)]
pub struct FileLayout {
    /// The number of doubles in a summary.
    pub nd: u64,
    /// The number of integers in a summary.
    pub ni: u64,
    /// The size of a summary in bytes.
    pub sum_size: u64,
    /// The size in bytes of the name that goes with a summary.
    pub nc: u64,
    /// The distance in bytes from a summary to its name.
    pub name_record_offset: u64,
}

impl FileLayout {
    /// The layout that follows from the counts `nd` and `ni` and the record
    /// numbers `fward` and `bward` of a file record, or what is wrong with
    /// them: a negative count, a first summary record below 1, or a last
    /// summary record before the first.
    pub open spec fn of(nd: i32, ni: i32, fward: i32, bward: i32) -> Result<FileLayout, DAFError> {
        if nd < 0 || ni < 0 {
            Err(DAFError::Format(FormatFault::SummaryShape { nd, ni }))
        } else if fward < 1 || bward < fward {
            Err(DAFError::Format(FormatFault::RecordPointers { fward, bward }))
        } else {
            Ok(
                FileLayout {
                    nd: nd as u64,
                    ni: ni as u64,
                    sum_size: (8 * nd + 4 * ni) as u64,
                    nc: (8 * (nd + (ni + 1) / 2)) as u64,
                    name_record_offset: (RECORD_SIZE * (bward - fward + 1)) as u64,
                },
            )
        }
    }

    /// Whether the sizes agree with one another and are within the bounds
    /// that a file record can give them.
    pub open spec fn wf(self) -> bool {
        &&& self.nd <= i32::MAX
        &&& self.ni <= i32::MAX
        &&& self.sum_size == 8 * self.nd + 4 * self.ni
        &&& self.nc == 8 * (self.nd + (self.ni + 1) / 2)
        &&& RECORD_SIZE <= self.name_record_offset <= RECORD_SIZE * i32::MAX
    }

    /// Computes the layout from the fields of a file record.
    pub fn new(nd: i32, ni: i32, fward: i32, bward: i32) -> (r: Result<FileLayout, DAFError>)
        ensures
            r == Self::of(nd, ni, fward, bward),
            r matches Ok(layout) ==> layout.wf(),
    {
        if nd < 0 || ni < 0 {
            return Err(DAFError::Format(FormatFault::SummaryShape { nd, ni }));
        }
        if fward < 1 || bward < fward {
            return Err(DAFError::Format(FormatFault::RecordPointers { fward, bward }));
        }
        let nd: u64 = nd as u64;
        let ni: u64 = ni as u64;
        let span: u64 = (bward - fward) as u64 + 1;
        Ok(
            FileLayout {
                nd,
                ni,
                sum_size: 8 * nd + 4 * ni,
                nc: 8 * (nd + (ni + 1) / 2),
                name_record_offset: RECORD_SIZE * span,
            },
        )
    }
}

} // verus!
