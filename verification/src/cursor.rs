//! The traversal cursor: a position in the linked list of summary records,
//! and the step that moves it from one summary to the next.

use crate::double::Double;
use crate::error::{DAFError, FormatFault};
use crate::layout::{record_address, summary_address, FileLayout, CONTROL_SIZE, RECORD_SIZE};
use crate::primitive::{
    decode_double, double_in, in_bounds, readable, short_read, short_read_error, Endian,
};
use vstd::prelude::*;

verus! {

/// Where a traversal stands.
///
/// Summary records form a singly linked list: each names the record that
/// follows it, and 0 ends the list. Within a record the summaries are
/// counted from 0.
#[derive(Clone, Copy, Debug, PartialEq, Eq, Structural)]
pub struct Cursor {
    /// The number of the summary record that the traversal is in.
    pub current_record: u64,
    /// The number of the summary record that follows, or 0.
    pub next_record: u64,
    /// The index of the summary that was given out last.
    pub current_segment: u64,
    /// The count of summaries that the current record declares.
    pub nsum: u64,
    /// How many more links of the list may be followed. A traversal starts
    /// with as many as the file has whole records, which is enough for any
    /// list that ends; so the traversal of any file ends.
    pub links_left: u64,
}

/// What one step of a traversal gives: the address of a summary, the
/// failure that ended the traversal, or nothing at the end of the list.
pub type Step = Option<Result<u64, DAFError>>;

/// The number of the summary record that follows `record`: the first
/// control word of `record`, a double that is cut down to an integer.
pub open spec fn next_record_of(bytes: Seq<u8>, record: u64, endian: Endian) -> u64 {
    let at = record_address(record);
    decode_double(bytes.subrange(at, at + 8), endian).truncated() as u64
}

/// The count of summaries in `record`: the third control word of `record`,
/// a double that is cut down to an integer.
pub open spec fn summary_count_of(bytes: Seq<u8>, record: u64, endian: Endian) -> u64 {
    let at = record_address(record);
    decode_double(bytes.subrange(at + 16, at + 24), endian).truncated() as u64
}

/// The two control words of a summary record that a traversal needs, the
/// number of the next summary record and the count of summaries, or the
/// failure to read them.
pub open spec fn control_at(bytes: Seq<u8>, record: u64, endian: Endian) -> Result<
    (u64, u64),
    DAFError,
>
    recommends
        1 <= record,
        record_address(record) <= u64::MAX,
{
    let at = record_address(record);
    if readable(bytes.len(), at, CONTROL_SIZE as int) {
        Ok((next_record_of(bytes, record, endian), summary_count_of(bytes, record, endian)))
    } else {
        Err(short_read(bytes, at as u64, CONTROL_SIZE))
    }
}

/// Reads the control words of a summary record.
pub fn read_control(src: &[u8], record: u64, endian: &Endian) -> (r: Result<(u64, u64), DAFError>)
    requires
        1 <= record,
        record_address(record) <= u64::MAX,
    ensures
        r == control_at(src@, record, *endian),
{
    let at: u64 = RECORD_SIZE * (record - 1);
    if !in_bounds(src, at, CONTROL_SIZE) {
        return Err(short_read_error(src, at, CONTROL_SIZE));
    }
    assert(src@.len() == src.len());
    let next: Double = double_in(src, at, endian);
    let count: Double = double_in(src, at + 16, endian);
    Ok((next.to_u64(), count.to_u64()))
}

impl Cursor {
    /// Whether the cursor names a record, its index is within the count of
    /// that record, and the address of the summary it stands at fits in 64
    /// bits.
    pub open spec fn wf(self, layout: FileLayout) -> bool {
        &&& 1 <= self.current_record
        &&& self.current_segment <= self.nsum
        &&& summary_address(self.current_record, self.current_segment, layout.sum_size) <= u64::MAX
    }

    /// The address of the summary that the cursor stands at.
    pub open spec fn pointer(self, layout: FileLayout) -> int {
        summary_address(self.current_record, self.current_segment, layout.sum_size)
    }

    /// The cursor at the start of the summary record `first` of a file, or
    /// the failure to read that record's control words. As many links may
    /// be followed as the file has whole records.
    pub open spec fn start_of(bytes: Seq<u8>, first: u64, endian: Endian) -> Result<
        Cursor,
        DAFError,
    >
        recommends
            1 <= first,
            record_address(first) <= u64::MAX,
    {
        match control_at(bytes, first, endian) {
            Ok((next_record, nsum)) => Ok(
                Cursor {
                    current_record: first,
                    next_record,
                    current_segment: 0,
                    nsum,
                    links_left: (bytes.len() / (RECORD_SIZE as nat)) as u64,
                },
            ),
            Err(e) => Err(e),
        }
    }

    /// The step that leaves the current record for the next one.
    ///
    /// Where no record follows, the traversal is at its end. Otherwise the
    /// control words of the next record are read, and the cursor moves to
    /// that record's summary 0, whose address is given out. A failure
    /// leaves the cursor where it was.
    pub open spec fn record_step(self, bytes: Seq<u8>, endian: Endian, layout: FileLayout) -> (
        Cursor,
        Step,
    ) {
        if self.next_record == 0 {
            (self, None)
        } else if record_address(self.next_record) > u64::MAX {
            (
                self,
                Some(Err(DAFError::Format(FormatFault::RecordNumber { record: self.next_record }))),
            )
        } else {
            match control_at(bytes, self.next_record, endian) {
                Err(e) => (self, Some(Err(e))),
                Ok((next_record, nsum)) => if self.links_left == 0 {
                    (
                        self,
                        Some(
                            Err(
                                DAFError::Format(
                                    FormatFault::RecordChain { record: self.next_record },
                                ),
                            ),
                        ),
                    )
                } else {
                    (
                        Cursor {
                            current_record: self.next_record,
                            next_record,
                            current_segment: 0,
                            nsum,
                            links_left: (self.links_left - 1) as u64,
                        },
                        Some(Ok(summary_address(self.next_record, 0, layout.sum_size) as u64)),
                    )
                },
            }
        }
    }

    /// One step of the traversal.
    ///
    /// While the index of the cursor is below the count of the current
    /// record, the index goes up by one and the address of the summary with
    /// the new index is given out. After that the step is the one that
    /// leaves the record. A failure leaves the cursor where it was.
    pub open spec fn step(self, bytes: Seq<u8>, endian: Endian, layout: FileLayout) -> (
        Cursor,
        Step,
    ) {
        if self.current_segment < self.nsum {
            let index = (self.current_segment + 1) as u64;
            let address = summary_address(self.current_record, index, layout.sum_size);
            if address > u64::MAX {
                (
                    self,
                    Some(
                        Err(
                            DAFError::Format(
                                FormatFault::SummaryAddress { record: self.current_record, index },
                            ),
                        ),
                    ),
                )
            } else {
                (Cursor { current_segment: index, ..self }, Some(Ok(address as u64)))
            }
        } else {
            self.record_step(bytes, endian, layout)
        }
    }

    /// The addresses that a traversal gives out from where the cursor
    /// stands to the end of the list, or the failure of the step that ended
    /// it.
    #[verifier::opaque]
    pub open spec fn summaries(self, bytes: Seq<u8>, endian: Endian, layout: FileLayout) -> Result<
        Seq<u64>,
        DAFError,
    >
        decreases self.links_left, self.nsum - self.current_segment,
    {
        let (next, out) = self.step(bytes, endian, layout);
        match out {
            None => Ok(Seq::empty()),
            Some(Err(e)) => Err(e),
            Some(Ok(address)) => match next.summaries(bytes, endian, layout) {
                Ok(rest) => Ok(seq![address] + rest),
                Err(e) => Err(e),
            },
        }
    }

    /// The addresses of the summaries of a record from the index `from` up
    /// to, but without, the index `to`.
    pub open spec fn addresses(record: u64, from: int, to: int, sum_size: u64) -> Seq<u64> {
        Seq::new(
            (to - from) as nat,
            |i: int| summary_address(record, (from + i) as u64, sum_size) as u64,
        )
    }

    /// In the last record of a list the traversal gives out one address for
    /// each index above the cursor's, up to the count of the record, and
    /// then ends: from a cursor at index 0 of a record that declares `N`
    /// summaries and names no next record, exactly `N` addresses.
    pub proof fn lemma_last_record(self, bytes: Seq<u8>, endian: Endian, layout: FileLayout)
        requires
            1 <= self.current_record,
            self.next_record == 0,
            self.current_segment <= self.nsum,
            summary_address(self.current_record, self.nsum, layout.sum_size) <= u64::MAX,
        ensures
            self.summaries(bytes, endian, layout) == Ok::<Seq<u64>, DAFError>(
                Self::addresses(
                    self.current_record,
                    self.current_segment + 1,
                    self.nsum + 1,
                    layout.sum_size,
                ),
            ),
            self.summaries(bytes, endian, layout).unwrap().len() == self.nsum
                - self.current_segment,
        decreases self.nsum - self.current_segment,
    {
        reveal(Cursor::summaries);
        let expected = Self::addresses(
            self.current_record,
            self.current_segment + 1,
            self.nsum + 1,
            layout.sum_size,
        );
        if self.current_segment < self.nsum {
            let index = (self.current_segment + 1) as u64;
            assert(index * layout.sum_size <= self.nsum * layout.sum_size) by (nonlinear_arith)
                requires
                    index <= self.nsum,
            ;
            let next = Cursor { current_segment: index, ..self };
            next.lemma_last_record(bytes, endian, layout);
            let first = summary_address(self.current_record, index, layout.sum_size) as u64;
            assert(seq![first] + Self::addresses(
                self.current_record,
                index + 1,
                self.nsum + 1,
                layout.sum_size,
            ) == expected);
        } else {
            assert(expected == Seq::<u64>::empty());
        }
    }

    /// Across a link of the list the traversal gives out the addresses that
    /// are left in the current record, then those of the next record from
    /// its index 0 up to its count. Where the next record is the last and
    /// the cursor stands at index 0, that is one address more than the two
    /// counts together.
    pub proof fn lemma_two_records(self, bytes: Seq<u8>, endian: Endian, layout: FileLayout)
        requires
            1 <= self.current_record,
            self.current_segment <= self.nsum,
            summary_address(self.current_record, self.nsum, layout.sum_size) <= u64::MAX,
            self.next_record != 0,
            record_address(self.next_record) <= u64::MAX,
            self.links_left > 0,
            control_at(bytes, self.next_record, endian) matches Ok(control) && control.0 == 0
                && summary_address(self.next_record, control.1, layout.sum_size) <= u64::MAX,
        ensures
            self.summaries(bytes, endian, layout) == Ok::<Seq<u64>, DAFError>(
                Self::addresses(
                    self.current_record,
                    self.current_segment + 1,
                    self.nsum + 1,
                    layout.sum_size,
                ) + Self::addresses(
                    self.next_record,
                    0,
                    control_at(bytes, self.next_record, endian).unwrap().1 + 1,
                    layout.sum_size,
                ),
            ),
            self.summaries(bytes, endian, layout).unwrap().len() == (self.nsum
                - self.current_segment) + control_at(bytes, self.next_record, endian).unwrap().1
                + 1,
        decreases self.nsum - self.current_segment,
    {
        reveal(Cursor::summaries);
        let count = control_at(bytes, self.next_record, endian).unwrap().1;
        let here = Self::addresses(
            self.current_record,
            self.current_segment + 1,
            self.nsum + 1,
            layout.sum_size,
        );
        let there = Self::addresses(self.next_record, 0, count + 1, layout.sum_size);
        if self.current_segment < self.nsum {
            let index = (self.current_segment + 1) as u64;
            assert(index * layout.sum_size <= self.nsum * layout.sum_size) by (nonlinear_arith)
                requires
                    index <= self.nsum,
            ;
            let next = Cursor { current_segment: index, ..self };
            next.lemma_two_records(bytes, endian, layout);
            let first = summary_address(self.current_record, index, layout.sum_size) as u64;
            assert(seq![first] + Self::addresses(
                self.current_record,
                index + 1,
                self.nsum + 1,
                layout.sum_size,
            ) == here);
            assert(seq![first] + (Self::addresses(
                self.current_record,
                index + 1,
                self.nsum + 1,
                layout.sum_size,
            ) + there) == here + there);
        } else {
            let moved = Cursor {
                current_record: self.next_record,
                next_record: 0,
                current_segment: 0,
                nsum: count,
                links_left: (self.links_left - 1) as u64,
            };
            moved.lemma_last_record(bytes, endian, layout);
            let first = summary_address(self.next_record, 0, layout.sum_size) as u64;
            assert(seq![first] + Self::addresses(self.next_record, 1, count + 1, layout.sum_size)
                == there);
            assert(here == Seq::<u64>::empty());
            assert(here + there == there);
        }
    }

    /// Seeds a cursor at the summary record `first`.
    pub fn start(src: &[u8], first: u64, endian: &Endian) -> (r: Result<Cursor, DAFError>)
        requires
            1 <= first,
            record_address(first) <= u64::MAX,
        ensures
            r == Self::start_of(src@, first, *endian),
    {
        match read_control(src, first, endian) {
            Ok((next_record, nsum)) => Ok(
                Cursor {
                    current_record: first,
                    next_record,
                    current_segment: 0,
                    nsum,
                    links_left: src.len() as u64 / RECORD_SIZE,
                },
            ),
            Err(e) => Err(e),
        }
    }

    /// The address of the summary that the cursor stands at.
    pub fn current_ptr(&self, layout: &FileLayout) -> (address: u64)
        requires
            self.wf(*layout),
        ensures
            address == self.pointer(*layout),
    {
        assert(self.current_segment * layout.sum_size >= 0) by (nonlinear_arith);
        RECORD_SIZE * (self.current_record - 1) + CONTROL_SIZE + self.current_segment
            * layout.sum_size
    }

    /// Leaves the current record for the next one.
    pub fn advance_record(&self, src: &[u8], endian: &Endian, layout: &FileLayout) -> (r: (
        Cursor,
        Step,
    ))
        ensures
            r == self.record_step(src@, *endian, *layout),
            r.0.wf(*layout) || r.0 == *self,
    {
        if self.next_record == 0 {
            return (*self, None);
        }
        if self.next_record - 1 > u64::MAX / RECORD_SIZE {
            return (
                *self,
                Some(Err(DAFError::Format(FormatFault::RecordNumber { record: self.next_record }))),
            );
        }
        match read_control(src, self.next_record, endian) {
            Err(e) => (*self, Some(Err(e))),
            Ok((next_record, nsum)) => {
                if self.links_left == 0 {
                    return (
                        *self,
                        Some(
                            Err(
                                DAFError::Format(
                                    FormatFault::RecordChain { record: self.next_record },
                                ),
                            ),
                        ),
                    );
                }
                assert(src@.len() == src.len());
                let moved = Cursor {
                    current_record: self.next_record,
                    next_record,
                    current_segment: 0,
                    nsum,
                    links_left: self.links_left - 1,
                };
                (moved, Some(Ok(RECORD_SIZE * (self.next_record - 1) + CONTROL_SIZE)))
            },
        }
    }

    /// Takes one step of the traversal.
    pub fn advance_segment(&self, src: &[u8], endian: &Endian, layout: &FileLayout) -> (r: (
        Cursor,
        Step,
    ))
        requires
            self.wf(*layout),
        ensures
            r == self.step(src@, *endian, *layout),
            r.0.wf(*layout),
    {
        if self.current_segment < self.nsum {
            let index: u64 = self.current_segment + 1;
            let fault = DAFError::Format(
                FormatFault::SummaryAddress { record: self.current_record, index },
            );
            assert(self.current_segment * layout.sum_size >= 0) by (nonlinear_arith);
            let base: u64 = RECORD_SIZE * (self.current_record - 1) + CONTROL_SIZE;
            match index.checked_mul(layout.sum_size) {
                None => (*self, Some(Err(fault))),
                Some(within) => match base.checked_add(within) {
                    None => (*self, Some(Err(fault))),
                    Some(address) => (
                        Cursor { current_segment: index, ..*self },
                        Some(Ok(address)),
                    ),
                },
            }
        } else {
            self.advance_record(src, endian, layout)
        }
    }
}

} // verus!
