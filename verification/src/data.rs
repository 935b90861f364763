//! The decoded file: its header and all its segments, in the order in
//! which the traversal of the summary records meets them.

use crate::cursor::Cursor;
use crate::error::DAFError;
use crate::file::{DAFFile, DAFFileView, DAFHeader, DAFHeaderView};
use crate::layout::summary_address;
use crate::segment::{DAFSegment, DAFSegmentView};
use vstd::prelude::*;

verus! {

/// A file, decoded: what it says of itself, and its segments in the order
/// of the traversal.
#[derive(Debug)]
pub struct DAFData {
    pub header: DAFHeader,
    pub segments: Vec<DAFSegment>,
}

/// What a decoded file holds.
pub struct DAFDataView {
    pub header: DAFHeaderView,
    pub segments: Seq<DAFSegmentView>,
}

/// What each segment of a sequence holds.
pub open spec fn segment_views(segments: Seq<DAFSegment>) -> Seq<DAFSegmentView> {
    segments.map_values(|segment: DAFSegment| segment@)
}

impl View for DAFData {
    type V = DAFDataView;

    open spec fn view(&self) -> DAFDataView {
        DAFDataView { header: self.header@, segments: segment_views(self.segments@) }
    }
}

/// The outcome of a traversal of which `done` has been decoded and `rest`
/// is the outcome of what is left.
pub open spec fn after(done: Seq<DAFSegmentView>, rest: Result<Seq<DAFSegmentView>, DAFError>)
    -> Result<Seq<DAFSegmentView>, DAFError> {
    match rest {
        Ok(segments) => Ok(done + segments),
        Err(e) => Err(e),
    }
}

impl DAFFileView {
    /// The segments that the traversal yields from where the cursor stands
    /// to the end of the list, or the first failure of a step or of the
    /// decoder, which ends the traversal.
    #[verifier::opaque]
    pub open spec fn segments(self) -> Result<Seq<DAFSegmentView>, DAFError>
        decreases self.cursor.links_left, self.cursor.nsum - self.cursor.current_segment,
    {
        let (cursor, out) = self.step();
        match out {
            None => Ok(Seq::empty()),
            Some(Err(e)) => Err(e),
            Some(Ok(sumptr)) => match self.segment_at(sumptr) {
                Err(e) => Err(e),
                Ok(segment) => after(seq![segment], self.at_cursor(cursor).segments()),
            },
        }
    }

    /// Where the cursor stands when the traversal has ended, at the end of
    /// the list or by a failure.
    #[verifier::opaque]
    pub open spec fn drained(self) -> Cursor
        decreases self.cursor.links_left, self.cursor.nsum - self.cursor.current_segment,
    {
        let (cursor, out) = self.step();
        match out {
            Some(Ok(sumptr)) => if self.segment_at(sumptr) is Ok {
                self.at_cursor(cursor).drained()
            } else {
                cursor
            },
            _ => cursor,
        }
    }

    /// The traversal, one step unfolded: what `segments` and `drained` are
    /// in terms of the step from where the cursor stands and of the
    /// traversal from where that step leaves it.
    pub proof fn lemma_traversal_unfolds(self)
        ensures
            self.segments() == match self.step().1 {
                None => Ok(Seq::empty()),
                Some(Err(e)) => Err(e),
                Some(Ok(sumptr)) => match self.segment_at(sumptr) {
                    Err(e) => Err(e),
                    Ok(segment) => after(
                        seq![segment],
                        self.at_cursor(self.step().0).segments(),
                    ),
                },
            },
            self.drained() == match self.step().1 {
                Some(Ok(sumptr)) => if self.segment_at(sumptr) is Ok {
                    self.at_cursor(self.step().0).drained()
                } else {
                    self.step().0
                },
                _ => self.step().0,
            },
    {
        reveal(DAFFileView::segments);
        reveal(DAFFileView::drained);
    }

    /// A step that gives out an address brings the traversal nearer its
    /// end: it uses up a link of the list, or moves on by one summary
    /// within the count of the current record.
    pub proof fn lemma_step_progress(self)
        requires
            self.step().1 matches Some(Ok(_)),
        ensures
            ({
                let from = self.cursor;
                let to = self.step().0;
                ||| to.links_left < from.links_left
                ||| {
                    &&& to.links_left == from.links_left
                    &&& to.nsum == from.nsum
                    &&& from.current_segment < to.current_segment <= to.nsum
                }
            }),
    {
    }

    /// A traversal that succeeds decodes one segment at each address that
    /// the steps give out, in their order, and nothing else.
    pub proof fn lemma_segments_follow_summaries(self)
        requires
            self.segments() is Ok,
        ensures
            self.cursor.summaries(self.bytes, self.endian, self.layout) is Ok,
            ({
                let segments = self.segments().unwrap();
                let addresses = self.cursor.summaries(
                    self.bytes,
                    self.endian,
                    self.layout,
                ).unwrap();
                &&& segments.len() == addresses.len()
                &&& forall|i: int|
                    0 <= i < segments.len() ==> self.segment_at(#[trigger] addresses[i]) == Ok::<
                        DAFSegmentView,
                        DAFError,
                    >(segments[i])
            }),
        decreases self.cursor.links_left, self.cursor.nsum - self.cursor.current_segment,
    {
        reveal(Cursor::summaries);
        self.lemma_traversal_unfolds();
        let (cursor, out) = self.step();
        match out {
            Some(Ok(sumptr)) => {
                self.lemma_step_progress();
                let rest = self.at_cursor(cursor);
                rest.lemma_segments_follow_summaries();
                let segments = self.segments().unwrap();
                let addresses = self.cursor.summaries(
                    self.bytes,
                    self.endian,
                    self.layout,
                ).unwrap();
                assert forall|i: int| 0 <= i < segments.len() implies self.segment_at(
                    #[trigger] addresses[i],
                ) == Ok::<DAFSegmentView, DAFError>(segments[i]) by {
                    if i > 0 {
                        let later = rest.cursor.summaries(
                            rest.bytes,
                            rest.endian,
                            rest.layout,
                        ).unwrap();
                        assert(addresses[i] == later[i - 1]);
                        assert(segments[i] == rest.segments().unwrap()[i - 1]);
                        assert(rest.segment_at(later[i - 1]) == self.segment_at(later[i - 1]));
                    }
                }
            },
            _ => {},
        }
    }

    /// From a cursor in the last record of the list, a traversal that
    /// succeeds decodes as many segments as the record declares summaries
    /// above the cursor's index: all that it declares, from index 0.
    pub proof fn lemma_last_record_segments(self)
        requires
            1 <= self.cursor.current_record,
            self.cursor.next_record == 0,
            self.cursor.current_segment <= self.cursor.nsum,
            summary_address(self.cursor.current_record, self.cursor.nsum, self.layout.sum_size)
                <= u64::MAX,
            self.segments() is Ok,
        ensures
            self.segments().unwrap().len() == self.cursor.nsum - self.cursor.current_segment,
    {
        self.lemma_segments_follow_summaries();
        self.cursor.lemma_last_record(self.bytes, self.endian, self.layout);
    }

    /// Two traversals of one file from one place yield the same: what is
    /// decoded depends on nothing but the bytes and the place.
    pub proof fn lemma_decoding_repeats(first: DAFFileView, second: DAFFileView, bytes: Seq<u8>)
        requires
            DAFFileView::opened(bytes) == Ok::<DAFFileView, DAFError>(first),
            DAFFileView::opened(bytes) == Ok::<DAFFileView, DAFError>(second),
        ensures
            first.decoded() == second.decoded(),
            first.drained() == second.drained(),
    {
    }

    /// The decoded file: the header and the segments of the whole
    /// traversal, or the failure that ended it.
    pub open spec fn decoded(self) -> Result<DAFDataView, DAFError> {
        match self.segments() {
            Ok(segments) => Ok(DAFDataView { header: self.header(), segments }),
            Err(e) => Err(e),
        }
    }
}

impl DAFData {
    /// Decodes a file: reads its header, then runs the traversal to its
    /// end and decodes every segment on the way. The first failure ends
    /// the decoding, and nothing of the file is returned then.
    pub fn from_daffile(df: &mut DAFFile) -> (r: Result<DAFData, DAFError>)
        requires
            old(df).wf(),
        ensures
            final(df).wf(),
            final(df)@ == old(df)@.at_cursor(old(df)@.drained()),
            match r {
                Ok(data) => old(df)@.decoded() == Ok::<DAFDataView, DAFError>(data@),
                Err(e) => old(df)@.decoded() == Err::<DAFDataView, DAFError>(e),
            },
    {
        let ghost start = df@;
        let header: DAFHeader = match df.daf_header() {
            Ok(header) => header,
            Err(e) => {
                return Err(e);
            },
        };
        let mut segments: Vec<DAFSegment> = Vec::new();
        assert(after(segment_views(segments@), start.segments()) == start.segments()) by {
            if start.segments() is Ok {
                assert(segment_views(segments@) + start.segments().unwrap()
                    == start.segments().unwrap());
            }
        }
        loop
            invariant
                df.wf(),
                start == old(df)@,
                df@ == start.at_cursor(df@.cursor),
                header@ == start.header(),
                start.segments() == after(segment_views(segments@), df@.segments()),
                start.drained() == df@.drained(),
            decreases df@.cursor.links_left, df@.cursor.nsum - df@.cursor.current_segment,
        {
            let ghost before = df@;
            let ghost done = segment_views(segments@);
            proof {
                before.lemma_traversal_unfolds();
                if before.step().1 matches Some(Ok(_)) {
                    before.lemma_step_progress();
                }
            }
            match df.next() {
                None => {
                    assert(done + Seq::<DAFSegmentView>::empty() == done);
                    return Ok(DAFData { header, segments });
                },
                Some(Err(e)) => {
                    return Err(e);
                },
                Some(Ok(segment)) => {
                    segments.push(segment);
                    proof {
                        assert(segment_views(segments@) == done.push(segment@));
                        let rest = df@.segments();
                        if rest is Ok {
                            assert(done + (seq![segment@] + rest.unwrap()) == done.push(segment@)
                                + rest.unwrap());
                        }
                    }
                },
            }
        }
    }
}

} // verus!
