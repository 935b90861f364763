//! The list of summary records, and why a bound on its links loses
//! nothing.
//!
//! Each summary record names the record that follows it, so the records
//! that a list visits are a function of the first: nothing but the bytes
//! decides where a link leads. A list that comes back to a record it has
//! visited therefore goes round for ever. Since a file holds only so many
//! records, a list with more links than that must come back to one; and a
//! traversal that gives up after that many links gives up only on lists
//! that have no end.

use crate::cursor::{control_at, next_record_of, Cursor, Step};
use crate::error::{DAFError, FormatFault};
use crate::layout::{record_address, FileLayout, CONTROL_SIZE, RECORD_SIZE};
use crate::primitive::{readable, Endian};
use vstd::prelude::*;
use vstd::set_lib::*;

verus! {

/// Whether `record` is the number of a record whose control words lie
/// within the file.
pub open spec fn live(bytes: Seq<u8>, record: u64) -> bool {
    1 <= record && readable(bytes.len(), record_address(record), CONTROL_SIZE as int)
}

/// The record that the list reaches from `record` over `links` links.
pub open spec fn reached(bytes: Seq<u8>, endian: Endian, record: u64, links: nat) -> u64
    decreases links,
{
    if links == 0 {
        record
    } else {
        next_record_of(bytes, reached(bytes, endian, record, (links - 1) as nat), endian)
    }
}

/// Whether the list from `record` has `links` links: the record it starts
/// at and every record it reaches over up to that many links are live.
pub open spec fn linked(bytes: Seq<u8>, endian: Endian, record: u64, links: nat) -> bool {
    forall|k: nat| k <= links ==> live(bytes, #[trigger] reached(bytes, endian, record, k))
}

/// Summary records that differ from one another, and whose control words
/// lie within a file, are at most one more than the file has whole records.
/// A list that visits no record twice has therefore no more links than the
/// file has whole records, which is the number of links that a traversal
/// may follow.
pub proof fn lemma_distinct_records_are_few(len: nat, records: Seq<u64>)
    requires
        records.no_duplicates(),
        forall|i: int|
            0 <= i < records.len() ==> 1 <= #[trigger] records[i] && readable(
                len,
                record_address(records[i]),
                CONTROL_SIZE as int,
            ),
    ensures
        records.len() <= len / (RECORD_SIZE as nat) + 1,
{
    let bound = (len / (RECORD_SIZE as nat)) as int + 1;
    let numbers = records.map_values(|r: u64| r as int);
    assert(numbers.no_duplicates());
    numbers.unique_seq_to_set();
    assert forall|n: int| numbers.to_set().contains(n) implies set_int_range(
        1,
        bound + 1,
    ).contains(n) by {
        let i = choose|i: int| 0 <= i < numbers.len() && numbers[i] == n;
        assert(numbers[i] == records[i]);
    }
    lemma_int_range(1, bound + 1);
    lemma_len_subset(numbers.to_set(), set_int_range(1, bound + 1));
}

/// A list with more links than the file has whole records visits a record
/// twice.
pub proof fn lemma_long_list_repeats(bytes: Seq<u8>, endian: Endian, first: u64, links: nat) -> (pair:
    (nat, nat))
    requires
        linked(bytes, endian, first, links),
        links > bytes.len() / (RECORD_SIZE as nat),
    ensures
        pair.0 < pair.1 <= links,
        reached(bytes, endian, first, pair.0) == reached(bytes, endian, first, pair.1),
{
    let records = Seq::new(links + 1, |k: int| reached(bytes, endian, first, k as nat));
    if records.no_duplicates() {
        assert forall|i: int| 0 <= i < records.len() implies 1 <= #[trigger] records[i] && readable(
            bytes.len(),
            record_address(records[i]),
            CONTROL_SIZE as int,
        ) by {
            assert(live(bytes, reached(bytes, endian, first, i as nat)));
        }
        lemma_distinct_records_are_few(bytes.len(), records);
    }
    let (i, j) = choose|i: int, j: int|
        0 <= i < records.len() && 0 <= j < records.len() && i != j && records[i] == records[j];
    if i < j {
        (i as nat, j as nat)
    } else {
        (j as nat, i as nat)
    }
}

/// Where a list visits a record twice, what follows the second visit is
/// what followed the first.
pub proof fn lemma_list_is_periodic(
    bytes: Seq<u8>,
    endian: Endian,
    first: u64,
    i: nat,
    j: nat,
    further: nat,
)
    requires
        reached(bytes, endian, first, i) == reached(bytes, endian, first, j),
    ensures
        reached(bytes, endian, first, i + further) == reached(bytes, endian, first, j + further),
    decreases further,
{
    if further > 0 {
        lemma_list_is_periodic(bytes, endian, first, i, j, (further - 1) as nat);
    }
}

/// A list that visits a record twice has no end: whatever number of links
/// is followed, the record reached is live, and so names a next record
/// that is not 0.
pub proof fn lemma_repeating_list_never_ends(
    bytes: Seq<u8>,
    endian: Endian,
    first: u64,
    i: nat,
    j: nat,
    links: nat,
)
    requires
        i < j,
        linked(bytes, endian, first, j),
        reached(bytes, endian, first, i) == reached(bytes, endian, first, j),
    ensures
        live(bytes, reached(bytes, endian, first, links)),
    decreases links,
{
    if links > j {
        let earlier = (links - (j - i)) as nat;
        lemma_list_is_periodic(bytes, endian, first, i, j, (links - j) as nat);
        assert(i + (links - j) == earlier);
        lemma_repeating_list_never_ends(bytes, endian, first, i, j, earlier);
    }
}

impl Cursor {
    /// Whether the cursor is where a traversal from the summary record
    /// `first` stands after it has followed `links` links of the list.
    pub open spec fn on_list(self, bytes: Seq<u8>, endian: Endian, first: u64, links: nat) -> bool {
        &&& linked(bytes, endian, first, links)
        &&& self.current_record == reached(bytes, endian, first, links)
        &&& self.next_record == next_record_of(bytes, self.current_record, endian)
        &&& self.links_left + links == bytes.len() / (RECORD_SIZE as nat)
    }

    /// Where the cursor stands after `steps` steps of a traversal.
    pub open spec fn stepped(
        self,
        bytes: Seq<u8>,
        endian: Endian,
        layout: FileLayout,
        steps: nat,
    ) -> Cursor
        decreases steps,
    {
        if steps == 0 {
            self
        } else {
            self.stepped(bytes, endian, layout, (steps - 1) as nat).step(bytes, endian, layout).0
        }
    }

    /// A step keeps the cursor on the list: it has followed one link more
    /// where it has left the record, and as many as before where it has
    /// not.
    pub proof fn lemma_step_stays_on_list(
        self,
        bytes: Seq<u8>,
        endian: Endian,
        layout: FileLayout,
        first: u64,
        links: nat,
    ) -> (after: nat)
        requires
            self.on_list(bytes, endian, first, links),
        ensures
            after == links || after == links + 1,
            self.step(bytes, endian, layout).0.on_list(bytes, endian, first, after),
    {
        let moved = self.step(bytes, endian, layout).0;
        if moved == self {
            links
        } else if moved.current_record == self.current_record && moved.next_record
            == self.next_record && moved.links_left == self.links_left {
            links
        } else {
            assert(reached(bytes, endian, first, links + 1) == self.next_record);
            assert forall|k: nat| k <= links + 1 implies live(
                bytes,
                #[trigger] reached(bytes, endian, first, k),
            ) by {
                if k <= links {
                } else {
                    assert(k == links + 1);
                }
            }
            links + 1
        }
    }

    /// A traversal starts on the list, with no link followed.
    pub proof fn lemma_starts_on_list(self, bytes: Seq<u8>, endian: Endian, first: u64)
        requires
            bytes.len() <= usize::MAX,
            1 <= first,
            record_address(first) <= u64::MAX,
            Cursor::start_of(bytes, first, endian) == Ok::<Cursor, DAFError>(self),
        ensures
            self.on_list(bytes, endian, first, 0),
    {
        assert(reached(bytes, endian, first, 0) == first);
        assert forall|k: nat| k <= 0 implies live(
            bytes,
            #[trigger] reached(bytes, endian, first, k),
        ) by {
            assert(k == 0);
        }
    }

    /// After any number of steps, a traversal that started at the summary
    /// record `first` is on the list from that record.
    pub proof fn lemma_traversal_stays_on_list(
        self,
        bytes: Seq<u8>,
        endian: Endian,
        layout: FileLayout,
        first: u64,
        steps: nat,
    ) -> (links: nat)
        requires
            bytes.len() <= usize::MAX,
            1 <= first,
            record_address(first) <= u64::MAX,
            Cursor::start_of(bytes, first, endian) == Ok::<Cursor, DAFError>(self),
        ensures
            self.stepped(bytes, endian, layout, steps).on_list(bytes, endian, first, links),
        decreases steps,
    {
        if steps == 0 {
            self.lemma_starts_on_list(bytes, endian, first);
            0
        } else {
            let earlier = self.stepped(bytes, endian, layout, (steps - 1) as nat);
            let before = self.lemma_traversal_stays_on_list(
                bytes,
                endian,
                layout,
                first,
                (steps - 1) as nat,
            );
            assert(self.stepped(bytes, endian, layout, steps) == earlier.step(
                bytes,
                endian,
                layout,
            ).0);
            earlier.lemma_step_stays_on_list(bytes, endian, layout, first, before)
        }
    }

    /// A traversal gives up on a list only where the list has no end.
    ///
    /// If a step of a traversal that started at the summary record `first`
    /// fails because no more links may be followed, then whatever number of
    /// links of the list from `first` is followed, the record reached is
    /// live: the list never names 0 as the next record, and never leaves
    /// the file.
    pub proof fn lemma_gives_up_on_endless_lists_only(
        self,
        bytes: Seq<u8>,
        endian: Endian,
        layout: FileLayout,
        first: u64,
        steps: nat,
        links: nat,
    )
        requires
            bytes.len() <= usize::MAX,
            1 <= first,
            record_address(first) <= u64::MAX,
            Cursor::start_of(bytes, first, endian) == Ok::<Cursor, DAFError>(self),
            self.stepped(bytes, endian, layout, steps).step(bytes, endian, layout).1 matches Some(
                Err(DAFError::Format(FormatFault::RecordChain { .. })),
            ),
        ensures
            live(bytes, reached(bytes, endian, first, links)),
    {
        let followed = self.lemma_traversal_stays_on_list(bytes, endian, layout, first, steps);
        let stuck = self.stepped(bytes, endian, layout, steps);
        assert(stuck.links_left == 0);
        assert(reached(bytes, endian, first, followed + 1) == stuck.next_record);
        assert forall|k: nat| k <= followed + 1 implies live(
            bytes,
            #[trigger] reached(bytes, endian, first, k),
        ) by {
            if k <= followed {
            } else {
                assert(k == followed + 1);
            }
        }
        let pair = lemma_long_list_repeats(bytes, endian, first, followed + 1);
        assert forall|k: nat| k <= pair.1 implies live(
            bytes,
            #[trigger] reached(bytes, endian, first, k),
        ) by {
            assert(k <= followed + 1);
        }
        lemma_repeating_list_never_ends(bytes, endian, first, pair.0, pair.1, links);
    }
}

} // verus!
