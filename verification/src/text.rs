//! The text fields of the format: fixed-width runs of ASCII in which
//! padding bytes are interleaved with content.
//!
//! A field is decoded leniently. Null bytes and bytes above 7-bit ASCII are
//! passed over, an end-of-transmission byte ends the field early, and what
//! is left is trimmed of the blanks around it.

use crate::error::DAFError;
use vstd::prelude::*;

verus! {

/// The end-of-transmission byte, which ends a text field early.
pub const EOT: u8 = 4;

/// Whether a byte of a text field is copied: it is neither null nor above
/// 7-bit ASCII.
pub open spec fn is_content(b: u8) -> bool {
    b != 0 && b < 0x80
}

/// Whether an ASCII byte is white space: a space, or one of the controls
/// from horizontal tab to carriage return.
pub open spec fn is_blank(b: u8) -> bool {
    b == 0x20 || (0x09 <= b && b <= 0x0d)
}

/// The part of a field that lies before its first end-of-transmission byte:
/// all of it, where it has none.
pub open spec fn before_eot(s: Seq<u8>) -> Seq<u8> {
    match s.index_of_first(EOT) {
        Some(i) => s.take(i),
        None => s,
    }
}

/// A sequence without its leading blanks.
pub open spec fn trim_start(s: Seq<u8>) -> Seq<u8>
    decreases s.len(),
{
    if s.len() > 0 && is_blank(s.first()) {
        trim_start(s.drop_first())
    } else {
        s
    }
}

/// A sequence without its trailing blanks.
pub open spec fn trim_end(s: Seq<u8>) -> Seq<u8>
    decreases s.len(),
{
    if s.len() > 0 && is_blank(s.last()) {
        trim_end(s.drop_last())
    } else {
        s
    }
}

/// A sequence without the blanks at either end.
pub open spec fn trim(s: Seq<u8>) -> Seq<u8> {
    trim_end(trim_start(s))
}

/// Where the leading blanks of a sequence end: the sequence without them
/// is what lies from there on, all before is blank, and what lies there is
/// not.
pub proof fn lemma_trim_start(s: Seq<u8>) -> (from: int)
    ensures
        0 <= from <= s.len(),
        trim_start(s) == s.subrange(from, s.len() as int),
        forall|i: int| 0 <= i < from ==> is_blank(#[trigger] s[i]),
        from < s.len() ==> !is_blank(s[from]),
    decreases s.len(),
{
    if s.len() > 0 && is_blank(s.first()) {
        let rest = s.drop_first();
        let from = lemma_trim_start(rest);
        assert(rest.subrange(from, rest.len() as int) == s.subrange(from + 1, s.len() as int));
        assert forall|i: int| 0 <= i < from + 1 implies is_blank(#[trigger] s[i]) by {
            if i > 0 {
                assert(s[i] == rest[i - 1]);
            }
        }
        from + 1
    } else {
        assert(s.subrange(0, s.len() as int) == s);
        0
    }
}

/// Where the trailing blanks of a sequence start: the sequence without
/// them is what lies before, all from there on is blank, and what lies
/// just before is not.
pub proof fn lemma_trim_end(s: Seq<u8>) -> (to: int)
    ensures
        0 <= to <= s.len(),
        trim_end(s) == s.subrange(0, to),
        forall|i: int| to <= i < s.len() ==> is_blank(#[trigger] s[i]),
        0 < to ==> !is_blank(s[to - 1]),
    decreases s.len(),
{
    if s.len() > 0 && is_blank(s.last()) {
        let rest = s.drop_last();
        let to = lemma_trim_end(rest);
        assert(rest.subrange(0, to) == s.subrange(0, to));
        assert forall|i: int| to <= i < s.len() implies is_blank(#[trigger] s[i]) by {
            if i < rest.len() {
                assert(s[i] == rest[i]);
            }
        }
        if to > 0 {
            assert(rest[to - 1] == s[to - 1]);
        }
        to
    } else {
        assert(s.subrange(0, s.len() as int) == s);
        s.len() as int
    }
}

/// Trimming cuts blanks and nothing else: what is left is one stretch of
/// the sequence, all that lies before and after it is blank, and it
/// neither starts nor ends with a blank.
pub proof fn lemma_trim(s: Seq<u8>) -> (cut: (int, int))
    ensures
        0 <= cut.0 <= cut.1 <= s.len(),
        trim(s) == s.subrange(cut.0, cut.1),
        forall|i: int| 0 <= i < cut.0 ==> is_blank(#[trigger] s[i]),
        forall|i: int| cut.1 <= i < s.len() ==> is_blank(#[trigger] s[i]),
        cut.0 < cut.1 ==> !is_blank(s[cut.0]) && !is_blank(s[cut.1 - 1]),
{
    let from = lemma_trim_start(s);
    let tail = s.subrange(from, s.len() as int);
    let to = lemma_trim_end(tail);
    assert(tail.subrange(0, to) == s.subrange(from, from + to));
    assert forall|i: int| from + to <= i < s.len() implies is_blank(#[trigger] s[i]) by {
        assert(s[i] == tail[i - from]);
    }
    if to > 0 {
        assert(tail[to - 1] == s[from + to - 1]);
    }
    (from, from + to)
}

/// The characters that ASCII bytes stand for.
pub open spec fn as_chars(s: Seq<u8>) -> Seq<char> {
    s.map_values(|b: u8| b as char)
}

/// The bytes of a decoded text: what is left of a field when all but its
/// content before the first end-of-transmission byte is dropped and the
/// blanks at either end are cut.
pub open spec fn kept_bytes(raw: Seq<u8>) -> Seq<u8> {
    trim(before_eot(raw).filter(|b: u8| is_content(b)))
}

/// The text that the raw bytes of a field hold.
pub open spec fn text_of(raw: Seq<u8>) -> Seq<char> {
    as_chars(kept_bytes(raw))
}

/// A decoded text holds content only: none of its bytes is null, above
/// 7-bit ASCII, or an end-of-transmission byte; and it is no longer than
/// the field.
pub proof fn lemma_text_is_content(raw: Seq<u8>)
    ensures
        text_of(raw) == as_chars(kept_bytes(raw)),
        kept_bytes(raw).len() <= raw.len(),
        forall|i: int|
            0 <= i < kept_bytes(raw).len() ==> is_content(#[trigger] kept_bytes(raw)[i])
                && kept_bytes(raw)[i] != EOT,
{
    let keep = |b: u8| is_content(b);
    let head = before_eot(raw);
    let content = head.filter(keep);
    raw.index_of_first_ensures(EOT);
    assert forall|i: int| 0 <= i < head.len() implies #[trigger] head[i] != EOT by {
        match raw.index_of_first(EOT) {
            Some(first) => {
                assert(head[i] == raw[i]);
            },
            None => {
                assert(raw.contains(raw[i]));
            },
        }
    }
    head.lemma_filter_len(keep);
    assert forall|i: int| 0 <= i < content.len() implies is_content(#[trigger] content[i])
        && content[i] != EOT by {
        head.lemma_filter_pred(keep, i);
        head.lemma_filter_contains_rev(keep, content[i]);
    }
    let cut = lemma_trim(content);
    assert forall|i: int| 0 <= i < kept_bytes(raw).len() implies is_content(
        #[trigger] kept_bytes(raw)[i],
    ) && kept_bytes(raw)[i] != EOT by {
        assert(kept_bytes(raw)[i] == content[cut.0 + i]);
    }
}

/// The position `at`, kept within a source of `len` bytes.
pub open spec fn clip(at: int, len: nat) -> int {
    if at < 0 {
        0
    } else if at > len {
        len as int
    } else {
        at
    }
}

/// The raw bytes of the field that starts at `offset` and is declared
/// `maxlen` bytes long: at most `maxlen - 1` bytes, and fewer where the
/// source ends first.
pub open spec fn field_bytes(bytes: Seq<u8>, offset: int, maxlen: int) -> Seq<u8> {
    let lo = clip(offset, bytes.len());
    let hi = clip(offset + maxlen - 1, bytes.len());
    if lo < hi {
        bytes.subrange(lo, hi)
    } else {
        Seq::empty()
    }
}

/// The text of the field that starts at `offset` and is declared `maxlen`
/// bytes long.
pub open spec fn text_at(bytes: Seq<u8>, offset: int, maxlen: int) -> Seq<char> {
    text_of(field_bytes(bytes, offset, maxlen))
}

/// `String::push` of the standard library: the string afterwards is the
/// string before with the one character added at its end.
pub assume_specification[ String::push ](s: &mut String, ch: char)
    ensures
        final(s)@ == old(s)@.push(ch),
;

/// Whether `b` is white space.
fn blank(b: u8) -> (r: bool)
    ensures
        r == is_blank(b),
{
    b == 0x20 || (0x09 <= b && b <= 0x0d)
}

/// Copies the content bytes of `src[lo..hi]` that lie before the first
/// end-of-transmission byte.
fn content(src: &[u8], lo: usize, hi: usize) -> (kept: Vec<u8>)
    requires
        lo <= hi <= src@.len(),
    ensures
        kept@ == before_eot(src@.subrange(lo as int, hi as int)).filter(|b: u8| is_content(b)),
{
    let ghost raw = src@.subrange(lo as int, hi as int);
    let ghost keep = |b: u8| is_content(b);
    let mut kept: Vec<u8> = Vec::new();
    let mut i: usize = lo;
    let mut ended: bool = false;
    proof {
        reveal(Seq::filter);
        assert(raw.take(0).filter(keep) == Seq::<u8>::empty());
    }
    while i < hi && !ended
        invariant
            lo <= i <= hi <= src@.len(),
            raw == src@.subrange(lo as int, hi as int),
            keep == (|b: u8| is_content(b)),
            forall|j: int| 0 <= j < i - lo ==> raw[j] != EOT,
            ended ==> i < hi && raw[i - lo] == EOT,
            kept@ == raw.take(i - lo).filter(keep),
        decreases hi - i + if ended { 0int } else { 1int },
    {
        let b: u8 = src[i];
        if b == EOT {
            ended = true;
        } else {
            proof {
                reveal(Seq::filter);
                assert(raw.take(i - lo + 1).drop_last() == raw.take(i - lo));
                assert(raw.take(i - lo + 1).last() == b);
            }
            if b != 0 && b < 0x80 {
                kept.push(b);
            }
            i = i + 1;
        }
    }
    proof {
        raw.index_of_first_ensures(EOT);
        if ended {
            assert(raw.contains(EOT));
            assert(raw.index_of_first(EOT) == Some(i - lo));
        } else {
            assert(raw.take(i - lo) == raw);
            assert(!raw.contains(EOT));
        }
    }
    kept
}

/// Decodes the text that the bytes `src[lo..hi]` hold.
pub fn get_text(src: &[u8], lo: usize, hi: usize) -> (text: String)
    requires
        lo <= hi <= src@.len(),
    ensures
        text@ == text_of(src@.subrange(lo as int, hi as int)),
{
    let kept: Vec<u8> = content(src, lo, hi);
    let mut first: usize = 0;
    assert(kept@.subrange(0, kept@.len() as int) == kept@);
    while first < kept.len() && blank(kept[first])
        invariant
            first <= kept@.len(),
            trim_start(kept@) == trim_start(kept@.subrange(first as int, kept@.len() as int)),
        decreases kept@.len() - first,
    {
        proof {
            let rest = kept@.subrange(first as int, kept@.len() as int);
            assert(rest.drop_first() == kept@.subrange(first + 1, kept@.len() as int));
        }
        first = first + 1;
    }
    let mut last: usize = kept.len();
    while last > first && blank(kept[last - 1])
        invariant
            first <= last <= kept@.len(),
            trim(kept@) == trim_end(kept@.subrange(first as int, last as int)),
        decreases last,
    {
        proof {
            let rest = kept@.subrange(first as int, last as int);
            assert(rest.drop_last() == kept@.subrange(first as int, last - 1));
        }
        last = last - 1;
    }
    let mut out: String = String::new();
    let mut i: usize = first;
    while i < last
        invariant
            first <= i <= last <= kept@.len(),
            out@ == as_chars(kept@.subrange(first as int, i as int)),
        decreases last - i,
    {
        out.push(kept[i] as char);
        assert(kept@.subrange(first as int, i + 1) == kept@.subrange(first as int, i as int).push(
            kept@[i as int],
        ));
        i = i + 1;
    }
    out
}

/// Finds the bytes of the field that starts `shift` bytes after `base` and
/// is declared `maxlen` bytes long: they are `src[lo..hi]`.
pub fn field_window(src: &[u8], base: u64, shift: u64, maxlen: u64) -> (window: (usize, usize))
    ensures
        window.0 <= window.1 <= src@.len(),
        field_bytes(src@, base + shift, maxlen as int) == src@.subrange(
            window.0 as int,
            window.1 as int,
        ),
{
    let len: usize = src.len();
    let lo: usize = if base > len as u64 || shift > len as u64 - base {
        len
    } else {
        (base + shift) as usize
    };
    let most: u64 = if maxlen == 0 {
        0
    } else {
        maxlen - 1
    };
    let hi: usize = if most > (len - lo) as u64 {
        len
    } else {
        lo + most as usize
    };
    (lo, hi)
}

/// Reads the text field that starts at `offset` and is declared `maxlen`
/// bytes long. At most `maxlen - 1` bytes are looked at; the end of the
/// source ends the field and is no error.
pub fn get_string(src: &[u8], offset: u64, maxlen: u64) -> (r: Result<String, DAFError>)
    ensures
        r matches Ok(s) && s@ == text_at(src@, offset as int, maxlen as int),
{
    let (lo, hi) = field_window(src, offset, 0, maxlen);
    Ok(get_text(src, lo, hi))
}

} // verus!
