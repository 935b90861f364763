//! An open file: the fields of its file record, the layout that follows
//! from them, and the cursor of the traversal of its summaries.

use crate::cursor::{Cursor, Step};
use crate::double::Double;
use crate::error::{DAFError, FormatFault};
use crate::layout::{record_address, DAFKind, FileLayout, RECORD_SIZE};
use crate::primitive::{
    char_at, decode_i32, double_at, doubles_at, get_char, get_f64, get_f64vec, get_i32, i32_at,
    i32_in, widen, widened, Endian, ENDIAN_OFFSET,
};
use crate::segment::{
    outcome_view, BPCKSegment, CKSegment, DAFSegment, DAFSegmentView, SPKSegment,
};
use crate::text::{clip, field_window, get_string, get_text, text_at, text_of};
use vstd::prelude::*;

verus! {

/// The offset of the file-type marker in a file record.
pub const TYPE_OFFSET: u64 = 4;

/// The offset of the number of doubles in a summary.
pub const ND_OFFSET: u64 = 8;

/// The offset of the number of integers in a summary.
pub const NI_OFFSET: u64 = 12;

/// The offset of the internal name of the file.
pub const NAME_OFFSET: u64 = 16;

/// The declared size of the internal name of the file.
pub const NAME_SIZE: u64 = 60;

/// The offset of the number of the first summary record.
pub const FWARD_OFFSET: u64 = 76;

/// The offset of the number of the last summary record.
pub const BWARD_OFFSET: u64 = 80;

/// The offset of the first free address.
pub const FREE_OFFSET: u64 = 84;

/// The offset of the string that detects a damaged transfer.
pub const FTP_OFFSET: u64 = 699;

/// The declared size of the string that detects a damaged transfer.
pub const FTP_SIZE: u64 = 28;

/// What a file says of itself.
#[derive(Debug)]
pub struct DAFHeader {
    /// The internal name of the file.
    pub name: String,
    /// The text that lies between the file record and the first summary
    /// record.
    pub comment: String,
    /// The kind of data that the file holds.
    pub kind: DAFKind,
}

/// What a header holds.
pub struct DAFHeaderView {
    pub name: Seq<char>,
    pub comment: Seq<char>,
    pub kind: DAFKind,
}

impl View for DAFHeader {
    type V = DAFHeaderView;

    open spec fn view(&self) -> DAFHeaderView {
        DAFHeaderView { name: self.name@, comment: self.comment@, kind: self.kind }
    }
}

/// A file that has been opened: its bytes, what its file record says, and
/// where the traversal of its summaries stands.
#[derive(Debug)]
pub struct DAFFile {
    data: Vec<u8>,
    endian: Endian,
    daf_type: char,
    layout: FileLayout,
    locifn: String,
    fward: u64,
    bward: u64,
    free_address: u64,
    ftpstr: String,
    cursor: Cursor,
}

/// What an open file holds.
pub struct DAFFileView {
    /// The bytes of the file.
    pub bytes: Seq<u8>,
    /// The byte order of its multi-byte values.
    pub endian: Endian,
    /// The file-type marker.
    pub daf_type: char,
    /// The sizes that follow from the file record.
    pub layout: FileLayout,
    /// The internal name of the file.
    pub locifn: Seq<char>,
    /// The number of the first summary record.
    pub fward: u64,
    /// The number of the last summary record.
    pub bward: u64,
    /// The first free address.
    pub free_address: u64,
    /// The string that detects a damaged transfer.
    pub ftpstr: Seq<char>,
    /// Where the traversal stands.
    pub cursor: Cursor,
}

/// The file-type marker of a file, or why the file cannot be decoded: the
/// marker cannot be read, is not ASCII, or is none of `S`, `C`, `P`.
pub open spec fn marker_of(bytes: Seq<u8>) -> Result<char, DAFError> {
    match char_at(bytes, TYPE_OFFSET) {
        Err(e) => Err(e),
        Ok(marker) => if DAFKind::of_marker(marker) == DAFKind::Unknown {
            Err(DAFError::Format(FormatFault::FileType { found: bytes[TYPE_OFFSET as int] }))
        } else {
            Ok(marker)
        },
    }
}

/// The integer that a file record holds at the offset `at`.
pub open spec fn record_i32(bytes: Seq<u8>, endian: Endian, at: u64) -> i32 {
    decode_i32(bytes.subrange(at as int, at + 4), endian)
}

impl DAFFileView {
    /// What opening a file gives: the file with its cursor at the first
    /// summary record, or the first of these failures. The byte order
    /// cannot be told; the file is of no kind that can be decoded; the
    /// counts or the record numbers of the file record are out of range;
    /// the control words of the first summary record cannot be read.
    pub open spec fn opened(bytes: Seq<u8>) -> Result<DAFFileView, DAFError> {
        match Endian::of_file(bytes) {
            Err(e) => Err(e),
            Ok(endian) => match marker_of(bytes) {
                Err(e) => Err(e),
                Ok(daf_type) => {
                    let fward = record_i32(bytes, endian, FWARD_OFFSET);
                    let bward = record_i32(bytes, endian, BWARD_OFFSET);
                    match FileLayout::of(
                        record_i32(bytes, endian, ND_OFFSET),
                        record_i32(bytes, endian, NI_OFFSET),
                        fward,
                        bward,
                    ) {
                        Err(e) => Err(e),
                        Ok(layout) => match Cursor::start_of(bytes, fward as u64, endian) {
                            Err(e) => Err(e),
                            Ok(cursor) => Ok(
                                DAFFileView {
                                    bytes,
                                    endian,
                                    daf_type,
                                    layout,
                                    locifn: text_at(bytes, NAME_OFFSET as int, NAME_SIZE as int),
                                    fward: fward as u64,
                                    bward: bward as u64,
                                    free_address: widened(record_i32(bytes, endian, FREE_OFFSET)),
                                    ftpstr: text_at(bytes, FTP_OFFSET as int, FTP_SIZE as int),
                                    cursor,
                                },
                            ),
                        },
                    }
                },
            },
        }
    }

    /// Whether the file is of a kind that can be decoded, its record
    /// numbers and sizes are those that a file record can give, and its
    /// cursor stands at an address that fits in 64 bits.
    pub open spec fn wf(self) -> bool {
        &&& DAFKind::of_marker(self.daf_type) != DAFKind::Unknown
        &&& 1 <= self.fward <= self.bward <= i32::MAX
        &&& self.layout.wf()
        &&& self.layout.name_record_offset == RECORD_SIZE * (self.bward - self.fward + 1)
        &&& self.cursor.wf(self.layout)
    }

    /// The kind of data that the file holds.
    pub open spec fn kind(self) -> DAFKind {
        DAFKind::of_marker(self.daf_type)
    }

    /// The text between the file record and the first summary record:
    /// none where the first summary record is record 2 or lies before it.
    pub open spec fn comment(self) -> Seq<char> {
        if self.fward > 2 {
            text_of(
                self.bytes.subrange(
                    clip(RECORD_SIZE as int, self.bytes.len()),
                    clip(record_address(self.fward), self.bytes.len()),
                ),
            )
        } else {
            Seq::empty()
        }
    }

    /// What the file says of itself.
    pub open spec fn header(self) -> DAFHeaderView {
        DAFHeaderView { name: self.locifn, comment: self.comment(), kind: self.kind() }
    }

    /// The segment that the summary at `sumptr` describes, as the decoder
    /// for the file's kind reads it.
    pub open spec fn segment_at(self, sumptr: u64) -> Result<DAFSegmentView, DAFError> {
        match self.kind() {
            DAFKind::SPK => match SPKSegment::at(self.bytes, self.endian, self.layout, sumptr) {
                Ok(segment) => Ok(DAFSegmentView::SPK(segment)),
                Err(e) => Err(e),
            },
            DAFKind::CK => match CKSegment::at(self.bytes, self.endian, self.layout, sumptr) {
                Ok(segment) => Ok(DAFSegmentView::CK(segment)),
                Err(e) => Err(e),
            },
            DAFKind::BPCK => match BPCKSegment::at(self.bytes, self.endian, self.layout, sumptr) {
                Ok(segment) => Ok(DAFSegmentView::BPCK(segment)),
                Err(e) => Err(e),
            },
            DAFKind::Unknown => Err(
                DAFError::Format(FormatFault::FileType { found: self.daf_type as u8 }),
            ),
        }
    }

    /// The same file with its cursor at another place.
    pub open spec fn at_cursor(self, cursor: Cursor) -> DAFFileView {
        DAFFileView { cursor, ..self }
    }

    /// One step of the traversal from where the cursor stands.
    pub open spec fn step(self) -> (Cursor, Step) {
        self.cursor.step(self.bytes, self.endian, self.layout)
    }

    /// The step that leaves the current record.
    pub open spec fn record_step(self) -> (Cursor, Step) {
        self.cursor.record_step(self.bytes, self.endian, self.layout)
    }

    /// What the next step of the traversal yields: the segment at the
    /// address that the step gives out, the failure of the step or of the
    /// decoder, or nothing at the end of the list.
    pub open spec fn next_segment(self) -> Option<Result<DAFSegmentView, DAFError>> {
        match self.step().1 {
            None => None,
            Some(Err(e)) => Some(Err(e)),
            Some(Ok(sumptr)) => Some(self.segment_at(sumptr)),
        }
    }
}

impl View for DAFFile {
    type V = DAFFileView;

    closed spec fn view(&self) -> DAFFileView {
        DAFFileView {
            bytes: self.data@,
            endian: self.endian,
            daf_type: self.daf_type,
            layout: self.layout,
            locifn: self.locifn@,
            fward: self.fward,
            bward: self.bward,
            free_address: self.free_address,
            ftpstr: self.ftpstr@,
            cursor: self.cursor,
        }
    }
}

/// What the outcome of a step that yields a segment holds.
pub open spec fn yield_view(r: Option<Result<DAFSegment, DAFError>>) -> Option<
    Result<DAFSegmentView, DAFError>,
> {
    match r {
        None => None,
        Some(outcome) => Some(outcome_view(outcome)),
    }
}

impl DAFFile {
    /// Whether the file is as `from_file` leaves it and the traversal keeps
    /// it.
    pub open spec fn wf(&self) -> bool {
        self@.wf()
    }

    /// Opens a file from its bytes.
    ///
    /// The byte order is told first, then the kind of the file; a file of
    /// another kind is refused before anything else is read. Then come the
    /// fields of the file record, the layout that follows from them, and
    /// the control words of the first summary record, at which the cursor
    /// is set.
    pub fn from_file(file: Vec<u8>) -> (r: Result<DAFFile, DAFError>)
        ensures
            match r {
                Ok(daf) => DAFFileView::opened(file@) == Ok::<DAFFileView, DAFError>(daf@)
                    && daf.wf(),
                Err(e) => DAFFileView::opened(file@) == Err::<DAFFileView, DAFError>(e),
            },
            // A byte-order marker that is ASCII and none of `B`, `b`, `L`,
            // `l` is a format error.
            file@.len() > ENDIAN_OFFSET && file@[ENDIAN_OFFSET as int] < 0x80 && Endian::of_marker(
                file@[ENDIAN_OFFSET as int] as char,
            ) is None ==> r == Err::<DAFFile, DAFError>(
                DAFError::Format(FormatFault::Endianness { found: file@[ENDIAN_OFFSET as int] }),
            ),
            // So is, in a file whose byte order can be told, a file-type
            // marker that is ASCII and none of `S`, `C`, `P`.
            Endian::of_file(file@) is Ok && file@[TYPE_OFFSET as int] < 0x80 && DAFKind::of_marker(
                file@[TYPE_OFFSET as int] as char,
            ) == DAFKind::Unknown ==> r == Err::<DAFFile, DAFError>(
                DAFError::Format(FormatFault::FileType { found: file@[TYPE_OFFSET as int] }),
            ),
            // No file is opened whose markers are not among those.
            r is Ok ==> file@.len() > ENDIAN_OFFSET && Endian::of_marker(
                file@[ENDIAN_OFFSET as int] as char,
            ) is Some && DAFKind::of_marker(file@[TYPE_OFFSET as int] as char) != DAFKind::Unknown,
    {
        let src: &[u8] = file.as_slice();
        let endian: Endian = match Endian::from_daf_file(src) {
            Ok(endian) => endian,
            Err(e) => {
                return Err(e);
            },
        };
        let daf_type: char = match get_char(src, TYPE_OFFSET) {
            Ok(marker) => marker,
            Err(e) => {
                return Err(e);
            },
        };
        if DAFKind::from_marker(daf_type) == DAFKind::Unknown {
            return Err(
                DAFError::Format(FormatFault::FileType { found: src[TYPE_OFFSET as usize] }),
            );
        }
        let nd: i32 = i32_in(src, ND_OFFSET, &endian);
        let ni: i32 = i32_in(src, NI_OFFSET, &endian);
        let (name_lo, name_hi) = field_window(src, NAME_OFFSET, 0, NAME_SIZE);
        let locifn: String = get_text(src, name_lo, name_hi);
        let fward: i32 = i32_in(src, FWARD_OFFSET, &endian);
        let bward: i32 = i32_in(src, BWARD_OFFSET, &endian);
        let free: i32 = i32_in(src, FREE_OFFSET, &endian);
        let (ftp_lo, ftp_hi) = field_window(src, FTP_OFFSET, 0, FTP_SIZE);
        let ftpstr: String = get_text(src, ftp_lo, ftp_hi);
        let layout: FileLayout = match FileLayout::new(nd, ni, fward, bward) {
            Ok(layout) => layout,
            Err(e) => {
                return Err(e);
            },
        };
        let cursor: Cursor = match Cursor::start(src, fward as u64, &endian) {
            Ok(cursor) => cursor,
            Err(e) => {
                return Err(e);
            },
        };
        Ok(
            DAFFile {
                data: file,
                endian,
                daf_type,
                layout,
                locifn,
                fward: fward as u64,
                bward: bward as u64,
                free_address: widen(free),
                ftpstr,
                cursor,
            },
        )
    }

    /// The bytes of the file.
    pub fn source(&self) -> (src: &[u8])
        ensures
            src@ == self@.bytes,
    {
        self.data.as_slice()
    }

    /// The byte order of the file.
    pub fn endian(&self) -> (endian: Endian)
        ensures
            endian == self@.endian,
    {
        self.endian
    }

    /// The string of the file record that detects a damaged transfer.
    pub fn ftpstr(&self) -> (text: &String)
        ensures
            text@ == self@.ftpstr,
    {
        &self.ftpstr
    }

    /// The internal name of the file.
    pub fn name(&self) -> (text: &String)
        ensures
            text@ == self@.locifn,
    {
        &self.locifn
    }

    /// The sizes that follow from the file record.
    pub fn layout(&self) -> (layout: FileLayout)
        ensures
            layout == self@.layout,
    {
        self.layout
    }

    /// Where the traversal stands.
    pub fn cursor(&self) -> (cursor: Cursor)
        ensures
            cursor == self@.cursor,
    {
        self.cursor
    }

    /// The number of the first summary record.
    pub fn fward(&self) -> (record: u64)
        ensures
            record == self@.fward,
    {
        self.fward
    }

    /// The number of the last summary record.
    pub fn bward(&self) -> (record: u64)
        ensures
            record == self@.bward,
    {
        self.bward
    }

    /// The first free address of the file.
    pub fn free_address(&self) -> (address: u64)
        ensures
            address == self@.free_address,
    {
        self.free_address
    }

    /// The kind of data that the file holds.
    pub fn kind(&self) -> (kind: DAFKind)
        ensures
            kind == self@.kind(),
    {
        DAFKind::from_marker(self.daf_type)
    }

    /// Reads the double stored at `offset`.
    pub fn read_f64(&self, offset: u64) -> (r: Result<Double, DAFError>)
        ensures
            r == double_at(self@.bytes, offset, self@.endian),
    {
        get_f64(self.data.as_slice(), offset, &self.endian)
    }

    /// Reads the doubles of the address range from `offset1` up to
    /// `offset2`.
    pub fn read_f64vec(&self, offset1: u64, offset2: u64) -> (r: Result<Vec<Double>, DAFError>)
        ensures
            match r {
                Ok(v) => doubles_at(self@.bytes, offset1, offset2, self@.endian) == Ok::<
                    Seq<Double>,
                    DAFError,
                >(v@),
                Err(e) => doubles_at(self@.bytes, offset1, offset2, self@.endian) == Err::<
                    Seq<Double>,
                    DAFError,
                >(e),
            },
    {
        get_f64vec(self.data.as_slice(), offset1, offset2, &self.endian)
    }

    /// Reads the single ASCII character stored at `offset`.
    pub fn read_char(&self, offset: u64) -> (r: Result<char, DAFError>)
        ensures
            r == char_at(self@.bytes, offset),
    {
        get_char(self.data.as_slice(), offset)
    }

    /// Reads the 32-bit signed integer stored at `offset`.
    pub fn read_i32(&self, offset: u64) -> (r: Result<i32, DAFError>)
        ensures
            r == i32_at(self@.bytes, offset, self@.endian),
    {
        get_i32(self.data.as_slice(), offset, &self.endian)
    }

    /// Reads the text field that starts at `offset` and is declared
    /// `maxlen` bytes long.
    pub fn read_string(&self, offset: u64, maxlen: u64) -> (r: Result<String, DAFError>)
        ensures
            r matches Ok(text) && text@ == text_at(self@.bytes, offset as int, maxlen as int),
    {
        get_string(self.data.as_slice(), offset, maxlen)
    }

    /// The text that lies between the file record and the first summary
    /// record.
    pub fn comment(&self) -> (r: Result<String, DAFError>)
        ensures
            r matches Ok(text) && text@ == self@.comment(),
            // Where the first summary record follows the file record, there
            // is no comment.
            self@.fward <= 2 ==> (r matches Ok(text) && text@.len() == 0),
            // Else the comment is the text of the bytes from record 2 up to
            // the first summary record, as far as the file holds them.
            self@.fward > 2 ==> (r matches Ok(text) && text@ == text_of(
                self@.bytes.subrange(
                    clip(RECORD_SIZE as int, self@.bytes.len()),
                    clip(RECORD_SIZE * (self@.fward - 1), self@.bytes.len()),
                ),
            )),
    {
        if self.fward > 2 {
            let src: &[u8] = self.data.as_slice();
            let len: usize = src.len();
            let lo: usize = if RECORD_SIZE > len as u64 {
                len
            } else {
                RECORD_SIZE as usize
            };
            let hi: usize = if self.fward - 1 > len as u64 / RECORD_SIZE {
                len
            } else {
                (RECORD_SIZE * (self.fward - 1)) as usize
            };
            Ok(get_text(src, lo, hi))
        } else {
            Ok(String::new())
        }
    }

    /// What the file says of itself.
    pub fn daf_header(&self) -> (r: Result<DAFHeader, DAFError>)
        ensures
            r matches Ok(header) && header@ == self@.header(),
    {
        let comment: String = match self.comment() {
            Ok(text) => text,
            Err(e) => {
                return Err(e);
            },
        };
        Ok(
            DAFHeader {
                name: self.locifn.clone(),
                comment,
                kind: DAFKind::from_marker(self.daf_type),
            },
        )
    }

    /// Decodes the segment that the summary at `offset` describes, with the
    /// decoder for the file's kind.
    pub fn segment_reader(&self, offset: u64) -> (r: Result<DAFSegment, DAFError>)
        ensures
            outcome_view(r) == self@.segment_at(offset),
    {
        match DAFKind::from_marker(self.daf_type) {
            DAFKind::SPK => SPKSegment::reader(self, offset),
            DAFKind::CK => CKSegment::reader(self, offset),
            DAFKind::BPCK => BPCKSegment::reader(self, offset),
            DAFKind::Unknown => Err(
                DAFError::Format(FormatFault::FileType { found: self.daf_type as u8 }),
            ),
        }
    }

    /// The address of the summary that the cursor stands at.
    pub fn current_ptr(&self) -> (address: u64)
        requires
            self.wf(),
        ensures
            address == self@.cursor.pointer(self@.layout),
    {
        self.cursor.current_ptr(&self.layout)
    }

    /// Leaves the current record for the next one: the cursor moves to
    /// summary 0 of that record, whose address is given out. Only the
    /// cursor changes, and a failure leaves it where it was.
    pub fn advance_record(&mut self) -> (r: Step)
        requires
            old(self).wf(),
        ensures
            final(self).wf(),
            final(self)@ == old(self)@.at_cursor(old(self)@.record_step().0),
            r == old(self)@.record_step().1,
    {
        let (cursor, out) = self.cursor.advance_record(
            self.data.as_slice(),
            &self.endian,
            &self.layout,
        );
        self.cursor = cursor;
        out
    }

    /// Takes one step of the traversal and gives out the address of the
    /// summary that it arrives at. Only the cursor changes, and a failure
    /// leaves it where it was.
    pub fn advance_segment(&mut self) -> (r: Step)
        requires
            old(self).wf(),
        ensures
            final(self).wf(),
            final(self)@ == old(self)@.at_cursor(old(self)@.step().0),
            r == old(self)@.step().1,
    {
        let (cursor, out) = self.cursor.advance_segment(
            self.data.as_slice(),
            &self.endian,
            &self.layout,
        );
        self.cursor = cursor;
        out
    }

    /// Takes one step of the traversal and decodes the segment that it
    /// arrives at.
    pub fn next(&mut self) -> (r: Option<Result<DAFSegment, DAFError>>)
        requires
            old(self).wf(),
        ensures
            final(self).wf(),
            final(self)@ == old(self)@.at_cursor(old(self)@.step().0),
            yield_view(r) == old(self)@.next_segment(),
    {
        match self.advance_segment() {
            Some(Ok(sumptr)) => Some(self.segment_reader(sumptr)),
            Some(Err(e)) => Some(Err(e)),
            None => None,
        }
    }
}

} // verus!
