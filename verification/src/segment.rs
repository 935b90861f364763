//! The segments of a file and their decoders, one for each kind of file.
//!
//! A summary describes one array stored elsewhere in the file: two doubles
//! that bound the time it covers, a few integer codes, and the address
//! range of its data. The name of the array lies at a fixed distance from
//! the summary. The data are taken as they are, a run of doubles that is
//! not interpreted here.

use crate::double::Double;
use crate::error::DAFError;
use crate::file::DAFFile;
use crate::layout::FileLayout;
use crate::primitive::{
    decode_double, decode_i32, double_in, doubles_at, get_f64vec, i32_in, in_bounds, readable,
    short_read, short_read_error, widen, widened, Endian,
};
use crate::text::{field_window, get_text, text_at};
use vstd::prelude::*;

verus! {

/// The size in bytes of the part of a summary that the decoder of an
/// ephemeris file reads.
pub const SPK_SUMMARY_SIZE: u64 = 40;

/// The size in bytes of the part of a summary that the decoder of an
/// attitude file reads.
pub const CK_SUMMARY_SIZE: u64 = 40;

/// The size in bytes of the part of a summary that the decoder of a file of
/// planetary constants reads.
pub const BPCK_SUMMARY_SIZE: u64 = 36;

/// A segment of an ephemeris file.
#[derive(Debug)]
pub struct SPKSegment {
    pub name: String,
    pub initial_epoch: Double,
    pub final_epoch: Double,
    pub target_code: i32,
    pub center_code: i32,
    pub frame_code: i32,
    pub spk_type: i32,
    pub data: Vec<Double>,
}

/// A segment of an attitude file.
#[derive(Debug)]
pub struct CKSegment {
    pub name: String,
    pub initial_sclk: Double,
    pub final_sclk: Double,
    pub instrument_code: i32,
    pub frame_code: i32,
    pub ck_type: i32,
    pub rates: bool,
    pub data: Vec<Double>,
}

/// A segment of a file of binary planetary constants.
#[derive(Debug)]
pub struct BPCKSegment {
    pub name: String,
    pub initial_epoch: Double,
    pub final_epoch: Double,
    pub frame_id: i32,
    pub base_frame: i32,
    pub bpck_type: i32,
    pub data: Vec<Double>,
}

/// A segment of a file, of the kind that the file holds.
#[derive(Debug)]
pub enum DAFSegment {
    SPK(SPKSegment),
    CK(CKSegment),
    BPCK(BPCKSegment),
}

/// What a segment of an ephemeris file holds.
pub struct SPKSegmentView {
    pub name: Seq<char>,
    pub initial_epoch: Double,
    pub final_epoch: Double,
    pub target_code: i32,
    pub center_code: i32,
    pub frame_code: i32,
    pub spk_type: i32,
    pub data: Seq<Double>,
}

/// What a segment of an attitude file holds.
pub struct CKSegmentView {
    pub name: Seq<char>,
    pub initial_sclk: Double,
    pub final_sclk: Double,
    pub instrument_code: i32,
    pub frame_code: i32,
    pub ck_type: i32,
    pub rates: bool,
    pub data: Seq<Double>,
}

/// What a segment of a file of binary planetary constants holds.
pub struct BPCKSegmentView {
    pub name: Seq<char>,
    pub initial_epoch: Double,
    pub final_epoch: Double,
    pub frame_id: i32,
    pub base_frame: i32,
    pub bpck_type: i32,
    pub data: Seq<Double>,
}

/// What a segment holds.
pub enum DAFSegmentView {
    SPK(SPKSegmentView),
    CK(CKSegmentView),
    BPCK(BPCKSegmentView),
}

impl View for SPKSegment {
    type V = SPKSegmentView;

    open spec fn view(&self) -> SPKSegmentView {
        SPKSegmentView {
            name: self.name@,
            initial_epoch: self.initial_epoch,
            final_epoch: self.final_epoch,
            target_code: self.target_code,
            center_code: self.center_code,
            frame_code: self.frame_code,
            spk_type: self.spk_type,
            data: self.data@,
        }
    }
}

impl View for CKSegment {
    type V = CKSegmentView;

    open spec fn view(&self) -> CKSegmentView {
        CKSegmentView {
            name: self.name@,
            initial_sclk: self.initial_sclk,
            final_sclk: self.final_sclk,
            instrument_code: self.instrument_code,
            frame_code: self.frame_code,
            ck_type: self.ck_type,
            rates: self.rates,
            data: self.data@,
        }
    }
}

impl View for BPCKSegment {
    type V = BPCKSegmentView;

    open spec fn view(&self) -> BPCKSegmentView {
        BPCKSegmentView {
            name: self.name@,
            initial_epoch: self.initial_epoch,
            final_epoch: self.final_epoch,
            frame_id: self.frame_id,
            base_frame: self.base_frame,
            bpck_type: self.bpck_type,
            data: self.data@,
        }
    }
}

impl View for DAFSegment {
    type V = DAFSegmentView;

    open spec fn view(&self) -> DAFSegmentView {
        match self {
            DAFSegment::SPK(s) => DAFSegmentView::SPK(s@),
            DAFSegment::CK(s) => DAFSegmentView::CK(s@),
            DAFSegment::BPCK(s) => DAFSegmentView::BPCK(s@),
        }
    }
}

/// What the outcome of a decoder holds.
pub open spec fn outcome_view(r: Result<DAFSegment, DAFError>) -> Result<DAFSegmentView, DAFError> {
    match r {
        Ok(segment) => Ok(segment@),
        Err(e) => Err(e),
    }
}

/// The integer field that lies `at` bytes into the summary at `sumptr`.
pub open spec fn summary_i32(bytes: Seq<u8>, endian: Endian, sumptr: u64, at: int) -> i32 {
    decode_i32(bytes.subrange(sumptr + at, sumptr + at + 4), endian)
}

/// The double field that lies `at` bytes into the summary at `sumptr`.
pub open spec fn summary_double(bytes: Seq<u8>, endian: Endian, sumptr: u64, at: int) -> Double {
    decode_double(bytes.subrange(sumptr + at, sumptr + at + 8), endian)
}

/// The name that goes with the summary at `sumptr`.
pub open spec fn name_at(bytes: Seq<u8>, layout: FileLayout, sumptr: u64) -> Seq<char> {
    text_at(bytes, sumptr + layout.name_record_offset, layout.nc as int)
}

/// The data of a summary whose address range is stored `at` bytes into it,
/// as two integers.
pub open spec fn data_at(bytes: Seq<u8>, endian: Endian, sumptr: u64, at: int) -> Result<
    Seq<Double>,
    DAFError,
> {
    doubles_at(
        bytes,
        widened(summary_i32(bytes, endian, sumptr, at)),
        widened(summary_i32(bytes, endian, sumptr, at + 4)),
        endian,
    )
}

impl SPKSegment {
    /// The segment that the summary at `sumptr` of an ephemeris file
    /// describes, or why it cannot be decoded: the summary does not lie
    /// within the file, or its data cannot be read.
    pub open spec fn at(bytes: Seq<u8>, endian: Endian, layout: FileLayout, sumptr: u64) -> Result<
        SPKSegmentView,
        DAFError,
    > {
        if !readable(bytes.len(), sumptr as int, SPK_SUMMARY_SIZE as int) {
            Err(short_read(bytes, sumptr, SPK_SUMMARY_SIZE))
        } else {
            match data_at(bytes, endian, sumptr, 32) {
                Err(e) => Err(e),
                Ok(data) => Ok(
                    SPKSegmentView {
                        name: name_at(bytes, layout, sumptr),
                        initial_epoch: summary_double(bytes, endian, sumptr, 0),
                        final_epoch: summary_double(bytes, endian, sumptr, 8),
                        target_code: summary_i32(bytes, endian, sumptr, 16),
                        center_code: summary_i32(bytes, endian, sumptr, 20),
                        frame_code: summary_i32(bytes, endian, sumptr, 24),
                        spk_type: summary_i32(bytes, endian, sumptr, 28),
                        data,
                    },
                ),
            }
        }
    }

    /// Decodes the segment that the summary at `sumptr` describes.
    pub fn reader(daf: &DAFFile, sumptr: u64) -> (r: Result<DAFSegment, DAFError>)
        ensures
            outcome_view(r) == match Self::at(daf@.bytes, daf@.endian, daf@.layout, sumptr) {
                Ok(segment) => Ok::<DAFSegmentView, DAFError>(DAFSegmentView::SPK(segment)),
                Err(e) => Err(e),
            },
    {
        let src: &[u8] = daf.source();
        let endian: Endian = daf.endian();
        let layout: FileLayout = daf.layout();
        if !in_bounds(src, sumptr, SPK_SUMMARY_SIZE) {
            return Err(short_read_error(src, sumptr, SPK_SUMMARY_SIZE));
        }
        assert(src@.len() == src.len());
        let data1: u64 = widen(i32_in(src, sumptr + 32, &endian));
        let data2: u64 = widen(i32_in(src, sumptr + 36, &endian));
        let (lo, hi) = field_window(src, sumptr, layout.name_record_offset, layout.nc);
        let name: String = get_text(src, lo, hi);
        let initial_epoch: Double = double_in(src, sumptr, &endian);
        let final_epoch: Double = double_in(src, sumptr + 8, &endian);
        let target_code: i32 = i32_in(src, sumptr + 16, &endian);
        let center_code: i32 = i32_in(src, sumptr + 20, &endian);
        let frame_code: i32 = i32_in(src, sumptr + 24, &endian);
        let spk_type: i32 = i32_in(src, sumptr + 28, &endian);
        match get_f64vec(src, data1, data2, &endian) {
            Err(e) => Err(e),
            Ok(data) => Ok(
                DAFSegment::SPK(
                    SPKSegment {
                        name,
                        initial_epoch,
                        final_epoch,
                        target_code,
                        center_code,
                        frame_code,
                        spk_type,
                        data,
                    },
                ),
            ),
        }
    }
}

impl CKSegment {
    /// The segment that the summary at `sumptr` of an attitude file
    /// describes, or why it cannot be decoded: the summary does not lie
    /// within the file, or its data cannot be read.
    pub open spec fn at(bytes: Seq<u8>, endian: Endian, layout: FileLayout, sumptr: u64) -> Result<
        CKSegmentView,
        DAFError,
    > {
        if !readable(bytes.len(), sumptr as int, CK_SUMMARY_SIZE as int) {
            Err(short_read(bytes, sumptr, CK_SUMMARY_SIZE))
        } else {
            match data_at(bytes, endian, sumptr, 32) {
                Err(e) => Err(e),
                Ok(data) => Ok(
                    CKSegmentView {
                        name: name_at(bytes, layout, sumptr),
                        initial_sclk: summary_double(bytes, endian, sumptr, 0),
                        final_sclk: summary_double(bytes, endian, sumptr, 8),
                        instrument_code: summary_i32(bytes, endian, sumptr, 16),
                        frame_code: summary_i32(bytes, endian, sumptr, 20),
                        ck_type: summary_i32(bytes, endian, sumptr, 24),
                        rates: summary_i32(bytes, endian, sumptr, 28) == 1,
                        data,
                    },
                ),
            }
        }
    }

    /// Decodes the segment that the summary at `sumptr` describes.
    pub fn reader(daf: &DAFFile, sumptr: u64) -> (r: Result<DAFSegment, DAFError>)
        ensures
            outcome_view(r) == match Self::at(daf@.bytes, daf@.endian, daf@.layout, sumptr) {
                Ok(segment) => Ok::<DAFSegmentView, DAFError>(DAFSegmentView::CK(segment)),
                Err(e) => Err(e),
            },
    {
        let src: &[u8] = daf.source();
        let endian: Endian = daf.endian();
        let layout: FileLayout = daf.layout();
        if !in_bounds(src, sumptr, CK_SUMMARY_SIZE) {
            return Err(short_read_error(src, sumptr, CK_SUMMARY_SIZE));
        }
        assert(src@.len() == src.len());
        let data1: u64 = widen(i32_in(src, sumptr + 32, &endian));
        let data2: u64 = widen(i32_in(src, sumptr + 36, &endian));
        let (lo, hi) = field_window(src, sumptr, layout.name_record_offset, layout.nc);
        let name: String = get_text(src, lo, hi);
        let initial_sclk: Double = double_in(src, sumptr, &endian);
        let final_sclk: Double = double_in(src, sumptr + 8, &endian);
        let instrument_code: i32 = i32_in(src, sumptr + 16, &endian);
        let frame_code: i32 = i32_in(src, sumptr + 20, &endian);
        let ck_type: i32 = i32_in(src, sumptr + 24, &endian);
        let rates: bool = i32_in(src, sumptr + 28, &endian) == 1;
        match get_f64vec(src, data1, data2, &endian) {
            Err(e) => Err(e),
            Ok(data) => Ok(
                DAFSegment::CK(
                    CKSegment {
                        name,
                        initial_sclk,
                        final_sclk,
                        instrument_code,
                        frame_code,
                        ck_type,
                        rates,
                        data,
                    },
                ),
            ),
        }
    }
}

impl BPCKSegment {
    /// The segment that the summary at `sumptr` of a file of planetary
    /// constants describes, or why it cannot be decoded: the summary does
    /// not lie within the file, or its data cannot be read.
    pub open spec fn at(bytes: Seq<u8>, endian: Endian, layout: FileLayout, sumptr: u64) -> Result<
        BPCKSegmentView,
        DAFError,
    > {
        if !readable(bytes.len(), sumptr as int, BPCK_SUMMARY_SIZE as int) {
            Err(short_read(bytes, sumptr, BPCK_SUMMARY_SIZE))
        } else {
            match data_at(bytes, endian, sumptr, 28) {
                Err(e) => Err(e),
                Ok(data) => Ok(
                    BPCKSegmentView {
                        name: name_at(bytes, layout, sumptr),
                        initial_epoch: summary_double(bytes, endian, sumptr, 0),
                        final_epoch: summary_double(bytes, endian, sumptr, 8),
                        frame_id: summary_i32(bytes, endian, sumptr, 16),
                        base_frame: summary_i32(bytes, endian, sumptr, 20),
                        bpck_type: summary_i32(bytes, endian, sumptr, 24),
                        data,
                    },
                ),
            }
        }
    }

    /// Decodes the segment that the summary at `sumptr` describes.
    pub fn reader(daf: &DAFFile, sumptr: u64) -> (r: Result<DAFSegment, DAFError>)
        ensures
            outcome_view(r) == match Self::at(daf@.bytes, daf@.endian, daf@.layout, sumptr) {
                Ok(segment) => Ok::<DAFSegmentView, DAFError>(DAFSegmentView::BPCK(segment)),
                Err(e) => Err(e),
            },
    {
        let src: &[u8] = daf.source();
        let endian: Endian = daf.endian();
        let layout: FileLayout = daf.layout();
        if !in_bounds(src, sumptr, BPCK_SUMMARY_SIZE) {
            return Err(short_read_error(src, sumptr, BPCK_SUMMARY_SIZE));
        }
        assert(src@.len() == src.len());
        let data1: u64 = widen(i32_in(src, sumptr + 28, &endian));
        let data2: u64 = widen(i32_in(src, sumptr + 32, &endian));
        let (lo, hi) = field_window(src, sumptr, layout.name_record_offset, layout.nc);
        let name: String = get_text(src, lo, hi);
        let initial_epoch: Double = double_in(src, sumptr, &endian);
        let final_epoch: Double = double_in(src, sumptr + 8, &endian);
        let frame_id: i32 = i32_in(src, sumptr + 16, &endian);
        let base_frame: i32 = i32_in(src, sumptr + 20, &endian);
        let bpck_type: i32 = i32_in(src, sumptr + 24, &endian);
        match get_f64vec(src, data1, data2, &endian) {
            Err(e) => Err(e),
            Ok(data) => Ok(
                DAFSegment::BPCK(
                    BPCKSegment {
                        name,
                        initial_epoch,
                        final_epoch,
                        frame_id,
                        base_frame,
                        bpck_type,
                        data,
                    },
                ),
            ),
        }
    }
}

} // verus!
