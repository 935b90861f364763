//! Decoder for NAIF/SPICE "DAF" (Double-precision Array File) archives.
//!
//! The library works on the bytes of a file held in memory and turns them
//! into a typed, in-memory description of the file: its header and the
//! segments found by walking the linked list of summary records.

pub mod chain;
pub mod cursor;
pub mod data;
pub mod double;
pub mod error;
pub mod file;
pub mod layout;
pub mod primitive;
pub mod segment;
pub mod text;

pub use cursor::Cursor;
pub use data::DAFData;
pub use double::Double;
pub use error::{DAFError, FormatFault};
pub use file::{DAFFile, DAFHeader};
pub use layout::{DAFKind, FileLayout};
pub use primitive::{get_char, get_f64, get_f64vec, get_i32, Endian};
pub use segment::{BPCKSegment, CKSegment, DAFSegment, SPKSegment};
pub use text::get_string;
