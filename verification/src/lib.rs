//! Parsers and utilities for PlayStation 1 disc images and file formats.
//!
//! The crate navigates an ISO 9660 filesystem stored as raw 2352-byte
//! sectors, decodes the common asset formats found on such discs (TIM
//! textures, VAG/VAB ADPCM audio, TMD models, XA streaming-audio
//! sub-headers, LZSS-compressed blobs, sector-addressed DAT archives),
//! and scans opaque byte regions for embedded assets.

use vstd::prelude::*;

pub mod bytes;
pub mod formats;
pub mod scanner;
pub mod state;
pub mod cdrom;

verus! {

/// Common error type for psxutils.
///
/// Every failure a parser can report is one of these categories; the
/// contracts of the parsing functions say exactly which inputs produce
/// which variant.
#[derive(Debug, Clone, Copy, PartialEq, Eq, Structural)]
pub enum PsxError {
    /// The disc image or file could not be read.
    Io,
    /// A path or file is absent from the filesystem.
    NotFound,
    /// A declared size exceeds the remaining buffer.
    Truncated,
    /// A magic number or signature did not match.
    InvalidSignature,
    /// A field value lies outside its allowed domain.
    InvalidField,
    /// An index or offset lies outside a table or buffer.
    OutOfBounds,
}

} // verus!
