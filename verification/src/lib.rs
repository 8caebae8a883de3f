//! Column-level codec for the Generic Feature Format (GFF), a nine-column
//! tab-delimited genomic-annotation record format.
//!
//! Three columns (score, strand, frame) use sentinel encodings: the literal
//! character `.` means "value absent", and otherwise a restricted alphabet of
//! characters or a floating-point literal applies. This crate provides the
//! bidirectional codec for those three columns, generic decoding for the
//! remaining six, and record assembly: parsing nine raw column strings into a
//! typed record and rendering a typed record back to its canonical textual
//! form. Tokenizing raw lines into columns (and any I/O) is the caller's
//! business.

pub mod errors;
pub mod frame;
pub mod lines;
pub mod number;
pub mod record;
pub mod score;
pub mod strand;
pub mod text;
