//! Inspection of MPEG audio Layer-III streams: decoding of the 32-bit frame
//! header and a forward walk that counts the frames of a file.

pub mod header;
pub mod walker;
