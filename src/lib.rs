//! Typed decoding of dirfile field samples: element type tags, the decoding
//! of stored sample bytes into exact sample values, and the fetch of a whole
//! field from what the format engine reports of a dirfile.

pub mod decode;
pub mod dirfile;
pub mod element;
