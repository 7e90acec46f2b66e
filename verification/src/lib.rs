//! Decoder for a legacy binary quest-definition format: a byte-buffer parser
//! with strict structural invariants, plus two recursive-descent scanners for
//! the embedded rich-text markup language and the embedded formula language.

pub mod document;
pub mod errors;
pub mod formula;
pub mod header;
pub mod jump;
pub mod laws;
pub mod location;
pub mod markup;
pub mod parameter;
pub mod player;
pub mod primitive;
pub mod qstring;
pub mod records;
pub mod types;

pub use document::parse_qmm;
