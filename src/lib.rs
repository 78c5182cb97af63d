pub mod book;
pub mod encoding;
pub mod error;
pub mod exth;
pub mod header;
pub mod lz77;
pub mod mobih;
pub mod names;
pub mod palmdoc;
pub mod reader;
pub mod record;
pub mod time;

pub use book::{Mobi, MobiMetadata};
pub use encoding::TextEncoding;
pub use error::DecodeError;
pub use exth::{ExtHeader, ExthRecord};
pub use header::Header;
pub use mobih::MobiHeader;
pub use palmdoc::{Compression, PalmDocHeader};
pub use record::Record;
