//! Extraction of page records from MediaWiki export XML dumps.
//!
//! A dump is read as a stream of XML parse events. The heart of the crate is
//! a verified state machine ([`machine`]) that walks those events and
//! assembles one [`Page`] record per `page` element, enforcing the supported
//! subset of the export schema: one revision per page, a fixed set of
//! meaningful elements, everything else skipped. The [`parser`] module wraps
//! the machine behind a pull interface over a byte stream.

pub mod event;
pub mod laws;
pub mod machine;
pub mod numeric;
pub mod parser;
pub mod xml_io;

pub use machine::Page;
pub use parser::parse;
pub use parser::ParseError;
pub use parser::Parser;
