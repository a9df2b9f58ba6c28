//! A text-to-tree deserializer for a JSON-like data format.
//!
//! The library turns a sequence of unicode scalar values into a dynamically
//! typed value tree ([`Value`]) and offers a path-based accessor over that
//! tree ([`Index`]).  Parsing is single-pass recursive descent with one
//! character of lookahead, a configurable maximum nesting depth, and exact
//! (overflow-checked) numeric evaluation.  The behaviour of every grammar
//! production is pinned down by a mathematical grammar model in [`grammar`],
//! and the executable parser is proved equal to that model.

pub mod de;
pub mod error;
pub mod grammar;
pub mod index;
pub mod value;

pub use de::parse;
pub use de::parse_with_depth;
pub use de::De;
pub use error::Expected;
pub use error::NumberError;
pub use error::ParseError;
pub use index::Index;
pub use value::FloatLit;
pub use value::Number;
pub use value::SpecValue;
pub use value::Value;
