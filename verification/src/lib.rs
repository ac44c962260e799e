//! Read-only access to values serialized in the GVariant wire format.
//!
//! A caller picks the type it expects a byte range to contain and decodes
//! a typed view over that range.  Arbitrary (including corrupted) byte
//! content is tolerated: malformed encodings decode to well-defined
//! default values, never to a panic or an out-of-range read.

pub mod array;
pub mod cast;
pub mod fixed;
pub mod laws;
pub mod maybe;
pub mod offsets;
pub mod scalars;
pub mod string;

pub use array::NonFixedWidthArray;
pub use array::NonFixedWidthArrayIterator;
pub use cast::Cast;
pub use cast::NonNormal;
pub use cast::Variant;
pub use cast::WrongSize;
pub use maybe::MaybeFixedSize;
pub use maybe::MaybeNonFixedSize;
pub use scalars::Bool;
pub use string::Str;
pub use offsets::OffsetSize;
pub use offsets::offset_size;
pub use offsets::read_uint;
pub use offsets::read_last_frame_offset;
pub use offsets::nth_last_frame_offset;
