//! The casting contract: how each decodable type obtains a typed view
//! from a byte range, and the default value used when the range is not
//! usable for that type.

use vstd::prelude::*;

verus! {

/// The single soft failure of decoding: the byte range's length does not
/// fit the type.  No decoder surfaces it to callers of the top-level API;
/// `Cast::from_aligned_slice` turns it into the type's default value.
pub struct WrongSize;

/// A value of any type, boxed on the wire together with its type string.
/// Decoding it is not offered here; the type only marks the concept.
pub struct Variant {}

/// Why a byte range was not in normal form.  Decoders never report this:
/// non-normal data silently decodes to a default value.  The
/// classification exists for tooling that wants to describe the data.
#[derive(Debug, Clone, Copy, PartialEq, Eq, Structural)]
pub enum NonNormal {
    NotNullTerminated,
    WrongSize,
}

/// A type whose values are views of a GVariant-encoded byte range.
///
/// Every implementation names, in specification terms, which byte ranges
/// it accepts (`accepts_spec`), which bytes a value of it stands for
/// (`wire_spec`), and the bytes its default value stands for.  For a
/// fixed-size type, `wire_spec` is the value's canonical encoding, so a
/// decoded value is pinned exactly by the bytes it was decoded from.
pub trait Cast<'a>: Sized {
    /// The alignment the type requires of its byte range's start.
    spec fn align_spec() -> nat;

    /// `Some(n)` when every value of the type occupies exactly `n` bytes.
    spec fn size_spec() -> Option<nat>;

    /// Whether a byte range of this content can be cast to the type.
    spec fn accepts_spec(bytes: Seq<u8>) -> bool;

    /// The bytes this view stands for.
    spec fn wire_spec(self) -> Seq<u8>;

    /// The bytes the type's default value stands for.
    spec fn default_wire_spec() -> Seq<u8>;

    /// The structural facts every implementation supplies: alignment is
    /// one of the supported powers of two, the default value's bytes are
    /// themselves acceptable, and a fixed-size type accepts exactly the
    /// ranges of its size.
    proof fn lemma_cast_properties()
        ensures
            Self::align_spec() == 1 || Self::align_spec() == 2 || Self::align_spec() == 4
                || Self::align_spec() == 8,
            Self::accepts_spec(Self::default_wire_spec()),
            match Self::size_spec() {
                Some(s) => 1 <= s && Self::default_wire_spec().len() == s && (forall|b: Seq<u8>|
                    Self::accepts_spec(b) <==> b.len() == s),
                None => true,
            },
    ;

    /// The type's required alignment.
    fn align() -> (r: usize)
        ensures
            r == Self::align_spec(),
    ;

    /// The type's serialized size, where it has one.
    fn fixed_size() -> (r: Option<usize>)
        ensures
            match r {
                Some(s) => Self::size_spec() == Some(s as nat),
                None => Self::size_spec() is None,
            },
    ;

    /// The default value: numeric zero, the empty string, the empty
    /// array, or "nothing", depending on the type.
    fn default_value() -> (r: Self)
        ensures
            r.wire_spec() == Self::default_wire_spec(),
    ;

    /// Casts `slice` to a typed view when its length is compatible with
    /// the type; reports `WrongSize` otherwise.
    fn try_from_aligned_slice(slice: &'a [u8]) -> (r: Result<Self, WrongSize>)
        ensures
            match r {
                Ok(v) => Self::accepts_spec(slice@) && v.wire_spec() == slice@,
                Err(_) => !Self::accepts_spec(slice@),
            },
    ;

    /// Casts `slice` to a typed view, substituting the type's default
    /// value when the length is not compatible.  The primary entry point:
    /// it never fails, whatever bytes `slice` holds.
    fn from_aligned_slice(slice: &'a [u8]) -> (r: Self)
        ensures
            r.wire_spec() == (if Self::accepts_spec(slice@) {
                slice@
            } else {
                Self::default_wire_spec()
            }),
    {
        match Self::try_from_aligned_slice(slice) {
            Ok(v) => v,
            Err(_) => Self::default_value(),
        }
    }
}

/// The bytes the view decoded from `bytes` stands for: `bytes` itself
/// when the type accepts the range, the type's default bytes otherwise.
pub open spec fn decoded_wire_spec<'a, T: Cast<'a>>(bytes: Seq<u8>) -> Seq<u8> {
    if T::accepts_spec(bytes) {
        bytes
    } else {
        T::default_wire_spec()
    }
}

/// Decoding is idempotent and free of observable effects: it is a pure
/// function of the byte range, so any two values decoded from ranges of
/// equal content stand for the same bytes.
pub proof fn lemma_decode_deterministic<'a, T: Cast<'a>>(v1: T, v2: T, bytes: Seq<u8>)
    requires
        v1.wire_spec() == decoded_wire_spec::<T>(bytes),
        v2.wire_spec() == decoded_wire_spec::<T>(bytes),
    ensures
        v1.wire_spec() == v2.wire_spec(),
{
}

} // verus!
