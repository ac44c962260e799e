//! Optional values.  A maybe is encoded structurally, with no tag byte;
//! the encoding differs by whether the payload type is fixed-size.

use vstd::prelude::*;

use core::marker::PhantomData;

use crate::cast::Cast;
use crate::cast::WrongSize;
use crate::cast::decoded_wire_spec;

verus! {

/// What a byte range holds when read as a maybe of a fixed-size type:
/// the payload's bytes when the payload type accepts the whole range
/// (i.e. the length is exactly the payload's size), nothing otherwise.
pub open spec fn maybe_fixed_wire_spec<'a, T: Cast<'a>>(data: Seq<u8>) -> Option<Seq<u8>> {
    if T::accepts_spec(data) {
        Some(data)
    } else {
        None
    }
}

/// What a byte range holds when read as a maybe of a variable-size type:
/// nothing when empty, otherwise the bytes the payload decodes to from
/// the range without its final byte.
pub open spec fn maybe_non_fixed_wire_spec<'a, T: Cast<'a>>(data: Seq<u8>) -> Option<Seq<u8>> {
    if data.len() == 0 {
        None
    } else {
        Some(decoded_wire_spec::<T>(data.subrange(0, data.len() - 1)))
    }
}

/// A byte range read as an optional value of a fixed-size type:
/// "nothing" for the empty range, "just" for a range of exactly the
/// payload's size, and "nothing" again for every other length — the
/// defined fallback for malformed data, not an error.
pub struct MaybeFixedSize<'a, T: Cast<'a>> {
    data: &'a [u8],
    elem: PhantomData<T>,
}

impl<'a, T: Cast<'a>> View for MaybeFixedSize<'a, T> {
    type V = Seq<u8>;

    closed spec fn view(&self) -> Seq<u8> {
        self.data@
    }
}

impl<'a, T: Cast<'a>> MaybeFixedSize<'a, T> {
    /// The payload, when the range has exactly the payload's size; the
    /// payload type decides, so any other length (including 0) reads as
    /// nothing.
    pub fn to_option(&self) -> (r: Option<T>)
        ensures
            match r {
                Some(v) => maybe_fixed_wire_spec::<T>(self@) == Some(v.wire_spec()),
                None => maybe_fixed_wire_spec::<T>(self@) is None,
            },
    {
        match T::try_from_aligned_slice(self.data) {
            Ok(v) => Some(v),
            Err(_) => None,
        }
    }
}

impl<'a, T: Cast<'a>> Cast<'a> for MaybeFixedSize<'a, T> {
    open spec fn align_spec() -> nat {
        T::align_spec()
    }

    open spec fn size_spec() -> Option<nat> {
        None
    }

    open spec fn accepts_spec(bytes: Seq<u8>) -> bool {
        true
    }

    open spec fn wire_spec(self) -> Seq<u8> {
        self@
    }

    open spec fn default_wire_spec() -> Seq<u8> {
        Seq::empty()
    }

    proof fn lemma_cast_properties() {
        T::lemma_cast_properties();
    }

    fn align() -> (r: usize) {
        T::align()
    }

    fn fixed_size() -> (r: Option<usize>) {
        None
    }

    fn default_value() -> (r: Self) {
        MaybeFixedSize { data: &[], elem: PhantomData }
    }

    fn try_from_aligned_slice(slice: &'a [u8]) -> (r: Result<Self, WrongSize>) {
        Ok(MaybeFixedSize { data: slice, elem: PhantomData })
    }
}

/// A byte range read as an optional value of a variable-size type:
/// "nothing" for the empty range; otherwise "just" the payload decoded
/// from everything but the final byte.  The extra trailing byte is what
/// keeps a zero-length payload distinguishable from "nothing"; only its
/// presence matters, its value is not checked.
pub struct MaybeNonFixedSize<'a, T: Cast<'a>> {
    data: &'a [u8],
    elem: PhantomData<T>,
}

impl<'a, T: Cast<'a>> View for MaybeNonFixedSize<'a, T> {
    type V = Seq<u8>;

    closed spec fn view(&self) -> Seq<u8> {
        self.data@
    }
}

impl<'a, T: Cast<'a>> MaybeNonFixedSize<'a, T> {
    /// Nothing for an empty range; otherwise the payload decoded from
    /// the range without its final byte.
    pub fn to_option(&self) -> (r: Option<T>)
        ensures
            match r {
                Some(v) => maybe_non_fixed_wire_spec::<T>(self@) == Some(v.wire_spec()),
                None => maybe_non_fixed_wire_spec::<T>(self@) is None,
            },
    {
        let n = self.data.len();
        if n == 0 {
            None
        } else {
            Some(T::from_aligned_slice(vstd::slice::slice_subrange(self.data, 0, n - 1)))
        }
    }
}

impl<'a, T: Cast<'a>> Cast<'a> for MaybeNonFixedSize<'a, T> {
    open spec fn align_spec() -> nat {
        T::align_spec()
    }

    open spec fn size_spec() -> Option<nat> {
        None
    }

    open spec fn accepts_spec(bytes: Seq<u8>) -> bool {
        true
    }

    open spec fn wire_spec(self) -> Seq<u8> {
        self@
    }

    open spec fn default_wire_spec() -> Seq<u8> {
        Seq::empty()
    }

    proof fn lemma_cast_properties() {
        T::lemma_cast_properties();
    }

    fn align() -> (r: usize) {
        T::align()
    }

    fn fixed_size() -> (r: Option<usize>) {
        None
    }

    fn default_value() -> (r: Self) {
        MaybeNonFixedSize { data: &[], elem: PhantomData }
    }

    fn try_from_aligned_slice(slice: &'a [u8]) -> (r: Result<Self, WrongSize>) {
        Ok(MaybeNonFixedSize { data: slice, elem: PhantomData })
    }
}

} // verus!
