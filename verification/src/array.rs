//! Arrays of variable-sized elements.  The byte range holds the
//! serialized elements (each aligned to the element type's requirement),
//! followed by one little-endian framing offset per element, packed
//! unaligned at the tail of the range, each recording where its element
//! ends.  Offsets found in the data are never trusted: a boundary that
//! falls outside the range, or behind its start, yields the element
//! type's default value instead of an out-of-range read.

use vstd::prelude::*;

use core::marker::PhantomData;

use crate::cast::Cast;
use crate::cast::WrongSize;
use crate::cast::decoded_wire_spec;
use crate::offsets::OffsetSize;
use crate::offsets::le_bytes_spec;
use crate::offsets::last_frame_offset_spec;
use crate::offsets::lemma_mul_div_le;
use crate::offsets::offset_size_spec;
use crate::offsets::read_last_frame_offset;
use crate::offsets::read_uint;
use crate::offsets::round_up_spec;
use crate::offsets::checked_round_up;

verus! {

/// How many elements the framing offsets of `data` describe: none for an
/// empty range; otherwise the space after the last frame offset, divided
/// by the offset width.  A last offset pointing past the end of the
/// range describes no elements at all.
pub open spec fn array_len_spec(data: Seq<u8>) -> nat {
    if data.len() == 0 {
        0
    } else {
        let w = offset_size_spec(data.len()).width_spec();
        let lfo = last_frame_offset_spec(data);
        if lfo > data.len() {
            0
        } else {
            (((data.len() - lfo) as int) / w as int) as nat
        }
    }
}

/// The `i`-th stored framing offset, counted from the front of the
/// offset table (which starts where the last frame offset points).
pub open spec fn stored_offset_spec(data: Seq<u8>, i: int) -> nat {
    let w = offset_size_spec(data.len()).width_spec();
    let lfo = last_frame_offset_spec(data);
    le_bytes_spec(data.subrange(lfo + i * w, lfo + (i + 1) * w))
}

/// Where element `i`'s bytes begin, before re-alignment: position 0 for
/// the first element, the previous element's stored end for the rest.
pub open spec fn elem_start_raw_spec(data: Seq<u8>, i: int) -> nat {
    if i == 0 {
        0
    } else {
        stored_offset_spec(data, i - 1)
    }
}

/// The bytes element `i` decodes from under random access: the range
/// between its re-aligned start and its stored end, or the empty range
/// when either boundary falls outside the container or they cross.
pub open spec fn elem_wire_spec<'a, T: Cast<'a>>(data: Seq<u8>, i: int) -> Seq<u8> {
    let end = stored_offset_spec(data, i);
    let start = round_up_spec(elem_start_raw_spec(data, i) as int, T::align_spec() as int);
    if start <= end && end <= data.len() {
        decoded_wire_spec::<T>(data.subrange(start, end as int))
    } else {
        decoded_wire_spec::<T>(Seq::empty())
    }
}

/// The bytes element `i` decodes from under forward iteration.  The
/// guard differs from random access in one corner: an element whose
/// stored end equals the container length is also treated as out of
/// bounds, since the offset table itself occupies the tail.
pub open spec fn iter_elem_wire_spec<'a, T: Cast<'a>>(data: Seq<u8>, i: int) -> Seq<u8> {
    let end = stored_offset_spec(data, i);
    let start = round_up_spec(elem_start_raw_spec(data, i) as int, T::align_spec() as int);
    if start <= end && end < data.len() {
        decoded_wire_spec::<T>(data.subrange(start, end as int))
    } else {
        decoded_wire_spec::<T>(Seq::empty())
    }
}

/// A byte range read as an array of variable-sized elements with a
/// trailing framing-offset table.
pub struct NonFixedWidthArray<'a, T: Cast<'a>> {
    data: &'a [u8],
    elem: PhantomData<T>,
}

impl<'a, T: Cast<'a>> View for NonFixedWidthArray<'a, T> {
    type V = Seq<u8>;

    closed spec fn view(&self) -> Seq<u8> {
        self.data@
    }
}

impl<'a, T: Cast<'a>> NonFixedWidthArray<'a, T> {
    /// The number of elements the offset table describes.  Never trusts
    /// the data: a last frame offset beyond the range gives length 0.
    pub fn len(&self) -> (r: usize)
        ensures
            r == array_len_spec(self@),
    {
        let n = self.data.len();
        if n == 0 {
            return 0;
        }
        let (osz, lfo) = read_last_frame_offset(self.data);
        let w = osz.width();
        if lfo > n as u64 {
            return 0;
        }
        let d = (n as u64 - lfo) / (w as u64);
        proof {
            assert(d <= n as u64 - lfo) by (nonlinear_arith)
                requires
                    1 <= w,
                    d == (n as u64 - lfo) as int / (w as u64) as int,
                    0 <= n as u64 - lfo,
            ;
        }
        d as usize
    }

    /// Whether the offset table describes no elements.
    pub fn is_empty(&self) -> (r: bool)
        ensures
            r == (array_len_spec(self@) == 0),
    {
        self.len() == 0
    }

    /// Random access: element `i`'s end is its stored framing offset,
    /// its start the re-aligned previous offset (0 for the first).  A
    /// boundary outside the container, or a start beyond the end, yields
    /// the element type's default value.
    pub fn index(&self, i: usize) -> (r: T)
        requires
            i < array_len_spec(self@),
        ensures
            r.wire_spec() == elem_wire_spec::<T>(self@, i as int),
    {
        let n = self.data.len();
        let (osz, lfo64) = read_last_frame_offset(self.data);
        let w = osz.width();
        proof {
            lemma_mul_div_le(i + 1, n - lfo64, w as int);
            assert((i + 1) * w as int == i * w as int + w) by (nonlinear_arith);
            assert(i * w as int >= 0) by (nonlinear_arith)
                requires
                    0 <= i,
                    1 <= w,
            ;
        }
        let lfo = lfo64 as usize;
        let table = vstd::slice::slice_subrange(self.data, lfo, n);
        let end = read_uint(table, osz, i);
        proof {
            assert(table@.subrange(i * w as int, i * w as int + w) =~= self.data@.subrange(
                lfo + i * w as int,
                lfo + (i + 1) * w as int,
            ));
        }
        let start_raw: u64 = if i == 0 {
            0u64
        } else {
            proof {
                assert(i * w as int == (i - 1) * w as int + w) by (nonlinear_arith);
                assert((i - 1) * w as int >= 0) by (nonlinear_arith)
                    requires
                        1 <= i,
                        1 <= w,
                ;
            }
            let prev = read_uint(table, osz, i - 1);
            proof {
                assert(table@.subrange((i - 1) * w as int, (i - 1) * w as int + w)
                    =~= self.data@.subrange(lfo + (i - 1) * w as int, lfo + i * w as int));
            }
            prev
        };
        proof {
            T::lemma_cast_properties();
        }
        let align = T::align();
        match checked_round_up(start_raw, align) {
            Some(start) => {
                if start <= end && end <= n as u64 {
                    T::from_aligned_slice(
                        vstd::slice::slice_subrange(self.data, start as usize, end as usize),
                    )
                } else {
                    let r = T::from_aligned_slice(vstd::slice::slice_subrange(self.data, 0, 0));
                    proof {
                        assert(self.data@.subrange(0, 0) =~= Seq::<u8>::empty());
                    }
                    r
                }
            },
            None => {
                let r = T::from_aligned_slice(vstd::slice::slice_subrange(self.data, 0, 0));
                proof {
                    assert(self.data@.subrange(0, 0) =~= Seq::<u8>::empty());
                }
                r
            },
        }
    }

    /// A fresh forward iterator over the elements, starting before the
    /// first one.  Iterators are independent: any number may run over
    /// the same array.
    pub fn iter(&self) -> (it: NonFixedWidthArrayIterator<'a, T>)
        ensures
            it.wf(),
            it.src_spec() == self@,
            it.pos_spec() == 0,
    {
        let (osz, lfo) = read_last_frame_offset(self.data);
        NonFixedWidthArrayIterator {
            data: self.data,
            next_start: 0,
            offset_idx: lfo,
            offset_size: osz,
            pos: Ghost(0int),
            elem: PhantomData,
        }
    }

    /// All elements, in container order, as forward iteration yields
    /// them.
    pub fn to_vec(&self) -> (r: Vec<T>)
        ensures
            r@.len() == array_len_spec(self@),
            forall|i: int|
                0 <= i < r@.len() ==> (#[trigger] r@[i]).wire_spec() == iter_elem_wire_spec::<T>(
                    self@,
                    i,
                ),
    {
        let n = self.len();
        let mut it = self.iter();
        let mut out: Vec<T> = Vec::new();
        let mut k: usize = 0;
        while k < n
            invariant
                n == array_len_spec(self@),
                it.wf(),
                it.src_spec() == self@,
                it.pos_spec() == k as int,
                out@.len() == k,
                0 <= k <= n,
                forall|i: int|
                    0 <= i < k ==> (#[trigger] out@[i]).wire_spec() == iter_elem_wire_spec::<T>(
                        self@,
                        i,
                    ),
            decreases n - k,
        {
            let v = match it.next() {
                Some(v) => v,
                None => {
                    proof {
                        assert(false);
                    }
                    vstd::pervasive::unreached()
                },
            };
            out.push(v);
            k = k + 1;
        }
        out
    }
}

impl<'a, T: Cast<'a>> Cast<'a> for NonFixedWidthArray<'a, T> {
    open spec fn align_spec() -> nat {
        T::align_spec()
    }

    open spec fn size_spec() -> Option<nat> {
        None
    }

    open spec fn accepts_spec(bytes: Seq<u8>) -> bool {
        true
    }

    open spec fn wire_spec(self) -> Seq<u8> {
        self@
    }

    open spec fn default_wire_spec() -> Seq<u8> {
        Seq::empty()
    }

    proof fn lemma_cast_properties() {
        T::lemma_cast_properties();
    }

    fn align() -> (r: usize) {
        T::align()
    }

    fn fixed_size() -> (r: Option<usize>) {
        None
    }

    fn default_value() -> (r: Self) {
        NonFixedWidthArray { data: &[], elem: PhantomData }
    }

    fn try_from_aligned_slice(slice: &'a [u8]) -> (r: Result<Self, WrongSize>) {
        Ok(NonFixedWidthArray { data: slice, elem: PhantomData })
    }
}

/// Forward iteration over a [`NonFixedWidthArray`]: a cursor into the
/// element bytes and a cursor into the offset table, advanced together.
/// A malformed boundary yields the element type's default value, but the
/// cursors still advance, so iteration always ends after exactly as many
/// elements as the offset table describes.
pub struct NonFixedWidthArrayIterator<'a, T: Cast<'a>> {
    data: &'a [u8],
    next_start: u64,
    offset_idx: u64,
    offset_size: OffsetSize,
    pos: Ghost<int>,
    elem: PhantomData<T>,
}

impl<'a, T: Cast<'a>> NonFixedWidthArrayIterator<'a, T> {
    /// The byte range of the array being iterated.
    pub closed spec fn src_spec(self) -> Seq<u8> {
        self.data@
    }

    /// How many elements have been yielded so far.
    pub closed spec fn pos_spec(self) -> int {
        self.pos@
    }

    /// The iterator's cursors agree with its position: the offset-table
    /// cursor sits at the position's entry, and the element cursor holds
    /// the previous element's stored end.
    pub closed spec fn wf(self) -> bool {
        let d = self.data@;
        let w = offset_size_spec(d.len()).width_spec();
        let lfo = last_frame_offset_spec(d);
        &&& self.offset_size == offset_size_spec(d.len())
        &&& 0 <= self.pos@ <= array_len_spec(d)
        &&& self.offset_idx == lfo + self.pos@ * w
        &&& self.next_start == elem_start_raw_spec(d, self.pos@)
    }

    /// Yields the next element, or nothing once every element the offset
    /// table describes has been yielded.
    pub fn next(&mut self) -> (r: Option<T>)
        requires
            old(self).wf(),
        ensures
            final(self).wf(),
            final(self).src_spec() == old(self).src_spec(),
            ({
                let d = old(self).src_spec();
                let p = old(self).pos_spec();
                if p < array_len_spec(d) {
                    &&& (r matches Some(v) && v.wire_spec() == iter_elem_wire_spec::<T>(d, p))
                    &&& final(self).pos_spec() == p + 1
                } else {
                    &&& r is None
                    &&& final(self).pos_spec() == p
                }
            }),
    {
        let n = self.data.len();
        let w = self.offset_size.width();
        let ghost d = self.data@;
        let ghost lfo = last_frame_offset_spec(d);
        let ghost p = self.pos@;
        if w == 0 {
            return None;
        }
        if self.offset_idx > n as u64 || (n as u64) - self.offset_idx < w as u64 {
            proof {
                if lfo <= n {
                    lemma_mul_div_le(p + 1, n - lfo, w as int);
                    assert((p + 1) * w as int == p * w as int + w) by (nonlinear_arith);
                }
            }
            return None;
        }
        proof {
            assert(lfo <= n);
            lemma_mul_div_le(p + 1, n - lfo, w as int);
            assert((p + 1) * w as int == p * w as int + w) by (nonlinear_arith);
            assert(p * w as int >= 0) by (nonlinear_arith)
                requires
                    0 <= p,
                    1 <= w,
            ;
        }
        let table = vstd::slice::slice_subrange(self.data, self.offset_idx as usize, n);
        let end = read_uint(table, self.offset_size, 0);
        proof {
            assert(table@.subrange(0, w as int) =~= d.subrange(
                lfo + p * w as int,
                lfo + (p + 1) * w as int,
            ));
        }
        let start_raw = self.next_start;
        proof {
            T::lemma_cast_properties();
        }
        let align = T::align();
        let start_opt = checked_round_up(start_raw, align);
        self.offset_idx = self.offset_idx + w as u64;
        self.next_start = end;
        proof {
            self.pos@ = p + 1;
        }
        let v = match start_opt {
            Some(start) => {
                if start <= end && end < n as u64 {
                    T::from_aligned_slice(
                        vstd::slice::slice_subrange(self.data, start as usize, end as usize),
                    )
                } else {
                    let r = T::from_aligned_slice(vstd::slice::slice_subrange(self.data, 0, 0));
                    proof {
                        assert(d.subrange(0, 0) =~= Seq::<u8>::empty());
                    }
                    r
                }
            },
            None => {
                let r = T::from_aligned_slice(vstd::slice::slice_subrange(self.data, 0, 0));
                proof {
                    assert(d.subrange(0, 0) =~= Seq::<u8>::empty());
                }
                r
            },
        };
        Some(v)
    }
}

} // verus!
