//! Arrays of fixed-size elements.  The elements are packed back to back
//! with no padding or framing — every fixed-size value's size is a
//! multiple of its alignment, so sequential packing keeps each element
//! aligned — and the count is the range length divided by the element
//! size.  A length that is no multiple of the element size decodes to
//! the empty sequence.

use vstd::prelude::*;

use crate::cast::Cast;
use crate::cast::WrongSize;
use crate::offsets::lemma_mul_div_le;

verus! {

/// The concatenation of the bytes each element of `s` stands for.
pub open spec fn concat_wire_spec<'a, T: Cast<'a>>(s: Seq<T>) -> Seq<u8>
    decreases s.len(),
{
    if s.len() == 0 {
        Seq::empty()
    } else {
        s[0].wire_spec().add(concat_wire_spec(s.subrange(1, s.len() as int)))
    }
}

/// Appending one element appends its bytes.
pub proof fn lemma_concat_wire_push<'a, T: Cast<'a>>(s: Seq<T>, v: T)
    ensures
        concat_wire_spec(s.push(v)) == concat_wire_spec(s).add(v.wire_spec()),
    decreases s.len(),
{
    if s.len() == 0 {
        assert(s.push(v).subrange(1, 1) =~= Seq::<T>::empty());
        assert(s.push(v)[0] == v);
        assert(v.wire_spec().add(concat_wire_spec(Seq::<T>::empty())) =~= concat_wire_spec(
            s,
        ).add(v.wire_spec()));
    } else {
        let t = s.subrange(1, s.len() as int);
        lemma_concat_wire_push(t, v);
        assert(s.push(v).subrange(1, s.push(v).len() as int) =~= t.push(v));
        assert(s.push(v)[0] == s[0]);
        assert(s[0].wire_spec().add(concat_wire_spec(t).add(v.wire_spec()))
            =~= concat_wire_spec(s).add(v.wire_spec()));
    }
}

impl<'a, T: Cast<'a>> Cast<'a> for Vec<T> {
    open spec fn align_spec() -> nat {
        T::align_spec()
    }

    open spec fn size_spec() -> Option<nat> {
        None
    }

    open spec fn accepts_spec(bytes: Seq<u8>) -> bool {
        match T::size_spec() {
            Some(s) => bytes.len() as int % (s as int) == 0,
            None => bytes.len() == 0,
        }
    }

    open spec fn wire_spec(self) -> Seq<u8> {
        concat_wire_spec(self@)
    }

    open spec fn default_wire_spec() -> Seq<u8> {
        Seq::empty()
    }

    proof fn lemma_cast_properties() {
        T::lemma_cast_properties();
    }

    fn align() -> (r: usize) {
        T::align()
    }

    fn fixed_size() -> (r: Option<usize>) {
        None
    }

    fn default_value() -> (r: Self) {
        Vec::new()
    }

    fn try_from_aligned_slice(slice: &'a [u8]) -> (r: Result<Self, WrongSize>) {
        proof {
            T::lemma_cast_properties();
        }
        match T::fixed_size() {
            None => {
                if slice.len() == 0 {
                    let out: Vec<T> = Vec::new();
                    proof {
                        assert(concat_wire_spec(out@) =~= slice@);
                    }
                    Ok(out)
                } else {
                    Err(WrongSize)
                }
            },
            Some(s) => {
                let len = slice.len();
                if len % s != 0 {
                    return Err(WrongSize);
                }
                let n = len / s;
                let mut out: Vec<T> = Vec::new();
                let mut k: usize = 0;
                proof {
                    assert(concat_wire_spec(out@) =~= slice@.subrange(0, 0));
                }
                while k < n
                    invariant
                        out@.len() == k,
                        0 <= k <= n,
                        1 <= s,
                        T::size_spec() == Some(s as nat),
                        len == slice@.len(),
                        n == len as int / s as int,
                        len as int % (s as int) == 0,
                        concat_wire_spec(out@) == slice@.subrange(0, k * s as int),
                    decreases n - k,
                {
                    proof {
                        lemma_mul_div_le(k + 1, len as int, s as int);
                        assert((k + 1) * s as int == k * s as int + s) by (nonlinear_arith);
                        assert(k * s as int >= 0) by (nonlinear_arith)
                            requires
                                0 <= k,
                                1 <= s,
                        ;
                    }
                    let chunk = vstd::slice::slice_subrange(slice, k * s, k * s + s);
                    let v = match T::try_from_aligned_slice(chunk) {
                        Ok(v) => v,
                        Err(_) => {
                            proof {
                                T::lemma_cast_properties();
                                assert(chunk@.len() == s as nat);
                                assert(T::accepts_spec(chunk@));
                                assert(false);
                            }
                            vstd::pervasive::unreached()
                        },
                    };
                    proof {
                        lemma_concat_wire_push(out@, v);
                        assert(slice@.subrange(0, k * s as int).add(chunk@) =~= slice@.subrange(
                            0,
                            (k + 1) * s as int,
                        ));
                    }
                    out.push(v);
                    k = k + 1;
                }
                proof {
                    vstd::arithmetic::div_mod::lemma_fundamental_div_mod(
                        slice@.len() as int,
                        s as int,
                    );
                    assert(n * s as int == slice@.len());
                    assert(slice@.subrange(0, slice@.len() as int) =~= slice@);
                }
                Ok(out)
            },
        }
    }
}

} // verus!
