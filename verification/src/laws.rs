//! The decoding laws, stated once and proved from the contracts the
//! decoders carry.  Termination and the absence of panics and of
//! out-of-range reads hold of every function in this crate by
//! verification itself and need no separate statement here.

use vstd::prelude::*;

use crate::array::elem_start_raw_spec;
use crate::array::elem_wire_spec;
use crate::array::iter_elem_wire_spec;
use crate::array::stored_offset_spec;
use crate::cast::Cast;
use crate::cast::decoded_wire_spec;
use crate::maybe::maybe_fixed_wire_spec;
use crate::maybe::maybe_non_fixed_wire_spec;
use crate::offsets::le_bytes_spec;
use crate::offsets::lemma_le_bytes_le_of;
use crate::offsets::lemma_pow256_values;
use crate::offsets::round_up_spec;
use crate::scalars::Bool;
use crate::scalars::to_unsigned_spec;

verus! {

/// Scalar round trip, unsigned: a byte-exact little-endian buffer
/// decodes to exactly its value; a buffer of any other length decodes to
/// the zero default.  `r` is what `u16::from_aligned_slice` returned for
/// a range holding `bytes`.
pub proof fn lemma_u16_decode(bytes: Seq<u8>, r: u16)
    requires
        r.wire_spec() == decoded_wire_spec::<u16>(bytes),
    ensures
        bytes.len() == 2 ==> r == le_bytes_spec(bytes),
        bytes.len() != 2 ==> r == 0,
{
    lemma_pow256_values();
    lemma_le_bytes_le_of(r as nat, 2);
    if bytes.len() != 2 {
        lemma_le_bytes_le_of(0, 2);
    }
}

/// Scalar round trip for the single byte.
pub proof fn lemma_u8_decode(bytes: Seq<u8>, r: u8)
    requires
        r.wire_spec() == decoded_wire_spec::<u8>(bytes),
    ensures
        bytes.len() == 1 ==> r == le_bytes_spec(bytes),
        bytes.len() != 1 ==> r == 0,
{
    lemma_pow256_values();
    lemma_le_bytes_le_of(r as nat, 1);
    if bytes.len() != 1 {
        lemma_le_bytes_le_of(0, 1);
    }
}

/// Scalar round trip for the 4-byte unsigned integer.
pub proof fn lemma_u32_decode(bytes: Seq<u8>, r: u32)
    requires
        r.wire_spec() == decoded_wire_spec::<u32>(bytes),
    ensures
        bytes.len() == 4 ==> r == le_bytes_spec(bytes),
        bytes.len() != 4 ==> r == 0,
{
    lemma_pow256_values();
    lemma_le_bytes_le_of(r as nat, 4);
    if bytes.len() != 4 {
        lemma_le_bytes_le_of(0, 4);
    }
}

/// Scalar round trip for the 8-byte unsigned integer.
pub proof fn lemma_u64_decode(bytes: Seq<u8>, r: u64)
    requires
        r.wire_spec() == decoded_wire_spec::<u64>(bytes),
    ensures
        bytes.len() == 8 ==> r == le_bytes_spec(bytes),
        bytes.len() != 8 ==> r == 0,
{
    lemma_pow256_values();
    lemma_le_bytes_le_of(r as nat, 8);
    if bytes.len() != 8 {
        lemma_le_bytes_le_of(0, 8);
    }
}

/// Scalar round trip, signed: the two's-complement reading of a
/// byte-exact buffer, zero for every other length.
pub proof fn lemma_i16_decode(bytes: Seq<u8>, r: i16)
    requires
        r.wire_spec() == decoded_wire_spec::<i16>(bytes),
    ensures
        bytes.len() == 2 ==> r as int == (if le_bytes_spec(bytes) < 0x8000 {
            le_bytes_spec(bytes) as int
        } else {
            le_bytes_spec(bytes) - 0x10000
        }),
        bytes.len() != 2 ==> r == 0,
{
    lemma_pow256_values();
    lemma_le_bytes_le_of(to_unsigned_spec(r as int, 0x10000), 2);
    if bytes.len() != 2 {
        lemma_le_bytes_le_of(0, 2);
    }
}

/// Scalar round trip for the 4-byte signed integer.
pub proof fn lemma_i32_decode(bytes: Seq<u8>, r: i32)
    requires
        r.wire_spec() == decoded_wire_spec::<i32>(bytes),
    ensures
        bytes.len() == 4 ==> r as int == (if le_bytes_spec(bytes) < 0x80000000 {
            le_bytes_spec(bytes) as int
        } else {
            le_bytes_spec(bytes) - 0x100000000
        }),
        bytes.len() != 4 ==> r == 0,
{
    lemma_pow256_values();
    lemma_le_bytes_le_of(to_unsigned_spec(r as int, 0x100000000), 4);
    if bytes.len() != 4 {
        lemma_le_bytes_le_of(0, 4);
    }
}

/// Scalar round trip for the 8-byte signed integer.
pub proof fn lemma_i64_decode(bytes: Seq<u8>, r: i64)
    requires
        r.wire_spec() == decoded_wire_spec::<i64>(bytes),
    ensures
        bytes.len() == 8 ==> r as int == (if le_bytes_spec(bytes) < 0x8000000000000000 {
            le_bytes_spec(bytes) as int
        } else {
            le_bytes_spec(bytes) - 0x10000000000000000
        }),
        bytes.len() != 8 ==> r == 0,
{
    lemma_pow256_values();
    lemma_le_bytes_le_of(to_unsigned_spec(r as int, 0x10000000000000000), 8);
    if bytes.len() != 8 {
        lemma_le_bytes_le_of(0, 8);
    }
}

/// Bool truthiness: a one-byte range decodes to false exactly for the
/// byte 0x00 and to true for every byte 0x01 through 0xFF; any
/// other-length range decodes to false.
pub proof fn lemma_bool_decode(bytes: Seq<u8>, r: Bool)
    requires
        r.wire_spec() == decoded_wire_spec::<Bool>(bytes),
    ensures
        bytes.len() == 1 ==> (r.byte_spec() != 0) == (bytes[0] != 0),
        bytes.len() != 1 ==> r.byte_spec() == 0,
{
    assert(r.wire_spec()[0] == r.byte_spec());
}

/// Maybe round trip, variable-size payload: the empty range reads as
/// nothing, and a child's bytes followed by the single trailing zero
/// byte read back as "just" that child.
pub proof fn lemma_maybe_non_fixed_round_trip<'a, T: Cast<'a>>(child: Seq<u8>)
    ensures
        maybe_non_fixed_wire_spec::<T>(Seq::empty()) is None,
        maybe_non_fixed_wire_spec::<T>(child.push(0u8)) == Some(decoded_wire_spec::<T>(child)),
{
    let m = child.push(0u8);
    assert(m.subrange(0, m.len() - 1) =~= child);
}

/// Fixed-size maybe: a range of any length other than exactly the
/// payload's size — the empty range included — reads as nothing.
pub proof fn lemma_maybe_fixed_wrong_size<'a, T: Cast<'a>>(data: Seq<u8>, s: nat)
    requires
        T::size_spec() == Some(s),
        data.len() != s,
    ensures
        maybe_fixed_wire_spec::<T>(data) is None,
{
    T::lemma_cast_properties();
}

/// Forward iteration and random access read every element the same way,
/// except that iteration also rejects an element whose stored end equals
/// the container length: wherever the stored end is interior, the two
/// agree.
pub proof fn lemma_iteration_matches_indexing<'a, T: Cast<'a>>(data: Seq<u8>, i: int)
    requires
        stored_offset_spec(data, i) != data.len(),
    ensures
        iter_elem_wire_spec::<T>(data, i) == elem_wire_spec::<T>(data, i),
{
}

/// Malformed framing offsets: when an element's re-aligned start lies
/// past its stored end, or the end lies past the container, the element
/// reads as the type's default — decoded from no bytes at all, so no
/// read outside the container can occur.
pub proof fn lemma_malformed_offsets_default<'a, T: Cast<'a>>(data: Seq<u8>, i: int)
    requires
        ({
            let end = stored_offset_spec(data, i);
            let start = round_up_spec(elem_start_raw_spec(data, i) as int, T::align_spec() as int);
            start > end || end > data.len()
        }),
    ensures
        elem_wire_spec::<T>(data, i) == decoded_wire_spec::<T>(Seq::empty()),
{
}

} // verus!
