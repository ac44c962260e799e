//! Fixed-size scalars: the little-endian integers and the format's
//! one-byte boolean.  A byte range of exactly the scalar's size decodes
//! to its little-endian value; any other length decodes to zero (`false`
//! for the boolean).

use vstd::prelude::*;

use crate::cast::Cast;
use crate::cast::WrongSize;
use crate::offsets::OffsetSize;
use crate::offsets::le_of_spec;
use crate::offsets::lemma_le_bytes_bound;
use crate::offsets::lemma_le_of_le_bytes;
use crate::offsets::lemma_le_of_len;
use crate::offsets::lemma_pow256_values;
use crate::offsets::read_uint;

verus! {

/// The two's-complement reading of `v` undone: the unsigned value, below
/// the modulus `m`, whose `m`-modular interpretation is `v`.
pub open spec fn to_unsigned_spec(v: int, m: nat) -> nat {
    if v >= 0 {
        v as nat
    } else {
        (v + m) as nat
    }
}

impl<'a> Cast<'a> for u8 {
    open spec fn align_spec() -> nat {
        1
    }

    open spec fn size_spec() -> Option<nat> {
        Some(1)
    }

    open spec fn accepts_spec(bytes: Seq<u8>) -> bool {
        bytes.len() == 1
    }

    open spec fn wire_spec(self) -> Seq<u8> {
        le_of_spec(self as nat, 1)
    }

    open spec fn default_wire_spec() -> Seq<u8> {
        le_of_spec(0, 1)
    }

    proof fn lemma_cast_properties() {
        lemma_le_of_len(0, 1);
    }

    fn align() -> (r: usize) {
        1
    }

    fn fixed_size() -> (r: Option<usize>) {
        Some(1)
    }

    fn default_value() -> (r: Self) {
        0
    }

    fn try_from_aligned_slice(slice: &'a [u8]) -> (r: Result<Self, WrongSize>) {
        if slice.len() == 1 {
            let b = slice[0];
            proof {
                lemma_le_of_len(b as nat, 1);
                assert(le_of_spec(b as nat, 1)[0] == b);
                assert(le_of_spec(b as nat, 1) =~= slice@);
            }
            Ok(b)
        } else {
            Err(WrongSize)
        }
    }
}

impl<'a> Cast<'a> for u16 {
    open spec fn align_spec() -> nat {
        2
    }

    open spec fn size_spec() -> Option<nat> {
        Some(2)
    }

    open spec fn accepts_spec(bytes: Seq<u8>) -> bool {
        bytes.len() == 2
    }

    open spec fn wire_spec(self) -> Seq<u8> {
        le_of_spec(self as nat, 2)
    }

    open spec fn default_wire_spec() -> Seq<u8> {
        le_of_spec(0, 2)
    }

    proof fn lemma_cast_properties() {
        lemma_le_of_len(0, 2);
    }

    fn align() -> (r: usize) {
        2
    }

    fn fixed_size() -> (r: Option<usize>) {
        Some(2)
    }

    fn default_value() -> (r: Self) {
        0
    }

    fn try_from_aligned_slice(slice: &'a [u8]) -> (r: Result<Self, WrongSize>) {
        if slice.len() == 2 {
            let x = read_uint(slice, OffsetSize::U2, 0);
            proof {
                assert(slice@.subrange(0, 2) =~= slice@);
                lemma_le_bytes_bound(slice@);
                lemma_pow256_values();
                lemma_le_of_le_bytes(slice@);
            }
            Ok(x as u16)
        } else {
            Err(WrongSize)
        }
    }
}

impl<'a> Cast<'a> for u32 {
    open spec fn align_spec() -> nat {
        4
    }

    open spec fn size_spec() -> Option<nat> {
        Some(4)
    }

    open spec fn accepts_spec(bytes: Seq<u8>) -> bool {
        bytes.len() == 4
    }

    open spec fn wire_spec(self) -> Seq<u8> {
        le_of_spec(self as nat, 4)
    }

    open spec fn default_wire_spec() -> Seq<u8> {
        le_of_spec(0, 4)
    }

    proof fn lemma_cast_properties() {
        lemma_le_of_len(0, 4);
    }

    fn align() -> (r: usize) {
        4
    }

    fn fixed_size() -> (r: Option<usize>) {
        Some(4)
    }

    fn default_value() -> (r: Self) {
        0
    }

    fn try_from_aligned_slice(slice: &'a [u8]) -> (r: Result<Self, WrongSize>) {
        if slice.len() == 4 {
            let x = read_uint(slice, OffsetSize::U4, 0);
            proof {
                assert(slice@.subrange(0, 4) =~= slice@);
                lemma_le_bytes_bound(slice@);
                lemma_pow256_values();
                lemma_le_of_le_bytes(slice@);
            }
            Ok(x as u32)
        } else {
            Err(WrongSize)
        }
    }
}

impl<'a> Cast<'a> for u64 {
    open spec fn align_spec() -> nat {
        8
    }

    open spec fn size_spec() -> Option<nat> {
        Some(8)
    }

    open spec fn accepts_spec(bytes: Seq<u8>) -> bool {
        bytes.len() == 8
    }

    open spec fn wire_spec(self) -> Seq<u8> {
        le_of_spec(self as nat, 8)
    }

    open spec fn default_wire_spec() -> Seq<u8> {
        le_of_spec(0, 8)
    }

    proof fn lemma_cast_properties() {
        lemma_le_of_len(0, 8);
    }

    fn align() -> (r: usize) {
        8
    }

    fn fixed_size() -> (r: Option<usize>) {
        Some(8)
    }

    fn default_value() -> (r: Self) {
        0
    }

    fn try_from_aligned_slice(slice: &'a [u8]) -> (r: Result<Self, WrongSize>) {
        if slice.len() == 8 {
            let x = read_uint(slice, OffsetSize::U8, 0);
            proof {
                assert(slice@.subrange(0, 8) =~= slice@);
                lemma_le_of_le_bytes(slice@);
            }
            Ok(x)
        } else {
            Err(WrongSize)
        }
    }
}

impl<'a> Cast<'a> for i16 {
    open spec fn align_spec() -> nat {
        2
    }

    open spec fn size_spec() -> Option<nat> {
        Some(2)
    }

    open spec fn accepts_spec(bytes: Seq<u8>) -> bool {
        bytes.len() == 2
    }

    open spec fn wire_spec(self) -> Seq<u8> {
        le_of_spec(to_unsigned_spec(self as int, 0x10000), 2)
    }

    open spec fn default_wire_spec() -> Seq<u8> {
        le_of_spec(0, 2)
    }

    proof fn lemma_cast_properties() {
        lemma_le_of_len(0, 2);
    }

    fn align() -> (r: usize) {
        2
    }

    fn fixed_size() -> (r: Option<usize>) {
        Some(2)
    }

    fn default_value() -> (r: Self) {
        0
    }

    fn try_from_aligned_slice(slice: &'a [u8]) -> (r: Result<Self, WrongSize>) {
        if slice.len() == 2 {
            let x = read_uint(slice, OffsetSize::U2, 0);
            proof {
                assert(slice@.subrange(0, 2) =~= slice@);
                lemma_le_bytes_bound(slice@);
                lemma_pow256_values();
                lemma_le_of_le_bytes(slice@);
            }
            if x < 0x8000 {
                Ok(x as i16)
            } else {
                Ok(-((0xFFFFu64 - x) as i16) - 1)
            }
        } else {
            Err(WrongSize)
        }
    }
}

impl<'a> Cast<'a> for i32 {
    open spec fn align_spec() -> nat {
        4
    }

    open spec fn size_spec() -> Option<nat> {
        Some(4)
    }

    open spec fn accepts_spec(bytes: Seq<u8>) -> bool {
        bytes.len() == 4
    }

    open spec fn wire_spec(self) -> Seq<u8> {
        le_of_spec(to_unsigned_spec(self as int, 0x100000000), 4)
    }

    open spec fn default_wire_spec() -> Seq<u8> {
        le_of_spec(0, 4)
    }

    proof fn lemma_cast_properties() {
        lemma_le_of_len(0, 4);
    }

    fn align() -> (r: usize) {
        4
    }

    fn fixed_size() -> (r: Option<usize>) {
        Some(4)
    }

    fn default_value() -> (r: Self) {
        0
    }

    fn try_from_aligned_slice(slice: &'a [u8]) -> (r: Result<Self, WrongSize>) {
        if slice.len() == 4 {
            let x = read_uint(slice, OffsetSize::U4, 0);
            proof {
                assert(slice@.subrange(0, 4) =~= slice@);
                lemma_le_bytes_bound(slice@);
                lemma_pow256_values();
                lemma_le_of_le_bytes(slice@);
            }
            if x < 0x80000000 {
                Ok(x as i32)
            } else {
                Ok(-((0xFFFFFFFFu64 - x) as i32) - 1)
            }
        } else {
            Err(WrongSize)
        }
    }
}

impl<'a> Cast<'a> for i64 {
    open spec fn align_spec() -> nat {
        8
    }

    open spec fn size_spec() -> Option<nat> {
        Some(8)
    }

    open spec fn accepts_spec(bytes: Seq<u8>) -> bool {
        bytes.len() == 8
    }

    open spec fn wire_spec(self) -> Seq<u8> {
        le_of_spec(to_unsigned_spec(self as int, 0x10000000000000000), 8)
    }

    open spec fn default_wire_spec() -> Seq<u8> {
        le_of_spec(0, 8)
    }

    proof fn lemma_cast_properties() {
        lemma_le_of_len(0, 8);
    }

    fn align() -> (r: usize) {
        8
    }

    fn fixed_size() -> (r: Option<usize>) {
        Some(8)
    }

    fn default_value() -> (r: Self) {
        0
    }

    fn try_from_aligned_slice(slice: &'a [u8]) -> (r: Result<Self, WrongSize>) {
        if slice.len() == 8 {
            let x = read_uint(slice, OffsetSize::U8, 0);
            proof {
                assert(slice@.subrange(0, 8) =~= slice@);
                lemma_le_bytes_bound(slice@);
                lemma_pow256_values();
                lemma_le_of_le_bytes(slice@);
            }
            if x < 0x8000000000000000 {
                Ok(x as i64)
            } else {
                Ok(-((0xFFFFFFFFFFFFFFFFu64 - x) as i64) - 1)
            }
        } else {
            Err(WrongSize)
        }
    }
}

/// The format's boolean.  Its wire representation is wider than Rust's:
/// one byte, where 0 means false and every value 1 through 255 means
/// true.
pub struct Bool(u8);

impl Bool {
    /// The byte this boolean view holds.
    pub closed spec fn byte_spec(self) -> u8 {
        self.0
    }

    /// Truthiness of the wire byte: false exactly for 0.  Deliberately
    /// `> 0`, not `== 1`.
    pub fn to_bool(&self) -> (r: bool)
        ensures
            r == (self.byte_spec() != 0),
    {
        self.0 > 0
    }
}

impl<'a> Cast<'a> for Bool {
    open spec fn align_spec() -> nat {
        1
    }

    open spec fn size_spec() -> Option<nat> {
        Some(1)
    }

    open spec fn accepts_spec(bytes: Seq<u8>) -> bool {
        bytes.len() == 1
    }

    open spec fn wire_spec(self) -> Seq<u8> {
        seq![self.byte_spec()]
    }

    open spec fn default_wire_spec() -> Seq<u8> {
        seq![0u8]
    }

    proof fn lemma_cast_properties() {
    }

    fn align() -> (r: usize) {
        1
    }

    fn fixed_size() -> (r: Option<usize>) {
        Some(1)
    }

    fn default_value() -> (r: Self) {
        Bool(0)
    }

    fn try_from_aligned_slice(slice: &'a [u8]) -> (r: Result<Self, WrongSize>) {
        if slice.len() == 1 {
            let b = slice[0];
            proof {
                assert(seq![b] =~= slice@);
            }
            Ok(Bool(b))
        } else {
            Err(WrongSize)
        }
    }
}

} // verus!
