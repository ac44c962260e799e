//! Framing offsets: the little-endian integers stored at the tail of a
//! container that record where each variable-sized child ends, and the
//! arithmetic used to read them and to re-align child positions.

use vstd::prelude::*;

verus! {

/// The value of a byte sequence read as a little-endian unsigned integer.
pub open spec fn le_bytes_spec(bytes: Seq<u8>) -> nat
    decreases bytes.len(),
{
    if bytes.len() == 0 {
        0
    } else {
        (bytes[0] + 256 * le_bytes_spec(bytes.subrange(1, bytes.len() as int))) as nat
    }
}

/// 256 to the power `w`: the number of values a `w`-byte integer can take.
pub open spec fn pow256(w: nat) -> nat
    decreases w,
{
    if w == 0 {
        1
    } else {
        256 * pow256((w - 1) as nat)
    }
}

/// The `w`-byte little-endian encoding of `v` (truncated to `w` bytes).
pub open spec fn le_of_spec(v: nat, w: nat) -> Seq<u8>
    decreases w,
{
    if w == 0 {
        Seq::empty()
    } else {
        seq![(v % 256) as u8].add(le_of_spec(v / 256, (w - 1) as nat))
    }
}

/// An encoding asked for with width `w` has exactly `w` bytes.
pub proof fn lemma_le_of_len(v: nat, w: nat)
    ensures
        le_of_spec(v, w).len() == w,
    decreases w,
{
    if w > 0 {
        lemma_le_of_len(v / 256, (w - 1) as nat);
    }
}

/// A `w`-byte little-endian integer is below `256^w`.
pub proof fn lemma_le_bytes_bound(bytes: Seq<u8>)
    ensures
        le_bytes_spec(bytes) < pow256(bytes.len()),
    decreases bytes.len(),
{
    if bytes.len() > 0 {
        lemma_le_bytes_bound(bytes.subrange(1, bytes.len() as int));
    }
}

/// Re-encoding the value of a byte sequence gives back the same bytes:
/// the little-endian reading loses nothing.
pub proof fn lemma_le_of_le_bytes(bytes: Seq<u8>)
    ensures
        le_of_spec(le_bytes_spec(bytes), bytes.len()) == bytes,
    decreases bytes.len(),
{
    if bytes.len() == 0 {
        assert(le_of_spec(le_bytes_spec(bytes), bytes.len()) =~= bytes);
    } else {
        let tail = bytes.subrange(1, bytes.len() as int);
        lemma_le_of_le_bytes(tail);
        lemma_le_bytes_bound(tail);
        let v = le_bytes_spec(bytes);
        assert(v == bytes[0] + 256 * le_bytes_spec(tail));
        assert(v % 256 == bytes[0] && v / 256 == le_bytes_spec(tail)) by (nonlinear_arith)
            requires
                v == bytes[0] + 256 * le_bytes_spec(tail),
                0 <= bytes[0] < 256,
        ;
        assert(le_of_spec(v, bytes.len()) =~= bytes);
    }
}

/// Decoding the little-endian encoding of `v` recovers `v` exactly,
/// for every value that fits in `w` bytes.
pub proof fn lemma_le_bytes_le_of(v: nat, w: nat)
    requires
        v < pow256(w),
    ensures
        le_bytes_spec(le_of_spec(v, w)) == v,
    decreases w,
{
    if w > 0 {
        assert(v / 256 < pow256((w - 1) as nat)) by (nonlinear_arith)
            requires
                v < 256 * pow256((w - 1) as nat),
        ;
        lemma_le_bytes_le_of(v / 256, (w - 1) as nat);
        let enc = le_of_spec(v, w);
        assert(enc.subrange(1, enc.len() as int) =~= le_of_spec(v / 256, (w - 1) as nat));
        assert(v % 256 + 256 * (v / 256) == v) by (nonlinear_arith);
    }
}

/// The width, in bytes, of one framing offset.
#[derive(Debug, Clone, Copy, PartialEq, Eq, Structural)]
pub enum OffsetSize {
    U0,
    U1,
    U2,
    U4,
    U8,
}

impl OffsetSize {
    /// The number of bytes this width stands for.
    pub open spec fn width_spec(self) -> nat {
        match self {
            OffsetSize::U0 => 0,
            OffsetSize::U1 => 1,
            OffsetSize::U2 => 2,
            OffsetSize::U4 => 4,
            OffsetSize::U8 => 8,
        }
    }

    /// The number of bytes this width stands for.
    pub fn width(self) -> (r: usize)
        ensures
            r == self.width_spec(),
    {
        match self {
            OffsetSize::U0 => 0,
            OffsetSize::U1 => 1,
            OffsetSize::U2 => 2,
            OffsetSize::U4 => 4,
            OffsetSize::U8 => 8,
        }
    }
}

/// The framing-offset width a container of `len` bytes uses: a pure
/// function of the container's total length, never of its content.
pub open spec fn offset_size_spec(len: nat) -> OffsetSize {
    if len == 0 {
        OffsetSize::U0
    } else if len <= 0xFF {
        OffsetSize::U1
    } else if len <= 0xFFFF {
        OffsetSize::U2
    } else if len <= 0xFFFFFFFF {
        OffsetSize::U4
    } else {
        OffsetSize::U8
    }
}

/// Picks the framing-offset width for a container of `len` bytes.
pub fn offset_size(len: usize) -> (r: OffsetSize)
    ensures
        r == offset_size_spec(len as nat),
{
    if len == 0 {
        OffsetSize::U0
    } else if len <= 0xFF {
        OffsetSize::U1
    } else if len <= 0xFFFF {
        OffsetSize::U2
    } else if len as u64 <= 0xFFFFFFFF {
        OffsetSize::U4
    } else {
        OffsetSize::U8
    }
}

/// A non-empty container is at least as long as its offset width.
pub proof fn lemma_width_le_len(len: nat)
    ensures
        offset_size_spec(len).width_spec() <= len || len == 0,
{
}

/// Reads the `n`-th little-endian integer of width `size` from the start
/// of `data` (the integers are packed back to back).
pub fn read_uint(data: &[u8], size: OffsetSize, n: usize) -> (r: u64)
    requires
        (n + 1) * size.width_spec() <= data@.len(),
    ensures
        r == le_bytes_spec(
            data@.subrange(
                n * size.width_spec() as int,
                n * size.width_spec() as int + size.width_spec() as int,
            ),
        ),
{
    let w = size.width();
    if w == 0 {
        return 0;
    }
    let dlen = data.len();
    proof {
        assert((n + 1) * size.width_spec() == n * size.width_spec() + size.width_spec())
            by (nonlinear_arith);
        assert(n * size.width_spec() + size.width_spec() <= dlen);
    }
    let s = n * w;
    let ghost e = s + w;
    let mut acc: u64 = 0;
    let mut k: usize = 0;
    proof {
        lemma_pow256_values();
    }
    while k < w
        invariant
            w == size.width_spec(),
            1 <= w <= 8,
            0 <= k <= w,
            e == s + w,
            e <= dlen,
            dlen == data@.len(),
            acc == le_bytes_spec(data@.subrange(e - k, e as int)),
            acc < pow256(k as nat),
        decreases w - k,
    {
        let b = data[s + w - 1 - k];
        proof {
            lemma_pow256_values();
            let prev = data@.subrange(e - k, e as int);
            let cur = data@.subrange(e - k - 1, e as int);
            assert(cur.subrange(1, cur.len() as int) =~= prev);
            assert(cur[0] == data@[e - k - 1]);
        }
        acc = b as u64 + 256 * acc;
        k = k + 1;
    }
    proof {
        assert(data@.subrange(e - w, e as int) =~= data@.subrange(
            n * size.width_spec() as int,
            n * size.width_spec() as int + size.width_spec() as int,
        ));
    }
    acc
}

/// The small table of powers of 256 that the byte widths in use can reach.
pub proof fn lemma_pow256_values()
    ensures
        pow256(0) == 1,
        pow256(1) == 0x100,
        pow256(2) == 0x10000,
        pow256(3) == 0x1000000,
        pow256(4) == 0x100000000,
        pow256(5) == 0x10000000000,
        pow256(6) == 0x1000000000000,
        pow256(7) == 0x100000000000000,
        pow256(8) == 0x10000000000000000,
{
    assert(pow256(0) == 1);
    assert(pow256(1) == 0x100);
    assert(pow256(2) == 0x10000);
    assert(pow256(3) == 0x1000000);
    assert(pow256(4) == 0x100000000);
    assert(pow256(5) == 0x10000000000);
    assert(pow256(6) == 0x1000000000000);
    assert(pow256(7) == 0x100000000000000);
    assert(pow256(8) == 0x10000000000000000);
}

/// The last framing offset stored in `data`: the `width` bytes at the very
/// end, read as a little-endian integer (0 for an empty container).
pub open spec fn last_frame_offset_spec(data: Seq<u8>) -> nat {
    le_bytes_spec(
        data.subrange(
            data.len() - offset_size_spec(data.len()).width_spec(),
            data.len() as int,
        ),
    )
}

/// Reads the offset width of `data` and its last stored framing offset.
pub fn read_last_frame_offset(data: &[u8]) -> (r: (OffsetSize, u64))
    ensures
        r.0 == offset_size_spec(data@.len()),
        r.1 == last_frame_offset_spec(data@),
{
    let osz = offset_size(data.len());
    let w = osz.width();
    proof {
        lemma_width_le_len(data@.len());
    }
    if w == 0 {
        proof {
            assert(data@.subrange(data@.len() - 0, data@.len() as int) =~= Seq::<u8>::empty());
        }
        return (osz, 0);
    }
    let sub = vstd::slice::slice_subrange(data, data.len() - w, data.len());
    let r = read_uint(sub, osz, 0);
    proof {
        assert(sub@.subrange(0, w as int) =~= sub@);
    }
    (osz, r)
}

/// Reads the `n`-th framing offset counted from the back of `data`
/// (`n == 0` is the last one).
pub fn nth_last_frame_offset(data: &[u8], osz: OffsetSize, n: usize) -> (r: u64)
    requires
        (n + 1) * osz.width_spec() <= data@.len(),
    ensures
        r == le_bytes_spec(
            data@.subrange(
                data@.len() - (n + 1) * osz.width_spec(),
                data@.len() - n * osz.width_spec(),
            ),
        ),
{
    let w = osz.width();
    if w == 0 {
        proof {
            assert(data@.subrange(data@.len() as int, data@.len() as int) =~= Seq::<u8>::empty());
        }
        return 0;
    }
    proof {
        assert((n + 1) * osz.width_spec() == n * osz.width_spec() + osz.width_spec())
            by (nonlinear_arith);
    }
    let off = data.len() - (n + 1) * w;
    let sub = vstd::slice::slice_subrange(data, off, off + w);
    let r = read_uint(sub, osz, 0);
    proof {
        assert(sub@.subrange(0, w as int) =~= sub@);
    }
    r
}

/// Multiplying both sides moves through a flooring division: `k` whole
/// widths fit into `a` exactly when `k` is at most `a / w`.
pub proof fn lemma_mul_div_le(k: int, a: int, w: int)
    requires
        1 <= w,
        0 <= k,
        0 <= a,
    ensures
        (k * w <= a) <==> (k <= a / w),
{
    let q = a / w;
    let r = a % w;
    vstd::arithmetic::div_mod::lemma_fundamental_div_mod(a, w);
    vstd::arithmetic::div_mod::lemma_mod_bound(a, w);
    assert((k * w <= a) <==> (k <= q)) by (nonlinear_arith)
        requires
            a == q * w + r,
            0 <= r < w,
            0 <= k,
            0 <= q,
    ;
}

/// The next position at or after `pos` that satisfies `align`.
pub open spec fn round_up_spec(pos: int, align: int) -> int
    recommends
        1 <= align,
{
    ((pos + align - 1) / align) * align
}

/// What rounding up to an alignment gives: the nearest multiple of
/// `align` at or after `pos`, less than one whole alignment away.
pub proof fn lemma_round_up(pos: int, align: int)
    requires
        0 <= pos,
        1 <= align,
    ensures
        pos <= round_up_spec(pos, align) < pos + align,
        round_up_spec(pos, align) % align == 0,
        pos % align == 0 ==> round_up_spec(pos, align) == pos,
{
    let q = pos / align;
    let r = pos % align;
    vstd::arithmetic::div_mod::lemma_fundamental_div_mod(pos, align);
    vstd::arithmetic::div_mod::lemma_mod_bound(pos, align);
    if r == 0 {
        assert((pos + align - 1) / align == q && q * align == pos) by (nonlinear_arith)
            requires
                pos == q * align,
                1 <= align,
        ;
        assert(pos % align == 0 ==> round_up_spec(pos, align) == pos);
        assert(round_up_spec(pos, align) % align == 0) by (nonlinear_arith)
            requires
                round_up_spec(pos, align) == pos,
                pos == q * align,
                1 <= align,
        ;
    } else {
        assert((pos + align - 1) / align == q + 1) by (nonlinear_arith)
            requires
                pos == q * align + r,
                1 <= r < align,
        ;
        assert(pos <= (q + 1) * align < pos + align) by (nonlinear_arith)
            requires
                pos == q * align + r,
                1 <= r < align,
        ;
        assert(((q + 1) * align) % align == 0) by (nonlinear_arith)
            requires
                1 <= align,
        ;
    }
}

/// Rounds `pos` up to the next multiple of `align`, reporting the case
/// where that position does not fit in the integer width used here.
pub fn checked_round_up(pos: u64, align: usize) -> (r: Option<u64>)
    requires
        1 <= align,
    ensures
        match r {
            Some(v) => v == round_up_spec(pos as int, align as int),
            None => round_up_spec(pos as int, align as int) > u64::MAX,
        },
{
    proof {
        lemma_round_up(pos as int, align as int);
    }
    let a = align as u64;
    let rem = pos % a;
    if rem == 0 {
        Some(pos)
    } else {
        match pos.checked_add(a - rem) {
            Some(v) => {
                proof {
                    let q = pos as int / align as int;
                    vstd::arithmetic::div_mod::lemma_fundamental_div_mod(
                        pos as int,
                        align as int,
                    );
                    assert(v == (q + 1) * (align as int) && round_up_spec(
                        pos as int,
                        align as int,
                    ) == (q + 1) * (align as int)) by (nonlinear_arith)
                        requires
                            pos == q * align + rem,
                            1 <= rem < align,
                            v == pos + align - rem,
                            round_up_spec(pos as int, align as int) == ((pos + align - 1)
                                / (align as int)) * (align as int),
                    ;
                }
                Some(v)
            },
            None => {
                proof {
                    let q = pos as int / align as int;
                    vstd::arithmetic::div_mod::lemma_fundamental_div_mod(
                        pos as int,
                        align as int,
                    );
                    assert(round_up_spec(pos as int, align as int) == pos + align - rem)
                        by (nonlinear_arith)
                        requires
                            pos == q * align + rem,
                            1 <= rem < align,
                            round_up_spec(pos as int, align as int) == ((pos + align - 1)
                                / (align as int)) * (align as int),
                    ;
                }
                None
            },
        }
    }
}

} // verus!
