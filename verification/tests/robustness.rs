use gvariant::Bool;
use gvariant::Cast;
use gvariant::MaybeFixedSize;
use gvariant::NonFixedWidthArray;
use gvariant::OffsetSize;
use gvariant::Str;
use gvariant::nth_last_frame_offset;
use gvariant::offset_size;
use gvariant::read_last_frame_offset;
use gvariant::read_uint;

#[test]
fn test_bool_whole_byte_range() {
    // 0x00 is false; every byte 0x01..=0xFF is true.
    for b in 0..=255u8 {
        assert_eq!(Bool::from_aligned_slice(&[b]).to_bool(), b != 0);
    }
}

#[test]
fn test_scalar_wrong_length_defaults() {
    assert_eq!(u8::from_aligned_slice(b""), 0);
    assert_eq!(u8::from_aligned_slice(&[7, 7]), 0);
    assert_eq!(u16::from_aligned_slice(&[0xFF]), 0);
    assert_eq!(u16::from_aligned_slice(&[1, 2, 3]), 0);
    assert_eq!(u32::from_aligned_slice(&[1, 2, 3]), 0);
    assert_eq!(u64::from_aligned_slice(&[1, 2, 3, 4, 5, 6, 7]), 0);
    assert_eq!(i16::from_aligned_slice(&[0xFF]), 0);
    assert_eq!(i64::from_aligned_slice(b""), 0);
    assert_eq!(Bool::from_aligned_slice(b"").to_bool(), false);
    assert_eq!(Bool::from_aligned_slice(&[1, 1]).to_bool(), false);
}

#[test]
fn test_signed_negative_values() {
    assert_eq!(i16::from_aligned_slice(&[0xFF, 0xFF]), -1);
    assert_eq!(i16::from_aligned_slice(&[0x00, 0x80]), i16::MIN);
    assert_eq!(i32::from_aligned_slice(&[0xFE, 0xFF, 0xFF, 0xFF]), -2);
    assert_eq!(
        i64::from_aligned_slice(&[0, 0, 0, 0, 0, 0, 0, 0x80]),
        i64::MIN
    );
}

#[test]
fn test_string_edges() {
    // Unterminated content reads as empty.
    assert_eq!(Str::from_aligned_slice(b"abc").to_bytes(), b"");
    // An interior NUL stays in the raw content but truncates the
    // C-string form.
    let s = Str::from_aligned_slice(b"ab\0cd\0");
    assert_eq!(s.to_bytes(), b"ab\0cd");
    assert_eq!(s.to_cstr(), b"ab");
    assert_eq!(Str::from_aligned_slice(b"\0").to_cstr(), b"");
    assert_eq!(Str::from_aligned_slice(b"abc").to_cstr(), b"");
}

#[test]
fn test_str_equality_truncates_at_nul() {
    // Equality compares the NUL-terminated forms, not the raw bytes.
    let a = Str::from_aligned_slice(b"ab\0zz\0");
    let b = Str::from_aligned_slice(b"ab\0");
    assert!(a == b);
    assert_ne!(a.to_bytes(), b.to_bytes());
    let c = Str::from_aligned_slice(b"ac\0");
    assert!(b != c);
}

#[test]
fn test_malformed_offsets_default() {
    // Three elements: a sound one, one whose stored end (8) lies beyond
    // the container (7 bytes), and one whose start (the previous end, 8)
    // crosses its own end (4).  The malformed ones read as the default
    // empty string, never as an out-of-range read.
    let a = NonFixedWidthArray::<Str>::from_aligned_slice(b"a\0b\0\x02\x08\x04");
    assert_eq!(a.len(), 3);
    assert_eq!(a.index(0).to_bytes(), b"a");
    assert_eq!(a.index(1).to_bytes(), b"");
    assert_eq!(a.index(2).to_bytes(), b"");
    let items = a.to_vec();
    assert_eq!(items[0].to_bytes(), b"a");
    assert_eq!(items[1].to_bytes(), b"");
    assert_eq!(items[2].to_bytes(), b"");

    // A last frame offset beyond the container describes no elements.
    let a = NonFixedWidthArray::<Str>::from_aligned_slice(b"a\x05");
    assert_eq!(a.len(), 0);
    assert!(a.is_empty());
    let mut it = a.iter();
    assert!(it.next().is_none());
}

#[test]
fn test_iteration_matches_indexing() {
    let a = NonFixedWidthArray::<Str>::from_aligned_slice(b"i\0can\0has\0strings?\0\x02\x06\x0a\x13");
    assert_eq!(a.len(), 4);
    let mut it = a.iter();
    for i in 0..a.len() {
        let by_iter = it.next().unwrap();
        assert_eq!(by_iter.to_bytes(), a.index(i).to_bytes());
    }
    assert!(it.next().is_none());
    assert!(it.next().is_none());
}

#[test]
fn test_maybe_fixed_sizes() {
    // Nothing for the empty range, just for exactly sizeof(T), nothing
    // for every other length.
    assert!(MaybeFixedSize::<u32>::from_aligned_slice(b"")
        .to_option()
        .is_none());
    assert_eq!(
        MaybeFixedSize::<u32>::from_aligned_slice(&[1, 0, 0, 0]).to_option(),
        Some(1)
    );
    assert!(MaybeFixedSize::<u32>::from_aligned_slice(&[1, 0])
        .to_option()
        .is_none());
    assert!(MaybeFixedSize::<u32>::from_aligned_slice(&[1, 0, 0, 0, 0])
        .to_option()
        .is_none());
    assert_eq!(
        MaybeFixedSize::<u8>::from_aligned_slice(&[9]).to_option(),
        Some(9)
    );
}

#[test]
fn test_fixed_array_edges() {
    // A length that is no multiple of the element size decodes to the
    // empty sequence.
    let v = <Vec<u32>>::from_aligned_slice(&[1, 2, 3, 4, 5, 6]);
    assert!(v.is_empty());
    let v = <Vec<u32>>::from_aligned_slice(&[2, 0, 0, 0, 1, 0, 0, 0]);
    assert_eq!(v, [2, 1]);
    let v = <Vec<u16>>::from_aligned_slice(b"");
    assert!(v.is_empty());
}

#[test]
fn test_offset_size_boundaries() {
    assert_eq!(offset_size(0), OffsetSize::U0);
    assert_eq!(offset_size(1), OffsetSize::U1);
    assert_eq!(offset_size(0xFF), OffsetSize::U1);
    assert_eq!(offset_size(0x100), OffsetSize::U2);
    assert_eq!(offset_size(0xFFFF), OffsetSize::U2);
    assert_eq!(offset_size(0x10000), OffsetSize::U4);
    assert_eq!(offset_size(0xFFFFFFFF), OffsetSize::U4);
    assert_eq!(offset_size(0x100000000), OffsetSize::U8);
    assert_eq!(OffsetSize::U0.width(), 0);
    assert_eq!(OffsetSize::U8.width(), 8);
}

#[test]
fn test_frame_offset_reads() {
    let data = [0xAB, 0xCD, 0x01, 0x02];
    assert_eq!(read_uint(&data, OffsetSize::U1, 2), 0x01);
    assert_eq!(read_uint(&data, OffsetSize::U2, 1), 0x0201);
    assert_eq!(read_uint(&data, OffsetSize::U4, 0), 0x0201CDAB);
    assert_eq!(read_uint(&data, OffsetSize::U0, 0), 0);
    assert_eq!(read_last_frame_offset(b""), (OffsetSize::U0, 0));
    assert_eq!(read_last_frame_offset(b"ab\x07"), (OffsetSize::U1, 7));
    assert_eq!(nth_last_frame_offset(&[1, 2, 3], OffsetSize::U1, 0), 3);
    assert_eq!(nth_last_frame_offset(&[1, 2, 3], OffsetSize::U1, 1), 2);
    assert_eq!(nth_last_frame_offset(&[1, 2, 3], OffsetSize::U1, 2), 1);
}

#[test]
fn test_decoding_is_idempotent() {
    // Decoding the same immutable range twice yields equal values and
    // leaves the buffer untouched.
    let data: [u8; 8] = [1, 2, 3, 4, 5, 6, 7, 8];
    assert_eq!(
        u64::from_aligned_slice(&data),
        u64::from_aligned_slice(&data)
    );
    let text = b"hello\0world\0\x06\x0c";
    let a1 = NonFixedWidthArray::<Str>::from_aligned_slice(text);
    let a2 = NonFixedWidthArray::<Str>::from_aligned_slice(text);
    assert_eq!(a1.len(), a2.len());
    assert_eq!(a1.index(0).to_bytes(), a2.index(0).to_bytes());
    assert_eq!(a1.index(1).to_bytes(), a2.index(1).to_bytes());
    assert_eq!(data, [1, 2, 3, 4, 5, 6, 7, 8]);
    assert_eq!(text, b"hello\0world\0\x06\x0c");
}

#[test]
fn test_empty_range_decodes_everywhere() {
    // Every decoder accepts the empty range and yields its default.
    assert_eq!(u32::from_aligned_slice(b""), 0);
    assert_eq!(Str::from_aligned_slice(b"").to_bytes(), b"");
    assert!(MaybeFixedSize::<u64>::from_aligned_slice(b"")
        .to_option()
        .is_none());
    assert!(NonFixedWidthArray::<Str>::from_aligned_slice(b"").is_empty());
    assert!(<Vec<i16>>::from_aligned_slice(b"").is_empty());
}
