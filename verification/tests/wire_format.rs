use gvariant::Bool;
use gvariant::Cast;
use gvariant::MaybeNonFixedSize;
use gvariant::NonFixedWidthArray;
use gvariant::Str;

#[test]
fn test_numbers() {
    let data: [u8; 9] = [1, 2, 3, 4, 5, 6, 7, 8, 9];

    // If the size doesn't match exactly it should default to 0:
    assert_eq!(i32::from_aligned_slice(&data[..0]), 0);
    assert_eq!(i32::from_aligned_slice(&data[..3]), 0);
    assert_eq!(i32::from_aligned_slice(&data[..5]), 0);
    assert_eq!(i32::from_aligned_slice(&data[..8]), 0);

    // Common case (little endian):
    assert_eq!(Bool::from_aligned_slice(&data[..1]).to_bool(), true);
    assert_eq!(u8::from_aligned_slice(&data[..1]), 0x01);
    assert_eq!(i16::from_aligned_slice(&data[..2]), 0x0201);
    assert_eq!(u16::from_aligned_slice(&data[..2]), 0x0201);
    assert_eq!(i32::from_aligned_slice(&data[..4]), 0x04030201);
    assert_eq!(u32::from_aligned_slice(&data[..4]), 0x04030201);
    assert_eq!(i64::from_aligned_slice(&data[..8]), 0x0807060504030201);
    assert_eq!(u64::from_aligned_slice(&data[..8]), 0x0807060504030201);
    assert_eq!(
        f64::from_bits(u64::from_aligned_slice(&data[..8])),
        f64::from_bits(0x0807060504030201)
    );
}

#[test]
fn test_non_fixed_width_maybe() {
    assert!(MaybeNonFixedSize::<Str>::from_aligned_slice(b"")
        .to_option()
        .is_none());
    assert_eq!(
        MaybeNonFixedSize::<Str>::from_aligned_slice(b"\0")
            .to_option()
            .unwrap()
            .to_bytes(),
        b""
    );
    assert_eq!(
        MaybeNonFixedSize::<Str>::from_aligned_slice(b"hello world\0\0")
            .to_option()
            .unwrap()
            .to_bytes(),
        b"hello world"
    );
}

#[test]
fn test_non_fixed_width_array() {
    let a_s = NonFixedWidthArray::<Str>::from_aligned_slice(b"");
    assert_eq!(a_s.len(), 0);
    assert!(a_s.to_vec().is_empty());

    let a_s = NonFixedWidthArray::<Str>::from_aligned_slice(b"hello\0world\0\x06\x0c");
    assert_eq!(a_s.len(), 2);
    assert_eq!(
        a_s.to_vec().iter().map(|x| x.to_bytes()).collect::<Vec<_>>(),
        &[b"hello", b"world"]
    );
    assert_eq!(a_s.index(0).to_bytes(), b"hello");
    assert_eq!(a_s.index(1).to_bytes(), b"world");
}

#[test]
fn test_spec_examples() {
    assert_eq!(
        Str::from_aligned_slice(b"hello world\0").to_bytes(),
        b"hello world"
    );
    assert_eq!(
        MaybeNonFixedSize::<Str>::from_aligned_slice(b"hello world\0\0")
            .to_option()
            .unwrap()
            .to_bytes(),
        b"hello world"
    );
    let aob = <Vec<Bool>>::from_aligned_slice(&[1u8, 0, 0, 1, 1]);
    assert_eq!(
        aob.iter().map(|x| x.to_bool()).collect::<Vec<_>>(),
        [true, false, false, true, true]
    );

    // String array example, with type 'as':
    let v: Vec<_> =
        NonFixedWidthArray::<Str>::from_aligned_slice(b"i\0can\0has\0strings?\0\x02\x06\x0a\x13")
            .to_vec()
            .iter()
            .map(|x| x.to_bytes())
            .collect();
    assert_eq!(v, [b"i".as_ref(), b"can", b"has", b"strings?"]);

    // Array of bytes example, with type 'ay':
    let aob = <Vec<u8>>::from_aligned_slice(&[0x04u8, 0x05, 0x06, 0x07]);
    assert_eq!(aob, &[0x04u8, 0x05, 0x06, 0x07]);

    // Array of integers example, with type 'ai':
    let aoi = <Vec<i32>>::from_aligned_slice(b"\x04\0\0\0\x02\x01\0\0");
    assert_eq!(aoi, [4, 258]);
}

#[test]
fn test_gvariantstr() {
    assert_eq!(Str::from_aligned_slice(b"").to_bytes(), b"");
    assert_eq!(Str::from_aligned_slice(b"\0").to_bytes(), b"");
    assert_eq!(
        Str::from_aligned_slice(b"hello world\0").to_bytes(),
        b"hello world"
    );
}
