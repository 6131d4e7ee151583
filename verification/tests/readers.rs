use pe_parser::utils::{from_be_bytes, from_le_bytes, left_slice, right_slice, split_at};
use pe_parser::utils::{FromBe, FromLe};

#[test]
fn split_at_inside_gives_both_parts() {
    let data = [10u8, 20, 30, 40, 50];
    let (left, right) = split_at(&data, 2).unwrap();
    assert_eq!(left, &[10u8, 20][..]);
    assert_eq!(right, &[30u8, 40, 50][..]);
}

#[test]
fn split_at_the_ends_gives_an_empty_part() {
    let data = [1u8, 2, 3];
    let (left, right) = split_at(&data, 0).unwrap();
    assert!(left.is_empty());
    assert_eq!(right, &[1u8, 2, 3][..]);
    let (left, right) = split_at(&data, 3).unwrap();
    assert_eq!(left, &[1u8, 2, 3][..]);
    assert!(right.is_empty());
}

#[test]
fn split_at_past_the_end_is_none() {
    let data = [1u8, 2, 3];
    assert!(split_at(&data, 4).is_none());
    assert!(split_at(&data, usize::MAX).is_none());
    let empty: [u8; 0] = [];
    assert!(split_at(&empty, 1).is_none());
    assert!(split_at(&empty, 0).is_some());
}

#[test]
fn split_at_works_on_other_element_types() {
    let words = ["a", "b", "c", "d"];
    let (left, right) = split_at(&words, 1).unwrap();
    assert_eq!(left, &["a"][..]);
    assert_eq!(right, &["b", "c", "d"][..]);
}

#[test]
fn left_slice_takes_a_prefix() {
    let data = [7u8, 8, 9];
    assert_eq!(left_slice(&data, 0).unwrap(), &[][..] as &[u8]);
    assert_eq!(left_slice(&data, 2).unwrap(), &[7u8, 8][..]);
    assert_eq!(left_slice(&data, 3).unwrap(), &[7u8, 8, 9][..]);
    assert!(left_slice(&data, 4).is_none());
}

#[test]
fn right_slice_takes_a_suffix() {
    let data = [7u8, 8, 9];
    assert_eq!(right_slice(&data, 0).unwrap(), &[7u8, 8, 9][..]);
    assert_eq!(right_slice(&data, 1).unwrap(), &[8u8, 9][..]);
    assert_eq!(right_slice(&data, 3).unwrap(), &[][..] as &[u8]);
    assert!(right_slice(&data, 4).is_none());
}

#[test]
fn little_endian_u16() {
    assert_eq!(from_le_bytes::<u16, 2>(&[0x34, 0x12]), Some(0x1234u16));
    assert_eq!(from_le_bytes::<u16, 2>(&[0xFF, 0xFF]), Some(u16::MAX));
    assert_eq!(from_le_bytes::<u16, 2>(&[0x00, 0x00]), Some(0u16));
    assert_eq!(from_le_bytes::<u16, 2>(&[0x01, 0x00, 0xAA]), Some(1u16));
}

#[test]
fn little_endian_u32() {
    assert_eq!(from_le_bytes::<u32, 4>(&[0x78, 0x56, 0x34, 0x12]), Some(0x1234_5678u32));
    assert_eq!(from_le_bytes::<u32, 4>(&[0xFF, 0xFF, 0xFF, 0xFF]), Some(u32::MAX));
    assert_eq!(from_le_bytes::<u32, 4>(&[0x00, 0x00, 0x00, 0x80]), Some(0x8000_0000u32));
    assert_eq!(from_le_bytes::<u32, 4>(&[1, 2, 3, 4, 5, 6]), Some(0x0403_0201u32));
}

#[test]
fn little_endian_i32() {
    assert_eq!(from_le_bytes::<i32, 4>(&[0x40, 0x00, 0x00, 0x00]), Some(0x40i32));
    assert_eq!(from_le_bytes::<i32, 4>(&[0xFF, 0xFF, 0xFF, 0x7F]), Some(i32::MAX));
    assert_eq!(from_le_bytes::<i32, 4>(&[0x00, 0x00, 0x00, 0x80]), Some(i32::MIN));
    assert_eq!(from_le_bytes::<i32, 4>(&[0xFF, 0xFF, 0xFF, 0xFF]), Some(-1i32));
    assert_eq!(from_le_bytes::<i32, 4>(&[0xFE, 0xFF, 0xFF, 0xFF]), Some(-2i32));
}

#[test]
fn little_endian_u64() {
    assert_eq!(
        from_le_bytes::<u64, 8>(&[0xEF, 0xCD, 0xAB, 0x89, 0x67, 0x45, 0x23, 0x01]),
        Some(0x0123_4567_89AB_CDEFu64)
    );
    assert_eq!(from_le_bytes::<u64, 8>(&[0xFF; 8]), Some(u64::MAX));
    assert_eq!(
        from_le_bytes::<u64, 8>(&[0, 0, 0, 0, 0, 0, 0, 0x80]),
        Some(0x8000_0000_0000_0000u64)
    );
}

#[test]
fn big_endian_u32() {
    assert_eq!(from_be_bytes::<u32, 4>(&[0x50, 0x45, 0x00, 0x00]), Some(0x5045_0000u32));
    assert_eq!(from_be_bytes::<u32, 4>(&[0x12, 0x34, 0x56, 0x78]), Some(0x1234_5678u32));
    assert_eq!(from_be_bytes::<u32, 4>(&[0xFF, 0xFF, 0xFF, 0xFF, 0x00]), Some(u32::MAX));
}

#[test]
fn readers_refuse_short_slices() {
    assert_eq!(from_le_bytes::<u16, 2>(&[0x34]), None);
    assert_eq!(from_le_bytes::<u16, 2>(&[]), None);
    assert_eq!(from_le_bytes::<u32, 4>(&[1, 2, 3]), None);
    assert_eq!(from_le_bytes::<i32, 4>(&[1, 2, 3]), None);
    assert_eq!(from_le_bytes::<u64, 8>(&[1, 2, 3, 4, 5, 6, 7]), None);
    assert_eq!(from_be_bytes::<u32, 4>(&[0x50, 0x45, 0x00]), None);
}

#[test]
fn readers_agree_with_the_standard_library() {
    let samples: [[u8; 8]; 4] = [
        [0, 0, 0, 0, 0, 0, 0, 0],
        [0x01, 0x23, 0x45, 0x67, 0x89, 0xAB, 0xCD, 0xEF],
        [0xFF, 0x00, 0xFF, 0x00, 0xFF, 0x00, 0xFF, 0x00],
        [0x80, 0x7F, 0x80, 0x7F, 0xFE, 0xDC, 0xBA, 0x98],
    ];
    for bytes in samples.iter() {
        let two = [bytes[0], bytes[1]];
        let four = [bytes[0], bytes[1], bytes[2], bytes[3]];
        assert_eq!(from_le_bytes::<u16, 2>(bytes), Some(u16::from_le_bytes(two)));
        assert_eq!(from_le_bytes::<u32, 4>(bytes), Some(u32::from_le_bytes(four)));
        assert_eq!(from_le_bytes::<i32, 4>(bytes), Some(i32::from_le_bytes(four)));
        assert_eq!(from_le_bytes::<u64, 8>(bytes), Some(u64::from_le_bytes(*bytes)));
        assert_eq!(from_be_bytes::<u32, 4>(bytes), Some(u32::from_be_bytes(four)));
    }
}

#[test]
fn trait_methods_decode_arrays() {
    assert_eq!(<u16 as FromLe<2>>::from_le_bytes([0xCD, 0xAB]), 0xABCDu16);
    assert_eq!(<u32 as FromLe<4>>::from_le_bytes([0x04, 0x03, 0x02, 0x01]), 0x0102_0304u32);
    assert_eq!(<i32 as FromLe<4>>::from_le_bytes([0x00, 0xFF, 0xFF, 0xFF]), -256i32);
    assert_eq!(
        <u64 as FromLe<8>>::from_le_bytes([1, 0, 0, 0, 2, 0, 0, 0]),
        0x0000_0002_0000_0001u64
    );
    assert_eq!(<u32 as FromBe<4>>::from_be_bytes([0x04, 0x03, 0x02, 0x01]), 0x0403_0201u32);
}
