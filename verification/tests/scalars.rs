use xdr_codec::{pack, padding, unpack, Pack, Unpack};

fn encode<T: Pack>(val: &T) -> (Vec<u8>, usize) {
    let mut out: Vec<u8> = Vec::new();
    let n = val.pack(&mut out).unwrap();
    (out, n)
}

#[test]
fn padding_of_each_remainder() {
    assert_eq!(padding(0), 0);
    assert_eq!(padding(1), 3);
    assert_eq!(padding(2), 2);
    assert_eq!(padding(3), 1);
    assert_eq!(padding(4), 0);
    assert_eq!(padding(5), 3);
    assert_eq!(padding(8), 0);
    assert_eq!(padding(1023), 1);
}

#[test]
fn padding_at_the_largest_length() {
    assert_eq!(padding(usize::MAX), 1);
    assert_eq!(padding(usize::MAX - 3), 0);
}

#[test]
fn padding_reaches_a_multiple_of_four() {
    for sz in 0usize..64 {
        let pad = padding(sz);
        assert!(pad < 4);
        assert_eq!((sz + pad) % 4, 0);
    }
}

#[test]
fn u8_is_one_byte() {
    assert_eq!(encode(&0xabu8), (vec![0xab], 1));
}

#[test]
fn u32_is_big_endian() {
    assert_eq!(encode(&0x0102_0304u32), (vec![1, 2, 3, 4], 4));
    assert_eq!(encode(&0u32), (vec![0, 0, 0, 0], 4));
    assert_eq!(encode(&u32::MAX), (vec![0xff, 0xff, 0xff, 0xff], 4));
}

#[test]
fn i32_is_twos_complement() {
    assert_eq!(encode(&-1i32), (vec![0xff, 0xff, 0xff, 0xff], 4));
    assert_eq!(encode(&-2i32), (vec![0xff, 0xff, 0xff, 0xfe], 4));
    assert_eq!(encode(&i32::MIN), (vec![0x80, 0, 0, 0], 4));
    assert_eq!(encode(&i32::MAX), (vec![0x7f, 0xff, 0xff, 0xff], 4));
    assert_eq!(encode(&0x1234_5678i32), (vec![0x12, 0x34, 0x56, 0x78], 4));
}

#[test]
fn u64_is_big_endian() {
    assert_eq!(
        encode(&0x0102_0304_0506_0708u64),
        (vec![1, 2, 3, 4, 5, 6, 7, 8], 8)
    );
    assert_eq!(encode(&u64::MAX), (vec![0xff; 8], 8));
}

#[test]
fn i64_is_twos_complement() {
    assert_eq!(encode(&-1i64), (vec![0xff; 8], 8));
    assert_eq!(encode(&i64::MIN), (vec![0x80, 0, 0, 0, 0, 0, 0, 0], 8));
    assert_eq!(
        encode(&-0x0102_0304_0506_0708i64),
        (vec![0xfe, 0xfd, 0xfc, 0xfb, 0xfa, 0xf9, 0xf8, 0xf8], 8)
    );
}

#[test]
fn bool_is_a_word() {
    assert_eq!(encode(&true), (vec![0, 0, 0, 1], 4));
    assert_eq!(encode(&false), (vec![0, 0, 0, 0], 4));
}

#[test]
fn unit_is_nothing() {
    assert_eq!(encode(&()), (vec![], 0));
    let bytes: [u8; 2] = [9, 9];
    let mut input: &[u8] = &bytes[..];
    assert_eq!(<()>::unpack(&mut input).unwrap(), ((), 0));
    assert_eq!(input, &[9, 9]);
}

#[test]
fn usize_is_a_32_bit_count() {
    assert_eq!(encode(&7usize), (vec![0, 0, 0, 7], 4));
    assert_eq!(encode(&0x0001_0000usize), (vec![0, 1, 0, 0], 4));
}

#[test]
fn usize_keeps_its_low_32_bits() {
    if usize::BITS > 32 {
        let big: usize = (0x1_0000_0005u64) as usize;
        assert_eq!(encode(&big), (vec![0, 0, 0, 5], 4));
        let max: usize = usize::MAX;
        assert_eq!(encode(&max), (vec![0xff, 0xff, 0xff, 0xff], 4));
    }
}

#[test]
fn pack_appends_to_what_is_there() {
    let mut out: Vec<u8> = vec![0xaa, 0xbb];
    assert_eq!(1u32.pack(&mut out).unwrap(), 4);
    assert_eq!(true.pack(&mut out).unwrap(), 4);
    assert_eq!(out, vec![0xaa, 0xbb, 0, 0, 0, 1, 0, 0, 0, 1]);
}

#[test]
fn pack_helper_drops_the_count() {
    let mut out: Vec<u8> = Vec::new();
    pack(&0x0a0b_0c0du32, &mut out).unwrap();
    pack(&-1i64, &mut out).unwrap();
    assert_eq!(out, vec![0x0a, 0x0b, 0x0c, 0x0d, 255, 255, 255, 255, 255, 255, 255, 255]);
}

#[test]
fn u8_decodes_from_one_byte() {
    let bytes: [u8; 3] = [0xab, 1, 2];
    let mut input: &[u8] = &bytes[..];
    assert_eq!(u8::unpack(&mut input).unwrap(), (0xab, 1));
    assert_eq!(input, &[1, 2]);
}

#[test]
fn u32_decodes_big_endian() {
    let bytes: [u8; 6] = [0x01, 0x02, 0x03, 0x04, 0xee, 0xff];
    let mut input: &[u8] = &bytes[..];
    assert_eq!(u32::unpack(&mut input).unwrap(), (0x0102_0304, 4));
    assert_eq!(input, &[0xee, 0xff]);
}

#[test]
fn i32_decodes_twos_complement() {
    let bytes: [u8; 8] = [0xff, 0xff, 0xff, 0xfe, 0x80, 0, 0, 0];
    let mut input: &[u8] = &bytes[..];
    assert_eq!(i32::unpack(&mut input).unwrap(), (-2, 4));
    assert_eq!(i32::unpack(&mut input).unwrap(), (i32::MIN, 4));
    assert!(input.is_empty());
}

#[test]
fn u64_decodes_big_endian() {
    let bytes: [u8; 9] = [1, 2, 3, 4, 5, 6, 7, 8, 9];
    let mut input: &[u8] = &bytes[..];
    assert_eq!(u64::unpack(&mut input).unwrap(), (0x0102_0304_0506_0708, 8));
    assert_eq!(input, &[9]);
}

#[test]
fn u64_decodes_at_any_offset() {
    let bytes: [u8; 11] = [0xaa, 0xff, 0, 0, 0, 0, 0, 0, 1, 0, 0xbb];
    for skip in 0usize..3 {
        let mut input: &[u8] = &bytes[skip..];
        let (v, n) = u64::unpack(&mut input).unwrap();
        assert_eq!(n, 8);
        let mut expect: u64 = 0;
        for k in 0usize..8 {
            expect = expect * 256 + u64::from(bytes[skip + k]);
        }
        assert_eq!(v, expect);
        assert_eq!(input.len(), 3 - skip);
    }
}

#[test]
fn i64_decodes_twos_complement() {
    let bytes: [u8; 8] = [0xff, 0xff, 0xff, 0xff, 0xff, 0xff, 0xff, 0xfd];
    let mut input: &[u8] = &bytes[..];
    assert_eq!(i64::unpack(&mut input).unwrap(), (-3, 8));
    let low: [u8; 8] = [0x80, 0, 0, 0, 0, 0, 0, 0];
    let mut input: &[u8] = &low[..];
    assert_eq!(i64::unpack(&mut input).unwrap(), (i64::MIN, 8));
}

#[test]
fn bool_decodes_zero_and_one() {
    let bytes: [u8; 8] = [0, 0, 0, 1, 0, 0, 0, 0];
    let mut input: &[u8] = &bytes[..];
    assert_eq!(bool::unpack(&mut input).unwrap(), (true, 4));
    assert_eq!(bool::unpack(&mut input).unwrap(), (false, 4));
}

#[test]
fn usize_decodes_a_32_bit_count() {
    let bytes: [u8; 4] = [0xff, 0xff, 0xff, 0xff];
    let mut input: &[u8] = &bytes[..];
    assert_eq!(usize::unpack(&mut input).unwrap(), (0xffff_ffff, 4));
}

#[test]
fn unpack_helper_drops_the_count() {
    let bytes: [u8; 12] = [0, 0, 0, 42, 0xff, 0xff, 0xff, 0xff, 0xff, 0xff, 0xff, 0xfe];
    let mut input: &[u8] = &bytes[..];
    let a: u32 = unpack(&mut input).unwrap();
    let b: i64 = unpack(&mut input).unwrap();
    assert_eq!((a, b), (42, -2));
    assert!(input.is_empty());
}

#[test]
fn scalars_come_back_as_they_went() {
    for v in [0u32, 1, 0x80, 0xffff, 0x8000_0000, u32::MAX] {
        let (bytes, n) = encode(&v);
        let mut input: &[u8] = &bytes[..];
        assert_eq!(u32::unpack(&mut input).unwrap(), (v, n));
    }
    for v in [0i32, 1, -1, i32::MIN, i32::MAX, -0x1234] {
        let (bytes, n) = encode(&v);
        let mut input: &[u8] = &bytes[..];
        assert_eq!(i32::unpack(&mut input).unwrap(), (v, n));
    }
    for v in [0u64, 1, 0xffff_ffff, 0x1_0000_0000, u64::MAX] {
        let (bytes, n) = encode(&v);
        let mut input: &[u8] = &bytes[..];
        assert_eq!(u64::unpack(&mut input).unwrap(), (v, n));
    }
    for v in [0i64, 1, -1, i64::MIN, i64::MAX, -0x1_0000_0001] {
        let (bytes, n) = encode(&v);
        let mut input: &[u8] = &bytes[..];
        assert_eq!(i64::unpack(&mut input).unwrap(), (v, n));
    }
    for v in [0u8, 1, 0x7f, 0x80, 0xff] {
        let (bytes, n) = encode(&v);
        let mut input: &[u8] = &bytes[..];
        assert_eq!(u8::unpack(&mut input).unwrap(), (v, n));
    }
    for v in [false, true] {
        let (bytes, n) = encode(&v);
        let mut input: &[u8] = &bytes[..];
        assert_eq!(bool::unpack(&mut input).unwrap(), (v, n));
    }
    for v in [0usize, 1, 0xffff_ffff] {
        let (bytes, n) = encode(&v);
        let mut input: &[u8] = &bytes[..];
        assert_eq!(usize::unpack(&mut input).unwrap(), (v, n));
    }
}
