use fot_save::codec::{
    array_to_words, parse_array, parse_optional, words_to_array, write_array, write_optional,
    Encodable,
};
use fot_save::error::ParseError;
use fot_save::primitive::{put_bytes, put_i16, put_i32, put_i8, put_u16, put_u32, put_u8};
use fot_save::stream::Stream;

#[test]
fn appends_single_bytes() {
    let mut out = vec![9u8];
    put_u8(&mut out, 0xab);
    put_i8(&mut out, -1);
    put_i8(&mut out, -128);
    put_i8(&mut out, 127);
    assert_eq!(out, vec![9, 0xab, 0xff, 0x80, 0x7f]);
}

#[test]
fn appends_little_endian_integers() {
    let mut out = Vec::new();
    put_u16(&mut out, 0x0201);
    put_i16(&mut out, -2);
    put_u32(&mut out, 0x04030201);
    put_i32(&mut out, -1);
    put_i32(&mut out, i32::MIN);
    assert_eq!(
        out,
        vec![1, 2, 0xfe, 0xff, 1, 2, 3, 4, 0xff, 0xff, 0xff, 0xff, 0, 0, 0, 0x80]
    );
}

#[test]
fn appends_runs_of_bytes() {
    let mut out = vec![1u8];
    put_bytes(&mut out, &[2, 3]);
    put_bytes(&mut out, &[]);
    assert_eq!(out, vec![1, 2, 3]);
}

#[test]
fn integers_come_back_from_their_bytes() {
    for v in [0u32, 1, 255, 256, 65535, 65536, 0x7fff_ffff, 0x8000_0000, u32::MAX] {
        let mut out = Vec::new();
        v.write(&mut out);
        assert_eq!(out.len(), 4);
        assert_eq!(out, v.to_le_bytes().to_vec());
        let mut s = Stream::new(&out);
        assert_eq!(u32::parse(&mut s), Ok(v));
        assert_eq!(s.pos(), 4);
    }
    for v in [0i32, 1, -1, i32::MIN, i32::MAX, -1_000_000] {
        let mut out = Vec::new();
        v.write(&mut out);
        assert_eq!(out, v.to_le_bytes().to_vec());
        let mut s = Stream::new(&out);
        assert_eq!(i32::parse(&mut s), Ok(v));
    }
    for v in [0u8, 1, 0x98, 255] {
        let mut out = Vec::new();
        v.write(&mut out);
        assert_eq!(out, vec![v]);
        let mut s = Stream::new(&out);
        assert_eq!(u8::parse(&mut s), Ok(v));
    }
}

#[test]
fn counted_sequence_reads_its_count_then_its_elements() {
    let data = [2u8, 0, 0, 0, 1, 0, 0, 0, 2, 0, 0, 0, 0xee];
    let mut s = Stream::new(&data);
    assert_eq!(Vec::<u32>::parse(&mut s), Ok(vec![1, 2]));
    assert_eq!(s.pos(), 12);
}

#[test]
fn counted_sequence_writes_count_and_elements() {
    let mut out = Vec::new();
    vec![1u32, 2].write(&mut out);
    assert_eq!(out, vec![2, 0, 0, 0, 1, 0, 0, 0, 2, 0, 0, 0]);
    let mut empty = Vec::new();
    Vec::<i32>::new().write(&mut empty);
    assert_eq!(empty, vec![0, 0, 0, 0]);
}

#[test]
fn counted_sequence_fails_on_the_first_bad_element() {
    let data = [3u8, 0, 0, 0, 1, 0, 0, 0, 2, 0, 0, 0, 3, 0];
    let mut s = Stream::new(&data);
    assert_eq!(Vec::<u32>::parse(&mut s), Err(ParseError::Io));
    let short = [3u8, 0, 0];
    let mut t = Stream::new(&short);
    assert_eq!(Vec::<u32>::parse(&mut t), Err(ParseError::Io));
}

#[test]
fn nested_counted_sequences() {
    let value: Vec<Vec<u8>> = vec![vec![1, 2], vec![], vec![3]];
    let mut out = Vec::new();
    value.write(&mut out);
    assert_eq!(
        out,
        vec![3, 0, 0, 0, 2, 0, 0, 0, 1, 2, 0, 0, 0, 0, 1, 0, 0, 0, 3]
    );
    let mut s = Stream::new(&out);
    assert_eq!(Vec::<Vec<u8>>::parse(&mut s), Ok(value));
    assert_eq!(s.remain(), 0);
}

#[test]
fn fixed_array_takes_exactly_its_elements() {
    let data = [1u8, 0, 0, 0, 2, 0, 0, 0, 3, 0, 0, 0, 9, 9, 9, 9, 9, 9, 9, 9];
    let mut s = Stream::new(&data);
    assert_eq!(parse_array::<u32>(&mut s, 3), Ok(vec![1, 2, 3]));
    assert_eq!(s.pos(), 12);
    assert_eq!(s.remain(), 8);
    let mut t = Stream::new(&data);
    assert_eq!(parse_array::<u32>(&mut t, 0), Ok(vec![]));
    assert_eq!(t.pos(), 0);
}

#[test]
fn fixed_array_of_variable_elements_takes_exactly_their_bytes() {
    // three counted byte runs of 1, 0 and 2 bytes, then trailing bytes
    let data = [1u8, 0, 0, 0, 7, 0, 0, 0, 0, 2, 0, 0, 0, 8, 9, 0xaa, 0xbb];
    let mut s = Stream::new(&data);
    assert_eq!(
        parse_array::<Vec<u8>>(&mut s, 3),
        Ok(vec![vec![7], vec![], vec![8, 9]])
    );
    assert_eq!(s.pos(), 15);
}

#[test]
fn fixed_array_needs_all_its_elements() {
    let data = [1u8, 0, 0, 0, 2, 0, 0, 0, 3, 0, 0];
    let mut s = Stream::new(&data);
    assert_eq!(parse_array::<u32>(&mut s, 3), Err(ParseError::Io));
}

#[test]
fn fixed_array_writes_no_count() {
    let mut out = Vec::new();
    write_array::<u32>(&vec![1, 2, 3], &mut out);
    assert_eq!(out, vec![1, 0, 0, 0, 2, 0, 0, 0, 3, 0, 0, 0]);
}

#[test]
fn optional_value_follows_its_presence_byte() {
    let absent = [0u8, 5, 0, 0, 0];
    let mut s = Stream::new(&absent);
    assert_eq!(parse_optional::<u32>(&mut s), Ok(None));
    assert_eq!(s.pos(), 1);
    let present = [7u8, 5, 0, 0, 0];
    let mut t = Stream::new(&present);
    assert_eq!(parse_optional::<u32>(&mut t), Ok(Some(5)));
    assert_eq!(t.pos(), 5);
    let cut = [1u8, 5, 0];
    let mut u = Stream::new(&cut);
    assert_eq!(parse_optional::<u32>(&mut u), Err(ParseError::Io));
    let empty: [u8; 0] = [];
    let mut e = Stream::new(&empty);
    assert_eq!(parse_optional::<u32>(&mut e), Err(ParseError::Io));
}

#[test]
fn optional_value_writes_its_presence_byte() {
    let mut out = Vec::new();
    write_optional::<u32>(&None, &mut out);
    write_optional::<u32>(&Some(5), &mut out);
    assert_eq!(out, vec![0, 1, 5, 0, 0, 0]);
}

#[test]
fn words_move_between_arrays_and_vectors() {
    let a: [u32; 3] = words_to_array::<3>(&vec![1, 2, 3]);
    assert_eq!(a, [1, 2, 3]);
    assert_eq!(array_to_words::<4>(&[4, 5, 6, 7]), vec![4, 5, 6, 7]);
    let none: [u32; 0] = words_to_array::<0>(&vec![]);
    assert_eq!(array_to_words::<0>(&none), Vec::<u32>::new());
}
