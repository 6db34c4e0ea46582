use fot_save::error::ParseError;
use fot_save::stream::Stream;

#[test]
fn new_cursor_starts_at_zero() {
    let data = [1u8, 2, 3];
    let s = Stream::new(&data);
    assert_eq!(s.pos(), 0);
    assert_eq!(s.len(), 3);
    assert_eq!(s.remain(), 3);
}

#[test]
fn empty_buffer_has_nothing_left() {
    let data: [u8; 0] = [];
    let mut s = Stream::new(&data);
    assert_eq!(s.remain(), 0);
    assert_eq!(s.skip(0), Ok(()));
    assert_eq!(s.read_u8(), Err(ParseError::Io));
}

#[test]
fn skip_moves_forward() {
    let data = [1u8, 2, 3, 4, 5];
    let mut s = Stream::new(&data);
    assert_eq!(s.skip(2), Ok(()));
    assert_eq!(s.pos(), 2);
    assert_eq!(s.remain(), 3);
    assert_eq!(s.len(), 5);
    assert_eq!(s.skip(3), Ok(()));
    assert_eq!(s.pos(), 5);
    assert_eq!(s.remain(), 0);
}

#[test]
fn skip_past_the_end_fails_without_moving() {
    let data = [1u8, 2, 3];
    let mut s = Stream::new(&data);
    s.skip(1).unwrap();
    assert_eq!(s.skip(3), Err(ParseError::Io));
    assert_eq!(s.pos(), 1);
    assert_eq!(s.remain(), 2);
}

#[test]
fn read_slice_hands_out_exactly_the_bytes() {
    let data = [10u8, 20, 30, 40];
    let mut s = Stream::new(&data);
    assert_eq!(s.read_slice(3), Ok(&data[0..3]));
    assert_eq!(s.pos(), 3);
    assert_eq!(s.read_slice(0), Ok(&data[3..3]));
    assert_eq!(s.read_slice(2), Err(ParseError::Io));
    assert_eq!(s.pos(), 3);
    assert_eq!(s.read_slice(1), Ok(&data[3..4]));
    assert_eq!(s.remain(), 0);
}

#[test]
fn read_cstr_stops_at_the_first_zero() {
    let data = [b'a', b'b', 0, b'c', 0, 0];
    let mut s = Stream::new(&data);
    assert_eq!(s.read_cstr(), Ok(&b"ab"[..]));
    assert_eq!(s.pos(), 3);
    assert_eq!(s.read_cstr(), Ok(&b"c"[..]));
    assert_eq!(s.pos(), 5);
    assert_eq!(s.read_cstr(), Ok(&b""[..]));
    assert_eq!(s.pos(), 6);
}

#[test]
fn read_cstr_without_terminator_is_an_encoding_error() {
    let data = [b'a', b'b', b'c'];
    let mut s = Stream::new(&data);
    s.skip(1).unwrap();
    assert_eq!(s.read_cstr(), Err(ParseError::Encoding));
    assert_eq!(s.pos(), 1);
    let empty: [u8; 0] = [];
    let mut e = Stream::new(&empty);
    assert_eq!(e.read_cstr(), Err(ParseError::Encoding));
}

#[test]
fn substream_is_bounded_and_independent() {
    let data = [1u8, 2, 3, 4, 5, 6];
    let mut s = Stream::new(&data);
    s.skip(1).unwrap();
    let mut sub = s.substream(3).unwrap();
    assert_eq!(s.pos(), 4);
    assert_eq!(sub.pos(), 0);
    assert_eq!(sub.len(), 3);
    assert_eq!(sub.read_slice(3), Ok(&data[1..4]));
    assert_eq!(sub.read_u8(), Err(ParseError::Io));
    assert_eq!(s.read_u8(), Ok(5));
}

#[test]
fn substream_past_the_end_fails_without_moving() {
    let data = [1u8, 2, 3];
    let mut s = Stream::new(&data);
    assert!(matches!(s.substream(4), Err(ParseError::Io)));
    assert_eq!(s.pos(), 0);
}

#[test]
fn copies_of_a_cursor_move_apart() {
    let data = [1u8, 2, 3];
    let mut s = Stream::new(&data);
    let mut look = s;
    assert_eq!(look.read_u8(), Ok(1));
    assert_eq!(s.pos(), 0);
    assert_eq!(s.read_u8(), Ok(1));
}

#[test]
fn reads_bytes_signed_and_unsigned() {
    let data = [0x7fu8, 0x80, 0xff, 0x00];
    let mut s = Stream::new(&data);
    assert_eq!(s.read_u8(), Ok(0x7f));
    assert_eq!(s.read_u8(), Ok(0x80));
    let mut t = Stream::new(&data);
    assert_eq!(t.read_i8(), Ok(127));
    assert_eq!(t.read_i8(), Ok(-128));
    assert_eq!(t.read_i8(), Ok(-1));
    assert_eq!(t.read_i8(), Ok(0));
    assert_eq!(t.read_i8(), Err(ParseError::Io));
}

#[test]
fn reads_little_endian_16_bit() {
    let data = [0x01u8, 0x02, 0xfe, 0xff, 0x00, 0x80];
    let mut s = Stream::new(&data);
    assert_eq!(s.read_u16(), Ok(0x0201));
    assert_eq!(s.read_u16(), Ok(0xfffe));
    assert_eq!(s.read_u16(), Ok(0x8000));
    assert_eq!(s.read_u16(), Err(ParseError::Io));
    let mut t = Stream::new(&data);
    assert_eq!(t.read_i16(), Ok(513));
    assert_eq!(t.read_i16(), Ok(-2));
    assert_eq!(t.read_i16(), Ok(-32768));
    assert_eq!(t.pos(), 6);
}

#[test]
fn reads_little_endian_32_bit() {
    let data = [0x01u8, 0x02, 0x03, 0x04, 0xff, 0xff, 0xff, 0xff, 0x00, 0x00, 0x00, 0x80];
    let mut s = Stream::new(&data);
    assert_eq!(s.read_u32(), Ok(0x04030201));
    assert_eq!(s.pos(), 4);
    assert_eq!(s.read_u32(), Ok(0xffff_ffff));
    assert_eq!(s.read_u32(), Ok(0x8000_0000));
    let mut t = Stream::new(&data);
    assert_eq!(t.read_i32(), Ok(0x04030201));
    assert_eq!(t.read_i32(), Ok(-1));
    assert_eq!(t.read_i32(), Ok(i32::MIN));
    assert_eq!(t.read_i32(), Err(ParseError::Io));
}

#[test]
fn short_integer_reads_fail_without_moving() {
    let data = [1u8, 2, 3];
    let mut s = Stream::new(&data);
    assert_eq!(s.read_u32(), Err(ParseError::Io));
    assert_eq!(s.read_i32(), Err(ParseError::Io));
    assert_eq!(s.pos(), 0);
    s.skip(2).unwrap();
    assert_eq!(s.read_u16(), Err(ParseError::Io));
    assert_eq!(s.read_i16(), Err(ParseError::Io));
    assert_eq!(s.pos(), 2);
}

#[test]
fn error_descriptions() {
    assert_eq!(ParseError::Io.describe(), "IO error: unexpected end of data");
    assert_eq!(
        ParseError::InvalidSection("<esh>\0", "<esx>\0".to_string()).describe(),
        "Invalid section: expected <esh>\0, found <esx>\0"
    );
    assert_eq!(
        ParseError::Encoding.describe(),
        "Encoding error: text is not terminated or not valid"
    );
    assert_eq!(
        ParseError::Decompress.describe(),
        "Decompression error: payload is corrupt or not of the declared size"
    );
    assert_eq!(ParseError::MissingCampaign.describe(), "Invalid archive: no campaign entry");
}
