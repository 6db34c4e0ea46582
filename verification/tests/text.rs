use fot_save::codec::Encodable;
use fot_save::error::ParseError;
use fot_save::stream::Stream;
use fot_save::text::{
    accept_code_page, accept_plain, accept_utf16, put_code_page_text, put_plain_text,
    put_utf16_text, FOTString,
};

fn written(s: &FOTString) -> Vec<u8> {
    let mut out = Vec::new();
    s.write(&mut out);
    out
}

#[test]
fn plain_header_reads_one_byte_per_character() {
    let data = [3u8, 0, 0, 0, b'a', b'b', b'c', b'd'];
    let mut s = Stream::new(&data);
    assert_eq!(FOTString::read(&mut s), Ok(FOTString::Ascii("abc".to_string())));
    assert_eq!(s.pos(), 7);
}

#[test]
fn plain_text_is_read_in_the_code_page() {
    let data = [2u8, 0, 0, 0, 0xcf, 0xf0];
    let mut s = Stream::new(&data);
    assert_eq!(s.read_string(), Ok(FOTString::Ascii("Пр".to_string())));
}

#[test]
fn plain_text_tolerates_the_undefined_byte() {
    let data = [3u8, 0, 0, 0, b'a', 0x98, b'b'];
    let mut s = Stream::new(&data);
    assert_eq!(
        FOTString::read(&mut s),
        Ok(FOTString::Ascii("a\u{98}b".to_string()))
    );
    assert_eq!(s.pos(), 7);
}

#[test]
fn empty_text_fields() {
    let plain = [0u8, 0, 0, 0];
    let mut s = Stream::new(&plain);
    assert_eq!(FOTString::parse(&mut s), Ok(FOTString::Ascii(String::new())));
    assert_eq!(s.pos(), 4);
    let wide = [0u8, 0, 0, 0x80];
    let mut t = Stream::new(&wide);
    assert_eq!(FOTString::parse(&mut t), Ok(FOTString::Win1251(String::new())));
    assert_eq!(t.pos(), 4);
}

#[test]
fn wide_header_with_code_page_text() {
    let data = [3u8, 0, 0, 0x80, b'a', 0, b'b', 0, b'c', 0, 0xee];
    let mut s = Stream::new(&data);
    assert_eq!(FOTString::read(&mut s), Ok(FOTString::Win1251("abc".to_string())));
    assert_eq!(s.pos(), 10);
}

#[test]
fn wide_header_with_cyrillic_code_page_text() {
    let data = [3u8, 0, 0, 0x80, 0xcf, 0, 0xf0, 0, 0xe8, 0];
    let mut s = Stream::new(&data);
    assert_eq!(FOTString::read(&mut s), Ok(FOTString::Win1251("При".to_string())));
}

#[test]
fn wide_header_ignores_the_odd_bytes_of_code_page_text() {
    // the bytes at odd places are dropped when the even ones are valid
    let data = [2u8, 0, 0, 0x80, b'a', 0x04, b'b', 0x04];
    let mut s = Stream::new(&data);
    assert_eq!(FOTString::read(&mut s), Ok(FOTString::Win1251("ab".to_string())));
}

#[test]
fn wide_header_falls_back_to_utf16() {
    // U+0298 three times: every low byte is the one byte the code page lacks
    let data = [3u8, 0, 0, 0x80, 0x98, 0x02, 0x98, 0x02, 0x98, 0x02];
    let mut s = Stream::new(&data);
    assert_eq!(
        FOTString::read(&mut s),
        Ok(FOTString::Utf16("\u{298}\u{298}\u{298}".to_string()))
    );
    assert_eq!(s.pos(), 10);
}

#[test]
fn one_undefined_low_byte_makes_the_whole_field_utf16() {
    // "a", U+0498, "b"
    let data = [3u8, 0, 0, 0x80, b'a', 0, 0x98, 0x04, b'b', 0];
    let mut s = Stream::new(&data);
    assert_eq!(
        FOTString::read(&mut s),
        Ok(FOTString::Utf16("a\u{498}b".to_string()))
    );
}

#[test]
fn utf16_surrogate_pairs_are_joined() {
    // U+1F600 is D83D DE00; then U+0298 to force the fallback
    let data = [3u8, 0, 0, 0x80, 0x3d, 0xd8, 0x00, 0xde, 0x98, 0x02];
    let mut s = Stream::new(&data);
    assert_eq!(
        FOTString::read(&mut s),
        Ok(FOTString::Utf16("\u{1f600}\u{298}".to_string()))
    );
}

#[test]
fn text_that_neither_encoding_accepts_is_an_encoding_error() {
    // low byte 0x98 is undefined in the code page, and 0xD898 is a lone surrogate
    let data = [2u8, 0, 0, 0x80, 0x98, 0xd8, b'a', 0];
    let mut s = Stream::new(&data);
    assert_eq!(FOTString::read(&mut s), Err(ParseError::Encoding));
    // a low surrogate first
    let data = [2u8, 0, 0, 0x80, 0x98, 0xdc, 0x98, 0xd8];
    let mut s = Stream::new(&data);
    assert_eq!(FOTString::read(&mut s), Err(ParseError::Encoding));
}

#[test]
fn short_text_fields_are_out_of_range() {
    let no_header = [3u8, 0, 0];
    assert_eq!(FOTString::read(&mut Stream::new(&no_header)), Err(ParseError::Io));
    let short_plain = [3u8, 0, 0, 0, b'a', b'b'];
    assert_eq!(FOTString::read(&mut Stream::new(&short_plain)), Err(ParseError::Io));
    let short_wide = [2u8, 0, 0, 0x80, b'a', 0, b'b'];
    assert_eq!(FOTString::read(&mut Stream::new(&short_wide)), Err(ParseError::Io));
    let huge = [0xffu8, 0xff, 0xff, 0x7f, b'a'];
    assert_eq!(FOTString::read(&mut Stream::new(&huge)), Err(ParseError::Io));
    let huge_wide = [0xffu8, 0xff, 0xff, 0xff, b'a'];
    assert_eq!(FOTString::read(&mut Stream::new(&huge_wide)), Err(ParseError::Io));
}

#[test]
fn writes_each_shape() {
    assert_eq!(
        written(&FOTString::Ascii("abc".to_string())),
        vec![3, 0, 0, 0, b'a', b'b', b'c']
    );
    assert_eq!(
        written(&FOTString::Ascii("Пр".to_string())),
        vec![2, 0, 0, 0, 0xcf, 0xf0]
    );
    assert_eq!(
        written(&FOTString::Win1251("При".to_string())),
        vec![3, 0, 0, 0x80, 0xcf, 0, 0xf0, 0, 0xe8, 0]
    );
    assert_eq!(
        written(&FOTString::Utf16("a\u{498}".to_string())),
        vec![2, 0, 0, 0x80, b'a', 0, 0x98, 0x04]
    );
    assert_eq!(
        written(&FOTString::Utf16("\u{1f600}".to_string())),
        vec![2, 0, 0, 0x80, 0x3d, 0xd8, 0x00, 0xde]
    );
    assert_eq!(written(&FOTString::Ascii(String::new())), vec![0, 0, 0, 0]);
    assert_eq!(written(&FOTString::Utf16(String::new())), vec![0, 0, 0, 0x80]);
}

#[test]
fn write_appends_to_what_is_there() {
    let mut out = vec![0xaau8];
    FOTString::Ascii("x".to_string()).write(&mut out);
    assert_eq!(out, vec![0xaa, 1, 0, 0, 0, b'x']);
}

#[test]
fn serialized_length_by_shape_and_count() {
    assert_eq!(FOTString::Ascii("abc".to_string()).serialized_length(), 7);
    assert_eq!(FOTString::Ascii("Пр".to_string()).serialized_length(), 6);
    assert_eq!(FOTString::Win1251("При".to_string()).serialized_length(), 10);
    assert_eq!(FOTString::Utf16("a\u{498}".to_string()).serialized_length(), 8);
    assert_eq!(FOTString::Utf16("\u{1f600}\u{298}".to_string()).serialized_length(), 10);
    assert_eq!(FOTString::Ascii(String::new()).serialized_length(), 4);
    assert_eq!(FOTString::Win1251(String::new()).serialized_length(), 4);
}

#[test]
fn serialized_length_is_the_written_length() {
    let cases = [
        FOTString::Ascii("hello".to_string()),
        FOTString::Ascii("Привет".to_string()),
        FOTString::Win1251("Привет, world".to_string()),
        FOTString::Utf16("\u{298}x\u{1f600}".to_string()),
        FOTString::Utf16(String::new()),
    ];
    for s in cases.iter() {
        assert_eq!(written(s).len(), s.serialized_length());
    }
}

#[test]
fn serialized_length_of_decoded_fields_is_the_consumed_length() {
    let inputs: [&[u8]; 3] = [
        &[3, 0, 0, 0, b'a', 0xcf, b'c'],
        &[2, 0, 0, 0x80, 0xcf, 0, b'b', 0],
        &[2, 0, 0, 0x80, 0x98, 0x02, 0x3d, 0x00],
    ];
    for input in inputs.iter() {
        let mut s = Stream::new(input);
        let text = FOTString::read(&mut s).unwrap();
        assert_eq!(text.serialized_length(), s.pos());
        assert_eq!(written(&text), input.to_vec());
    }
}

#[test]
fn a_character_outside_the_code_page_is_written_as_a_reference() {
    // the written length then differs from the computed one
    let s = FOTString::Ascii("\u{fffd}".to_string());
    assert_eq!(s.serialized_length(), 5);
    assert_eq!(
        written(&s),
        vec![8, 0, 0, 0, b'&', b'#', b'6', b'5', b'5', b'3', b'3', b';']
    );
}

#[test]
fn valid_text_comes_back_from_its_bytes() {
    let cases = [
        FOTString::Ascii("plain".to_string()),
        FOTString::Ascii("Сохранение".to_string()),
        FOTString::Win1251("Привет".to_string()),
        FOTString::Win1251(String::new()),
        FOTString::Utf16("\u{298}".to_string()),
        FOTString::Utf16("x\u{1f600}\u{498}y".to_string()),
    ];
    for s in cases.iter() {
        let mut bytes = written(s);
        let len = bytes.len();
        bytes.extend_from_slice(&[0xde, 0xad]);
        let mut cursor = Stream::new(&bytes);
        assert_eq!(FOTString::read(&mut cursor).as_ref(), Ok(s));
        assert_eq!(cursor.pos(), len);
    }
}

#[test]
fn utf16_text_with_defined_low_bytes_comes_back_as_code_page_text() {
    let bytes = written(&FOTString::Utf16("hi".to_string()));
    assert_eq!(bytes, vec![2, 0, 0, 0x80, b'h', 0, b'i', 0]);
    let mut cursor = Stream::new(&bytes);
    assert_eq!(
        FOTString::read(&mut cursor),
        Ok(FOTString::Win1251("hi".to_string()))
    );
}

#[test]
fn text_and_copies() {
    let s = FOTString::Win1251("При".to_string());
    assert_eq!(s.as_str(), "При");
    assert_eq!(s.duplicate(), s);
    assert_eq!(FOTString::Ascii("a".to_string()).as_str(), "a");
    assert_eq!(FOTString::Utf16("\u{298}".to_string()).as_str(), "\u{298}");
    assert_ne!(
        FOTString::Ascii("a".to_string()),
        FOTString::Win1251("a".to_string())
    );
}

#[test]
fn judging_what_the_code_page_made_of_a_plain_body() {
    assert_eq!(accept_plain("abc".to_string(), 3), Ok(FOTString::Ascii("abc".to_string())));
    assert_eq!(accept_plain("При".to_string(), 3), Ok(FOTString::Ascii("При".to_string())));
    assert_eq!(accept_plain(String::new(), 0), Ok(FOTString::Ascii(String::new())));
    assert_eq!(accept_plain("abc".to_string(), 4), Err(ParseError::Encoding));
    assert_eq!(accept_plain("abc".to_string(), 2), Err(ParseError::Encoding));
}

#[test]
fn judging_what_the_code_page_made_of_a_wide_body() {
    assert_eq!(
        accept_code_page("ab".to_string(), false, false, 2),
        Some(FOTString::Win1251("ab".to_string()))
    );
    assert_eq!(accept_code_page("ab".to_string(), true, false, 2), None);
    assert_eq!(accept_code_page("ab".to_string(), false, true, 2), None);
    assert_eq!(accept_code_page("ab".to_string(), false, false, 3), None);
    assert_eq!(accept_code_page("ab".to_string(), true, true, 1), None);
    assert_eq!(
        accept_code_page(String::new(), false, false, 0),
        Some(FOTString::Win1251(String::new()))
    );
}

#[test]
fn judging_what_came_of_the_reading_as_utf16() {
    assert_eq!(
        accept_utf16(Some("\u{298}".to_string())),
        Ok(FOTString::Utf16("\u{298}".to_string()))
    );
    assert_eq!(accept_utf16(None), Err(ParseError::Encoding));
}

#[test]
fn text_fields_from_their_encoded_bodies() {
    let mut out = vec![0xaau8];
    put_plain_text(&mut out, &[1, 2, 3]);
    assert_eq!(out, vec![0xaa, 3, 0, 0, 0, 1, 2, 3]);
    let mut out = Vec::new();
    put_code_page_text(&mut out, &[0xcf, 0xf0]);
    assert_eq!(out, vec![2, 0, 0, 0x80, 0xcf, 0, 0xf0, 0]);
    let mut out = Vec::new();
    put_utf16_text(&mut out, &[0x0298, 0xd83d, 0xde00]);
    assert_eq!(out, vec![3, 0, 0, 0x80, 0x98, 0x02, 0x3d, 0xd8, 0x00, 0xde]);
    let mut out = Vec::new();
    put_plain_text(&mut out, &[]);
    put_code_page_text(&mut out, &[]);
    put_utf16_text(&mut out, &[]);
    assert_eq!(out, vec![0, 0, 0, 0, 0, 0, 0, 0x80, 0, 0, 0, 0x80]);
}
