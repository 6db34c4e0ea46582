use fot_save::error::ParseError;
use fot_save::section::{
    open_section, peek_tag, put_blob, put_ident, put_tag, read_blob, read_ident, read_tail,
};
use fot_save::sections::campaign::CAMPAIGN_TAG;
use fot_save::sections::campaign_save::CAMPAIGN_SAVE_TAG;
use fot_save::sections::entity_file::ENTITY_FILE_TAG;
use fot_save::sections::esh::ESH_TAG;
use fot_save::sections::saveh::SAVEH_TAG;
use fot_save::sections::sgd::SDG_TAG;
use fot_save::sections::ssg::SSG_TAG;
use fot_save::sections::world::WORLD_TAG;
use fot_save::sections::world_zone::WORLD_ZONE_TAG;
use fot_save::sections::zar::ZAR_TAG;
use fot_save::stream::Stream;

#[test]
fn tags_end_with_a_zero_byte() {
    assert_eq!(ESH_TAG.as_bytes(), b"<esh>\0");
    assert_eq!(ZAR_TAG.as_bytes(), b"<zar>\0");
    assert_eq!(SDG_TAG.as_bytes(), b"<sgd>\0");
    assert_eq!(SSG_TAG.as_bytes(), b"<SSG>\0");
    assert_eq!(SAVEH_TAG.as_bytes(), b"<saveh>\0");
    assert_eq!(WORLD_TAG.as_bytes(), b"<world>\0");
    assert_eq!(WORLD_ZONE_TAG.as_bytes(), b"<world_zone>\0");
    assert_eq!(ENTITY_FILE_TAG.as_bytes(), b"<entity_file>\0");
    assert_eq!(CAMPAIGN_TAG.as_bytes(), b"<campaign>\0");
    assert_eq!(CAMPAIGN_SAVE_TAG.as_bytes(), b"<campaign_save>\0");
}

#[test]
fn open_section_takes_exactly_the_tag() {
    let data = b"<esh>\0rest";
    let mut s = Stream::new(data);
    assert_eq!(open_section(&mut s, ESH_TAG), Ok(()));
    assert_eq!(s.pos(), 6);
    assert_eq!(s.remain(), 4);
}

#[test]
fn a_tag_that_differs_in_one_byte_is_a_section_mismatch() {
    let tag = SAVEH_TAG.as_bytes();
    for i in 0..tag.len() {
        let mut data = tag.to_vec();
        data[i] ^= 0x01;
        data.extend_from_slice(b"more");
        let mut s = Stream::new(&data);
        let expected = String::from_utf8_lossy(&data[..tag.len()]).into_owned();
        assert_eq!(
            open_section(&mut s, SAVEH_TAG),
            Err(ParseError::InvalidSection(SAVEH_TAG, expected))
        );
    }
}

#[test]
fn a_mismatch_carries_the_expected_tag_and_the_lenient_text_found() {
    let data = [b'<', b'e', 0xff, b'h', b'>', 0, 1, 2];
    let mut s = Stream::new(&data);
    assert_eq!(
        open_section(&mut s, ESH_TAG),
        Err(ParseError::InvalidSection("<esh>\0", "<e\u{fffd}h>\0".to_string()))
    );
    let other = b"<zar>\0";
    let mut t = Stream::new(other);
    assert_eq!(
        open_section(&mut t, ESH_TAG),
        Err(ParseError::InvalidSection("<esh>\0", "<zar>\0".to_string()))
    );
    assert_eq!(t.pos(), 0);
    assert_eq!(open_section(&mut t, ZAR_TAG), Ok(()));
}

#[test]
fn a_tag_cut_short_is_out_of_range() {
    let data = b"<esh>";
    let mut s = Stream::new(data);
    assert_eq!(open_section(&mut s, ESH_TAG), Err(ParseError::Io));
    let empty: [u8; 0] = [];
    let mut e = Stream::new(&empty);
    assert_eq!(open_section(&mut e, ESH_TAG), Err(ParseError::Io));
}

#[test]
fn peek_tag_does_not_move() {
    let data = b"x<saveh>\0y";
    let mut s = Stream::new(data);
    assert!(!peek_tag(&s, SAVEH_TAG));
    s.skip(1).unwrap();
    assert!(peek_tag(&s, SAVEH_TAG));
    assert!(!peek_tag(&s, CAMPAIGN_TAG));
    assert_eq!(s.pos(), 1);
    s.skip(5).unwrap();
    assert!(!peek_tag(&s, SAVEH_TAG));
}

#[test]
fn tags_are_written_as_they_are() {
    let mut out = vec![7u8];
    put_tag(&mut out, ZAR_TAG);
    assert_eq!(out, b"\x07<zar>\0".to_vec());
}

#[test]
fn identifiers_are_read_up_to_their_terminator() {
    let data = b"2.143\0next";
    let mut s = Stream::new(data);
    assert_eq!(read_ident(&mut s), Ok(b"2.143".to_vec()));
    assert_eq!(s.pos(), 6);
    let mut t = Stream::new(b"no end");
    assert_eq!(read_ident(&mut t), Err(ParseError::Encoding));
}

#[test]
fn identifiers_are_written_with_their_terminator() {
    let mut out = Vec::new();
    put_ident(&mut out, &b"2.143".to_vec());
    put_ident(&mut out, &Vec::new());
    assert_eq!(out, b"2.143\0\0".to_vec());
}

#[test]
fn blobs_and_tails() {
    let data = [1u8, 2, 3, 4, 5];
    let mut s = Stream::new(&data);
    assert_eq!(read_blob(&mut s, 2), Ok(vec![1, 2]));
    assert_eq!(read_blob(&mut s, 4), Err(ParseError::Io));
    assert_eq!(s.pos(), 2);
    assert_eq!(read_tail(&mut s), Ok(vec![3, 4, 5]));
    assert_eq!(s.remain(), 0);
    assert_eq!(read_tail(&mut s), Ok(vec![]));
    let mut out = vec![0u8];
    put_blob(&mut out, &vec![8, 9]);
    assert_eq!(out, vec![0, 8, 9]);
}
