use fot_save::codec::Encodable;
use fot_save::compress::{
    accept_inflated, open_compressed_subsection, put_compressed, put_subsection, InflateStatus,
};
use fot_save::error::ParseError;
use fot_save::files::Sav;
use fot_save::sections::entity_file::EntityFile;
use fot_save::sections::saveh::{Saveh, Test};
use fot_save::sections::sgd::SDG;
use fot_save::sections::ssg::{SSGEntry, SSG};
use fot_save::sections::world::World;
use fot_save::stream::Stream;
use fot_save::text::FOTString;

fn raw_deflate(data: &[u8]) -> Vec<u8> {
    let mut c = flate2::Compress::new(flate2::Compression::default(), false);
    let mut out = Vec::with_capacity(data.len() + 1024);
    let status = c.compress_vec(data, &mut out, flate2::FlushCompress::Finish).unwrap();
    assert_eq!(status, flate2::Status::StreamEnd);
    out
}

fn subsection(declared: u32, second: u32, payload: &[u8]) -> Vec<u8> {
    let mut v = declared.to_le_bytes().to_vec();
    v.extend_from_slice(&second.to_le_bytes());
    v.extend_from_slice(&raw_deflate(payload));
    v
}

fn sample_world() -> World {
    World {
        magic: b"3.5".to_vec(),
        path: FOTString::Ascii("missions/m01.mis".to_string()),
        sdg: SDG {
            magic: b"s".to_vec(),
            unknown: vec![3; 0x48],
            names: vec![FOTString::Win1251("Имя".to_string())],
            replicas: vec![vec![FOTString::Ascii("line".to_string())]],
        },
        ssg: SSG {
            unknown: vec![4; 0x16],
            entity_file: EntityFile {
                magic: b"e".to_vec(),
                data: vec![FOTString::Ascii("rat.ent".to_string())],
            },
            unknown1: 77,
            values: vec![SSGEntry { id: 1, flag: -1, data: None }],
        },
        tail: vec![0xca, 0xfe, 0xba, 0xbe],
    }
}

fn sample_saveh() -> Saveh {
    Saveh {
        magic: b"h".to_vec(),
        version: 1,
        strings: (0..5).map(|i| FOTString::Ascii(format!("s{}", i))).collect(),
        tmp: (0u8..8)
            .map(|i| Test { skipped: vec![i; 8], f1: 0, f2: 0, f4: None, blob: vec![] })
            .collect(),
        ints: vec![0; 6],
    }
}

#[test]
fn inflates_to_the_declared_size_and_stops_after_the_stream() {
    let payload: Vec<u8> = (0..1000u32).map(|i| (i % 7) as u8).collect();
    let mut bytes = subsection(1000, 1000, &payload);
    let stream_end = bytes.len();
    bytes.extend_from_slice(b"following");
    let mut s = Stream::new(&bytes);
    assert_eq!(open_compressed_subsection(&mut s), Ok(payload));
    assert_eq!(s.pos(), stream_end);
    assert_eq!(s.read_slice(9), Ok(&b"following"[..]));
}

#[test]
fn the_second_length_field_is_read_and_not_used() {
    let bytes = subsection(3, 999, &[1, 2, 3]);
    assert_eq!(open_compressed_subsection(&mut Stream::new(&bytes)), Ok(vec![1, 2, 3]));
}

#[test]
fn empty_payload() {
    let bytes = subsection(0, 0, &[]);
    let mut s = Stream::new(&bytes);
    assert_eq!(open_compressed_subsection(&mut s), Ok(vec![]));
    assert_eq!(s.remain(), 0);
}

#[test]
fn a_payload_of_another_size_is_a_decompression_error() {
    let payload = [5u8; 100];
    let more = subsection(101, 101, &payload);
    assert_eq!(open_compressed_subsection(&mut Stream::new(&more)), Err(ParseError::Decompress));
    let less = subsection(99, 99, &payload);
    let mut s = Stream::new(&less);
    assert_eq!(open_compressed_subsection(&mut s), Err(ParseError::Decompress));
    assert_eq!(s.pos(), 0);
    let none = subsection(0, 0, &payload);
    assert_eq!(open_compressed_subsection(&mut Stream::new(&none)), Err(ParseError::Decompress));
}

#[test]
fn a_corrupt_or_truncated_stream_is_a_decompression_error() {
    let payload: Vec<u8> = (0..200u32).map(|i| (i * 31 % 251) as u8).collect();
    let good = subsection(200, 200, &payload);
    let truncated = &good[..good.len() - 3];
    assert_eq!(
        open_compressed_subsection(&mut Stream::new(truncated)),
        Err(ParseError::Decompress)
    );
    let only_lengths = &good[..8];
    assert_eq!(
        open_compressed_subsection(&mut Stream::new(only_lengths)),
        Err(ParseError::Decompress)
    );
    let mut corrupt = 4u32.to_le_bytes().to_vec();
    corrupt.extend_from_slice(&4u32.to_le_bytes());
    corrupt.extend_from_slice(&[0xff, 0xff, 0xff, 0xff, 0xff]);
    assert_eq!(
        open_compressed_subsection(&mut Stream::new(&corrupt)),
        Err(ParseError::Decompress)
    );
}

#[test]
fn missing_length_fields_are_out_of_range() {
    assert_eq!(open_compressed_subsection(&mut Stream::new(&[1, 0, 0])), Err(ParseError::Io));
    assert_eq!(
        open_compressed_subsection(&mut Stream::new(&[1, 0, 0, 0, 1, 0])),
        Err(ParseError::Io)
    );
}

#[test]
fn judging_an_attempt_to_inflate() {
    assert_eq!(
        accept_inflated(InflateStatus::Finished, 9, vec![1, 2, 3], 3),
        Ok((vec![1, 2, 3], 9))
    );
    assert_eq!(accept_inflated(InflateStatus::Finished, 0, vec![], 0), Ok((vec![], 0)));
    assert_eq!(
        accept_inflated(InflateStatus::Finished, 9, vec![1, 2, 3], 4),
        Err(ParseError::Decompress)
    );
    assert_eq!(
        accept_inflated(InflateStatus::Finished, 9, vec![1, 2, 3], 2),
        Err(ParseError::Decompress)
    );
    assert_eq!(
        accept_inflated(InflateStatus::Unfinished, 9, vec![1, 2, 3], 3),
        Err(ParseError::Decompress)
    );
    assert_eq!(
        accept_inflated(InflateStatus::NoProgress, 9, vec![1, 2, 3], 3),
        Err(ParseError::Decompress)
    );
    assert_eq!(
        accept_inflated(InflateStatus::Corrupt, 0, vec![], 0),
        Err(ParseError::Decompress)
    );
}

#[test]
fn compressed_subsection_comes_back() {
    for payload in [vec![], vec![0u8; 5000], (0..=255u8).collect::<Vec<u8>>(), vec![1, 2, 3]] {
        let mut out = vec![0xeeu8];
        put_compressed(&mut out, &payload);
        assert_eq!(out[0], 0xee);
        assert_eq!(out[1..5], (payload.len() as u32).to_le_bytes());
        assert_eq!(out[5..9], (payload.len() as u32).to_le_bytes());
        let end = out.len();
        out.extend_from_slice(&[1, 2, 3]);
        let mut s = Stream::new(&out);
        s.skip(1).unwrap();
        assert_eq!(open_compressed_subsection(&mut s), Ok(payload));
        assert_eq!(s.pos(), end);
    }
}

#[test]
fn incompressible_payload_comes_back() {
    let mut x: u32 = 12345;
    let payload: Vec<u8> = (0..70_000)
        .map(|_| {
            x = x.wrapping_mul(1664525).wrapping_add(1013904223);
            (x >> 24) as u8
        })
        .collect();
    let mut out = Vec::new();
    put_compressed(&mut out, &payload);
    assert_eq!(open_compressed_subsection(&mut Stream::new(&out)), Ok(payload));
}

#[test]
fn world_layout() {
    let w = sample_world();
    let payload = w.payload();
    let mut expected_payload = Vec::new();
    w.path.write(&mut expected_payload);
    w.sdg.write(&mut expected_payload);
    w.ssg.write(&mut expected_payload);
    expected_payload.extend_from_slice(&[0xca, 0xfe, 0xba, 0xbe]);
    assert_eq!(payload, expected_payload);

    let mut bytes = b"<world>\03.5\0".to_vec();
    bytes.extend_from_slice(&subsection(payload.len() as u32, payload.len() as u32, &payload));
    let end = bytes.len();
    bytes.extend_from_slice(b"next");
    let mut s = Stream::new(&bytes);
    assert_eq!(World::read(&mut s), Ok(w));
    assert_eq!(s.pos(), end);
}

#[test]
fn world_comes_back_from_its_bytes() {
    let w = sample_world();
    let mut bytes = Vec::new();
    w.write(&mut bytes);
    assert_eq!(&bytes[..12], b"<world>\03.5\0");
    let len = bytes.len();
    bytes.push(0);
    let mut s = Stream::new(&bytes);
    assert_eq!(World::parse(&mut s), Ok(w));
    assert_eq!(s.pos(), len);
}

#[test]
fn world_failures() {
    let w = sample_world();
    let payload = w.payload();
    let mut wrong_size = b"<world>\0id\0".to_vec();
    wrong_size.extend_from_slice(&subsection(payload.len() as u32 + 1, 0, &payload));
    assert_eq!(World::read(&mut Stream::new(&wrong_size)), Err(ParseError::Decompress));

    // a payload that ends inside the replica table
    let cut = &payload[..30];
    let mut short = b"<world>\0id\0".to_vec();
    short.extend_from_slice(&subsection(30, 30, cut));
    assert_eq!(World::read(&mut Stream::new(&short)), Err(ParseError::Io));

    // a payload whose replica table opens with another tag
    let mut other = payload.clone();
    let at = 4 + "missions/m01.mis".len() + 1;
    other[at] = b'X';
    let mut bad = b"<world>\0id\0".to_vec();
    bad.extend_from_slice(&subsection(other.len() as u32, 0, &other));
    assert_eq!(
        World::read(&mut Stream::new(&bad)),
        Err(ParseError::InvalidSection("<sgd>\0", "<Xgd>\0".to_string()))
    );

    assert_eq!(
        World::read(&mut Stream::new(b"<world>\0id")),
        Err(ParseError::Encoding)
    );
}

#[test]
fn save_file_is_a_header_and_a_world() {
    let sav = Sav { saveh: sample_saveh(), world: sample_world() };
    let mut bytes = Vec::new();
    sav.write(&mut bytes);
    let mut head = Vec::new();
    sav.saveh.write(&mut head);
    assert_eq!(&bytes[..head.len()], &head[..]);
    let len = bytes.len();
    bytes.extend_from_slice(&[7, 7]);
    let mut s = Stream::new(&bytes);
    assert_eq!(Sav::parse(&mut s), Ok(sav));
    assert_eq!(s.pos(), len);
    assert_eq!(Sav::parse(&mut Stream::new(&head)), Err(ParseError::Io));
}

#[test]
fn subsection_from_its_parts() {
    let mut out = vec![1u8];
    put_subsection(&mut out, 0x0102, &[9, 8, 7]);
    assert_eq!(out, vec![1, 2, 1, 0, 0, 2, 1, 0, 0, 9, 8, 7]);
    let packed = raw_deflate(b"payload");
    let mut whole = Vec::new();
    put_subsection(&mut whole, 7, &packed);
    assert_eq!(open_compressed_subsection(&mut Stream::new(&whole)), Ok(b"payload".to_vec()));
}
