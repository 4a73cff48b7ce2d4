use doomrakr::headers::{self, Header};
use doomrakr::song::Song;
use doomrakr::wire::{decode_u64_be, encode_u64_be, put_u64_be, WireError};

fn song(a: &str, b: &str, c: &str) -> Song {
    Song::new(a.to_string(), b.to_string(), c.to_string())
}

#[test]
fn u64_be_encoding_matches_to_be_bytes() {
    for v in [0u64, 1, 255, 256, 0x0102_0304_0506_0708, u64::MAX] {
        assert_eq!(encode_u64_be(v), v.to_be_bytes().to_vec());
        assert_eq!(decode_u64_be(&v.to_be_bytes()), v);
    }
    let mut out = vec![9u8];
    put_u64_be(&mut out, 258);
    assert_eq!(out, vec![9, 0, 0, 0, 0, 0, 0, 1, 2]);
}

#[test]
fn header_bytes_are_action_length_id() {
    let h = Header::new(headers::SERVER_ACK, "ab".to_string());
    assert_eq!(h.to_bytes(), vec![3, 0, 0, 0, 0, 0, 0, 0, 2, b'a', b'b']);
    let h = Header::new(headers::CLIENT_HELLO, "é".to_string());
    assert_eq!(h.to_bytes(), vec![0, 0, 0, 0, 0, 0, 0, 0, 2, 0xc3, 0xa9]);
}

#[test]
fn header_roundtrip_with_trailing_bytes() {
    let h = Header::new(headers::CLIENT_STATUS, "client-7".to_string());
    let mut bytes = h.to_bytes();
    let n = bytes.len();
    bytes.extend_from_slice(&[1, 2, 3]);
    match Header::parse(&bytes) {
        Ok((got, used)) => {
            assert_eq!(got.action, headers::CLIENT_STATUS);
            assert_eq!(got.id, "client-7");
            assert_eq!(used, n);
        }
        Err(_) => panic!("header did not parse"),
    }
}

#[test]
fn header_parse_incomplete_and_bad_utf8() {
    assert!(matches!(Header::parse(&[1, 0, 0]), Err(WireError::Incomplete)));
    assert!(matches!(Header::parse(&[1, 0, 0, 0, 0, 0, 0, 0, 3, b'a']), Err(WireError::Incomplete)));
    match Header::parse(&[1, 0, 0, 0, 0, 0, 0, 0, 1, 0xff]) {
        Err(WireError::InvalidUtf8(m)) => assert_eq!(m, String::from_utf8(vec![0xff]).unwrap_err().to_string()),
        _ => panic!("expected a UTF-8 error"),
    }
    let h = Header::from_parts(4, b"id".to_vec()).unwrap();
    assert_eq!((h.action, h.id.as_str()), (4, "id"));
    assert!(Header::from_parts(4, vec![0xc3]).is_err());
}

#[test]
fn song_bytes_are_lengths_then_texts() {
    let s = song("ab", "c", "");
    let mut expect = Vec::new();
    expect.extend_from_slice(&2u64.to_be_bytes());
    expect.extend_from_slice(&1u64.to_be_bytes());
    expect.extend_from_slice(&0u64.to_be_bytes());
    expect.extend_from_slice(b"abc");
    assert_eq!(s.to_bytes(), expect);
}

#[test]
fn song_roundtrip() {
    let s = song("Artïst", "Album", "Song.mp3");
    let mut bytes = s.to_bytes();
    let n = bytes.len();
    bytes.push(42);
    match Song::parse(&bytes) {
        Ok((got, used)) => {
            assert_eq!((got.artist.as_str(), got.album.as_str(), got.name.as_str()), ("Artïst", "Album", "Song.mp3"));
            assert_eq!(used, n);
        }
        Err(_) => panic!("song did not parse"),
    }
}

#[test]
fn song_parse_errors() {
    assert!(matches!(Song::parse(&[0; 23]), Err(WireError::Incomplete)));
    let mut bytes = Vec::new();
    bytes.extend_from_slice(&1u64.to_be_bytes());
    bytes.extend_from_slice(&1u64.to_be_bytes());
    bytes.extend_from_slice(&1u64.to_be_bytes());
    bytes.extend_from_slice(b"ab");
    assert!(matches!(Song::parse(&bytes), Err(WireError::Incomplete)));
    bytes.push(0x80);
    assert!(matches!(Song::parse(&bytes), Err(WireError::InvalidUtf8(_))));
    assert!(Song::from_parts(b"a".to_vec(), vec![0xff], b"c".to_vec()).is_err());
    let s = Song::from_parts(b"a".to_vec(), b"b".to_vec(), b"c".to_vec()).unwrap();
    assert_eq!(Song::get_path(&s), "a/b/c");
}

#[test]
fn wire_fields_are_the_pieces_of_the_wire_form() {
    let h = Header::new(headers::SERVER_PAUSE, "id".to_string());
    let f = h.wire_fields();
    assert_eq!(f, vec![vec![8], 2u64.to_be_bytes().to_vec(), b"id".to_vec()]);
    assert_eq!(f.concat(), h.to_bytes());
    let s = song("ab", "c", "def");
    let f = s.wire_fields();
    assert_eq!(f.len(), 6);
    assert_eq!(f[0], 2u64.to_be_bytes().to_vec());
    assert_eq!(f[1], 1u64.to_be_bytes().to_vec());
    assert_eq!(f[2], 3u64.to_be_bytes().to_vec());
    assert_eq!((f[3].as_slice(), f[4].as_slice(), f[5].as_slice()), (&b"ab"[..], &b"c"[..], &b"def"[..]));
    assert_eq!(f.concat(), s.to_bytes());
}
