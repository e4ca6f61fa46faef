use libzim_rs::{
    ByteCursor, DELETED_MIME_TYPE, Dirent, DirentData, LINK_TARGET_MIME_TYPE,
    REDIRECT_MIME_TYPE, ZimError, read_null_terminated_string,
};

#[test]
fn test_read_null_terminated_string() {
    let data = b"hello\0world\0";
    let mut reader = ByteCursor::new(data.to_vec());
    assert_eq!(read_null_terminated_string(&mut reader).unwrap(), "hello");
    assert_eq!(read_null_terminated_string(&mut reader).unwrap(), "world");
}

#[test]
fn test_parse_content_entry_dirent() {
    let mut data = Vec::new();
    data.extend_from_slice(&1u16.to_le_bytes());
    data.push(0);
    data.push(b'C');
    data.extend_from_slice(&123u32.to_le_bytes());
    data.extend_from_slice(&10u32.to_le_bytes());
    data.extend_from_slice(&20u32.to_le_bytes());
    data.extend_from_slice(b"foo\0");
    data.extend_from_slice(b"Bar\0");

    let mut reader = ByteCursor::new(data);
    let dirent = Dirent::parse(&mut reader).unwrap();

    assert_eq!(dirent.mime_type, 1);
    assert_eq!(dirent.extra_len, 0);
    assert_eq!(dirent.namespace, 'C');
    assert_eq!(dirent.revision, 123);
    assert!(dirent.is_article());
    if let DirentData::Content { cluster_number, blob_number } = dirent.data {
        assert_eq!(cluster_number, 10);
        assert_eq!(blob_number, 20);
    } else {
        panic!("Expected Content data");
    }
    assert_eq!(dirent.url, "foo");
    assert_eq!(dirent.title, "Bar");
    assert_eq!(dirent.get_title(), "Bar");
}

#[test]
fn test_parse_redirect_dirent() {
    let mut data = Vec::new();
    data.extend_from_slice(&REDIRECT_MIME_TYPE.to_le_bytes());
    data.push(0);
    data.push(b'R');
    data.extend_from_slice(&0u32.to_le_bytes());
    data.extend_from_slice(&500u32.to_le_bytes());
    data.extend_from_slice(b"redir\0");
    data.extend_from_slice(b"\0");

    let mut reader = ByteCursor::new(data);
    let dirent = Dirent::parse(&mut reader).unwrap();

    assert!(dirent.is_redirect());
    if let DirentData::Redirect { redirect_index } = dirent.data {
        assert_eq!(redirect_index, 500);
    } else {
        panic!("Expected Redirect data");
    }
    assert_eq!(dirent.url, "redir");
    assert_eq!(dirent.title, "");
    assert_eq!(dirent.get_title(), "redir");
}

#[test]
fn test_parse_dirent_with_parameter() {
    let mut data = Vec::new();
    data.extend_from_slice(&1u16.to_le_bytes());
    data.push(4);
    data.push(b'C');
    data.extend_from_slice(&0u32.to_le_bytes());
    data.extend_from_slice(&0u32.to_le_bytes());
    data.extend_from_slice(&0u32.to_le_bytes());
    data.extend_from_slice(b"a\0");
    data.extend_from_slice(b"b\0");
    data.extend_from_slice(&[1, 2, 3, 4]);

    let mut reader = ByteCursor::new(data);
    let dirent = Dirent::parse(&mut reader).unwrap();

    assert_eq!(dirent.extra_len, 4);
    assert_eq!(dirent.parameter, vec![1, 2, 3, 4]);
}

#[test]
fn test_parse_link_target_dirent() {
    let mut data = Vec::new();
    data.extend_from_slice(&LINK_TARGET_MIME_TYPE.to_le_bytes());
    data.push(0);
    data.push(b'L');
    data.extend_from_slice(&0u32.to_le_bytes());
    data.extend_from_slice(b"link\0");
    data.extend_from_slice(b"Title\0");

    let mut reader = ByteCursor::new(data);
    let dirent = Dirent::parse(&mut reader).unwrap();

    assert!(dirent.is_link_target());
    assert!(matches!(dirent.data, DirentData::LinkTarget));
}

#[test]
fn test_parse_deleted_dirent() {
    let mut data = Vec::new();
    data.extend_from_slice(&DELETED_MIME_TYPE.to_le_bytes());
    data.push(0);
    data.push(b'D');
    data.extend_from_slice(&0u32.to_le_bytes());
    data.extend_from_slice(b"gone\0");
    data.extend_from_slice(b"Gone\0");

    let mut reader = ByteCursor::new(data);
    let dirent = Dirent::parse(&mut reader).unwrap();

    assert!(dirent.is_deleted());
    assert!(matches!(dirent.data, DirentData::Deleted));
}

fn redirect_record(url: &[u8], title: &[u8]) -> Vec<u8> {
    let mut data = Vec::new();
    data.extend_from_slice(&REDIRECT_MIME_TYPE.to_le_bytes());
    data.push(0);
    data.push(b'A');
    data.extend_from_slice(&7u32.to_le_bytes());
    data.extend_from_slice(&42u32.to_le_bytes());
    data.extend_from_slice(url);
    data.extend_from_slice(title);
    data
}

#[test]
fn redirect_url_starts_after_twelve_bytes() {
    let data = redirect_record(b"target\0", b"T\0");
    let mut reader = ByteCursor::new(data.clone());
    let dirent = Dirent::parse(&mut reader).unwrap();
    assert_eq!(reader.position(), 12 + 7 + 2);
    assert_eq!(dirent.url, "target");
    assert!(dirent.is_redirect());
    assert!(!dirent.is_link_target());
    assert!(!dirent.is_deleted());
    assert!(!dirent.is_article());

    let mut tail = ByteCursor::new(data);
    tail.seek(12);
    assert_eq!(read_null_terminated_string(&mut tail).unwrap(), "target");
}

#[test]
fn kind_predicates_are_exclusive() {
    for (mime, redirect, link, deleted) in [
        (LINK_TARGET_MIME_TYPE, false, true, false),
        (DELETED_MIME_TYPE, false, false, true),
        (0xfffcu16, false, false, false),
    ] {
        let mut data = Vec::new();
        data.extend_from_slice(&mime.to_le_bytes());
        data.extend_from_slice(&[0, b'X', 0, 0, 0, 0]);
        if !link && !deleted {
            data.extend_from_slice(&[0u8; 8]);
        }
        data.extend_from_slice(b"u\0t\0");
        let d = Dirent::parse(&mut ByteCursor::new(data)).unwrap();
        assert_eq!(d.is_redirect(), redirect);
        assert_eq!(d.is_link_target(), link);
        assert_eq!(d.is_deleted(), deleted);
        assert_eq!(d.is_article(), !redirect && !link && !deleted);
    }
}

#[test]
fn get_title_prefers_stored_title() {
    let d = Dirent::parse(&mut ByteCursor::new(redirect_record(b"url\0", b"Nice\0"))).unwrap();
    assert_eq!(d.get_title(), "Nice");
    let d = Dirent::parse(&mut ByteCursor::new(redirect_record(b"url\0", b"\0"))).unwrap();
    assert_eq!(d.get_title(), "url");
    let d = Dirent::parse(&mut ByteCursor::new(redirect_record(b"\0", b"\0"))).unwrap();
    assert_eq!(d.get_title(), "");
}

#[test]
fn strings_decode_multibyte_utf8() {
    let d = Dirent::parse(&mut ByteCursor::new(redirect_record(
        "caf\u{e9}\0".as_bytes(),
        "\u{65e5}\u{672c}\0".as_bytes(),
    )))
    .unwrap();
    assert_eq!(d.url, "caf\u{e9}");
    assert_eq!(d.title, "\u{65e5}\u{672c}");
}

#[test]
fn namespace_byte_is_taken_as_a_latin1_character() {
    let mut data = redirect_record(b"u\0", b"\0");
    data[3] = 0xE9;
    let d = Dirent::parse(&mut ByteCursor::new(data)).unwrap();
    assert_eq!(d.namespace, '\u{e9}');
}

#[test]
fn invalid_utf8_in_url_or_title_fails() {
    let err = Dirent::parse(&mut ByteCursor::new(redirect_record(b"\xff\xfe\0", b"\0"))).unwrap_err();
    assert_eq!(err, ZimError::InvalidUtf8);
    let err = Dirent::parse(&mut ByteCursor::new(redirect_record(b"ok\0", b"\xc3\0"))).unwrap_err();
    assert_eq!(err, ZimError::InvalidUtf8);
    assert_eq!(
        read_null_terminated_string(&mut ByteCursor::new(vec![0xC0, 0x80, 0])).unwrap_err(),
        ZimError::InvalidUtf8
    );
}

#[test]
fn truncated_dirent_is_short_read() {
    let full = redirect_record(b"abc\0", b"T\0");
    for cut in [0usize, 5, 8, 11, 12, 15, 16, 17] {
        let err = Dirent::parse(&mut ByteCursor::new(full[..cut].to_vec())).unwrap_err();
        assert_eq!(err, ZimError::ShortRead, "cut at {}", cut);
    }
    let mut with_param = full.clone();
    with_param[2] = 3;
    with_param.extend_from_slice(&[9, 9]);
    assert_eq!(Dirent::parse(&mut ByteCursor::new(with_param)).unwrap_err(), ZimError::ShortRead);
}

#[test]
fn unterminated_string_is_short_read() {
    let mut reader = ByteCursor::new(b"abc".to_vec());
    assert_eq!(read_null_terminated_string(&mut reader).unwrap_err(), ZimError::ShortRead);
    let mut empty = ByteCursor::new(vec![0]);
    assert_eq!(read_null_terminated_string(&mut empty).unwrap(), "");
    assert_eq!(empty.position(), 1);
}
