use std::borrow::Cow;

use elysium::data::FileData;
use elysium::encoding::Utf8Error;

fn owned(bytes: &[u8]) -> Cow<'static, [u8]> {
    Cow::Owned(bytes.to_vec())
}

#[test]
fn new_labels_valid_utf8_as_text() {
    let data = FileData::new(owned("héllo wörld".as_bytes()));
    assert_eq!(data, FileData::Text(Cow::Borrowed("héllo wörld")));
    assert_eq!(data.as_str(), Some("héllo wörld"));
}

#[test]
fn new_labels_invalid_utf8_as_binary() {
    let data = FileData::new(owned(&[0x66, 0x6f, 0xff, 0x6f]));
    assert!(matches!(data, FileData::Binary(_)));
    assert_eq!(data.as_str(), None);
}

#[test]
fn new_keeps_borrowed_storage() {
    let text = FileData::new(Cow::Borrowed(b"static text"));
    assert!(matches!(text, FileData::Text(Cow::Borrowed("static text"))));
    let binary = FileData::new(Cow::Borrowed(&[0xc0, 0x80]));
    assert!(matches!(binary, FileData::Binary(Cow::Borrowed(_))));
}

#[test]
fn binary_round_trip_of_any_bytes() {
    let samples: Vec<Vec<u8>> = vec![
        vec![],
        vec![0],
        b"plain ascii".to_vec(),
        "snowman \u{2603} and \u{1F600}".as_bytes().to_vec(),
        vec![0xff, 0xfe, 0xfd],
        vec![0xe2, 0x98],
        vec![0xed, 0xa0, 0x80],
        vec![0xf4, 0x90, 0x80, 0x80],
        (0u8..=255).collect(),
    ];
    for bytes in samples {
        let data = FileData::new(Cow::Owned(bytes.clone()));
        assert_eq!(data.into_binary().into_owned(), bytes);
    }
}

#[test]
fn text_round_trip_of_valid_utf8() {
    let bytes = "Grüße, мир, 世界".as_bytes().to_vec();
    let mut data = FileData::new(Cow::Owned(bytes.clone()));
    assert_eq!(data.to_str().unwrap().as_bytes(), &bytes[..]);
    let text = data.make_text().unwrap();
    assert_eq!(text.as_bytes(), &bytes[..]);
    assert_eq!(data.into_text().unwrap().as_bytes(), &bytes[..]);
}

#[test]
fn invalid_utf8_fails_and_stays_untouched() {
    let bytes = vec![0x61, 0x62, 0xff, 0x63];
    let mut data = FileData::new(Cow::Owned(bytes.clone()));
    let first = data.make_text().map(|_| ()).map_err(|e| e.1);
    assert_eq!(first, Err(Utf8Error { valid_up_to: 2, error_len: Some(1) }));
    let second = data.make_text().map(|_| ()).map_err(|e| e.1);
    assert_eq!(second, first);
    assert!(matches!(data, FileData::Binary(_)));
    assert_eq!(data.to_str(), Err(Utf8Error { valid_up_to: 2, error_len: Some(1) }));
    assert_eq!(data.into_binary().into_owned(), bytes);
}

#[test]
fn make_text_failure_hands_out_the_bytes() {
    let mut data = FileData::new(Cow::Borrowed(&[0x80, 0x41]));
    match data.make_text() {
        Ok(_) => panic!("invalid bytes became text"),
        Err((binary, error)) => {
            assert_eq!(&binary[..], &[0x80, 0x41]);
            assert_eq!(error, Utf8Error { valid_up_to: 0, error_len: Some(1) });
        }
    }
}

#[test]
fn into_text_gives_the_bytes_back_on_failure() {
    let data = FileData::new(owned(&[0xe2, 0x82, 0xac, 0xe2, 0x82]));
    let (bytes, error) = data.into_text().unwrap_err();
    assert_eq!(bytes.into_owned(), vec![0xe2, 0x82, 0xac, 0xe2, 0x82]);
    assert_eq!(error, Utf8Error { valid_up_to: 3, error_len: None });
}

#[test]
fn valid_up_to_is_the_longest_valid_prefix() {
    let cases: Vec<(Vec<u8>, usize)> = vec![
        (vec![0xff], 0),
        (vec![0x41, 0x42, 0x43, 0x80], 3),
        (vec![0xc3, 0xa9, 0xc3], 2),
        (vec![0xf0, 0x9f, 0x98, 0x80, 0xf0, 0x9f], 4),
        (vec![0x41, 0xed, 0xa0, 0x80], 1),
    ];
    for (bytes, expected) in cases {
        let data = FileData::Binary(Cow::Owned(bytes));
        assert_eq!(data.to_str().unwrap_err().valid_up_to, expected);
    }
}

#[test]
fn error_len_tells_a_cut_character_from_an_unexpected_byte() {
    let cases: Vec<(Vec<u8>, usize, Option<usize>)> = vec![
        // An unexpected byte: a sequence of one to three bytes that is no character.
        (vec![0x61, 0x62, 0xff], 2, Some(1)),
        (vec![0x80], 0, Some(1)),
        (vec![0xc0, 0x80], 0, Some(1)),
        (vec![0xc3, 0x28], 0, Some(1)),
        (vec![0xe0, 0x80, 0x80], 0, Some(1)),
        (vec![0xe0, 0xa0, 0x41], 0, Some(2)),
        (vec![0x41, 0xed, 0xa0, 0x80], 1, Some(1)),
        (vec![0xf0, 0x8f, 0x80, 0x80], 0, Some(1)),
        (vec![0xf0, 0x90, 0x41], 0, Some(2)),
        (vec![0xf0, 0x90, 0x80, 0x41], 0, Some(3)),
        (vec![0xf4, 0x90, 0x80, 0x80], 0, Some(1)),
        (vec![0xf5, 0x80, 0x80, 0x80], 0, Some(1)),
        (vec![0xc3, 0xc3, 0xa9], 0, Some(1)),
        // The end of the bytes in the middle of a character.
        (vec![0xc3], 0, None),
        (vec![0xc3, 0xa9, 0xc3], 2, None),
        (vec![0xe0], 0, None),
        (vec![0xe2, 0x82], 0, None),
        (vec![0xed, 0x9f], 0, None),
        (vec![0xf0], 0, None),
        (vec![0xf4, 0x8f], 0, None),
        (vec![0xf0, 0x9f, 0x98], 0, None),
        (vec![0xf0, 0x9f, 0x98, 0x80, 0xf0, 0x9f], 4, None),
    ];
    for (bytes, valid_up_to, error_len) in cases {
        let expected = Utf8Error { valid_up_to, error_len };
        let borrowed = FileData::Binary(Cow::Owned(bytes.clone()));
        assert_eq!(borrowed.to_str(), Err(expected), "{bytes:?}");
        let (back, error) = FileData::Binary(Cow::Owned(bytes.clone())).into_text().unwrap_err();
        assert_eq!((back.into_owned(), error), (bytes.clone(), expected));
        let mut changed = FileData::Binary(Cow::Owned(bytes.clone()));
        assert_eq!(changed.to_str_mut().map(|_| ()), Err(expected));
        assert_eq!(changed.into_binary().into_owned(), bytes);
    }
}

#[test]
fn repeated_to_str_fails_in_the_same_way() {
    let data = FileData::Binary(Cow::Owned(vec![0x61, 0x62, 0xff]));
    let first = data.to_str();
    let second = data.to_str();
    assert_eq!(first, Err(Utf8Error { valid_up_to: 2, error_len: Some(1) }));
    assert_eq!(second, first);
    assert_eq!(data, FileData::Binary(Cow::Borrowed(&[0x61, 0x62, 0xff])));
}

#[test]
fn binary_label_on_valid_bytes_can_become_text() {
    let mut data = FileData::new(owned(b"abc"));
    {
        let binary = data.make_binary();
        assert_eq!(&binary[..], b"abc");
    }
    assert!(matches!(data, FileData::Binary(_)));
    assert_eq!(data.as_str(), None);
    assert_eq!(data.to_str(), Ok("abc"));
    assert!(data.make_text().is_ok());
    assert_eq!(data, FileData::Text(Cow::Borrowed("abc")));
}

#[test]
fn make_binary_of_owned_text_keeps_the_encoding() {
    let mut data = FileData::Text(Cow::Owned(String::from("zażółć")));
    assert_eq!(&data.make_binary()[..], "zażółć".as_bytes());
    let mut borrowed = FileData::Text(Cow::Borrowed("zażółć"));
    assert_eq!(&borrowed.make_binary()[..], "zażółć".as_bytes());
}

#[test]
fn returned_buffer_writes_through() {
    let mut data = FileData::new(owned(b"abc"));
    data.make_text().unwrap().to_mut().push_str("def");
    assert_eq!(data.as_str(), Some("abcdef"));
    data.make_binary().to_mut().push(0xff);
    assert_eq!(data.into_binary().into_owned(), b"abcdef\xff".to_vec());
}

#[test]
fn clear_empties_every_kind_of_storage() {
    let mut owned_text = FileData::Text(Cow::Owned(String::from("text")));
    owned_text.clear();
    assert_eq!(owned_text, FileData::Text(Cow::Borrowed("")));
    assert!(matches!(owned_text, FileData::Text(Cow::Owned(_))));

    let mut borrowed_text = FileData::Text(Cow::Borrowed("text"));
    borrowed_text.clear();
    assert!(matches!(borrowed_text, FileData::Text(Cow::Borrowed(""))));

    let mut owned_binary = FileData::Binary(Cow::Owned(vec![1, 2, 0xff]));
    owned_binary.clear();
    assert!(matches!(&owned_binary, FileData::Binary(Cow::Owned(bytes)) if bytes.is_empty()));

    let mut borrowed_binary = FileData::Binary(Cow::Borrowed(&[1, 2, 0xff]));
    borrowed_binary.clear();
    assert!(matches!(&borrowed_binary, FileData::Binary(Cow::Borrowed(bytes)) if bytes.is_empty()));
}

#[test]
fn default_is_empty_text() {
    let data = FileData::default();
    assert_eq!(data.as_str(), Some(""));
    assert_eq!(data.into_binary().len(), 0);
}

#[test]
fn clone_is_equal() {
    let samples = vec![
        FileData::Text(Cow::Borrowed("a")),
        FileData::Text(Cow::Owned(String::from("b"))),
        FileData::Binary(Cow::Borrowed(&[0xff])),
        FileData::Binary(Cow::Owned(vec![0xfe])),
    ];
    for data in samples {
        assert_eq!(data.clone(), data);
    }
}

#[test]
fn empty_bytes_are_text() {
    let data = FileData::new(Cow::Borrowed(&[]));
    assert_eq!(data.as_str(), Some(""));
}

#[test]
fn as_binary_views_the_bytes_of_either_label() {
    assert_eq!(FileData::Text(Cow::Borrowed("zß")).as_binary(), "zß".as_bytes());
    assert_eq!(FileData::Text(Cow::Owned(String::from("zß"))).as_binary(), "zß".as_bytes());
    assert_eq!(FileData::Binary(Cow::Borrowed(&[0xff, 0x00])).as_binary(), &[0xff, 0x00]);
    assert_eq!(FileData::Binary(Cow::Owned(vec![0xff])).as_binary(), &[0xff]);
}

#[test]
fn text_can_be_changed_in_place() {
    let mut data = FileData::new(Cow::Borrowed(b"shout"));
    data.as_str_mut().unwrap().make_ascii_uppercase();
    assert_eq!(data.as_str(), Some("SHOUT"));
    assert!(matches!(data, FileData::Text(Cow::Owned(_))));
    let mut binary = FileData::Binary(Cow::Borrowed(&[0xff]));
    assert!(binary.as_str_mut().is_none());
    assert!(matches!(binary, FileData::Binary(Cow::Borrowed(_))));
}

#[test]
fn valid_bytes_can_be_changed_in_place_as_text() {
    let mut data = FileData::Binary(Cow::Owned(b"quiet".to_vec()));
    data.to_str_mut().unwrap().make_ascii_uppercase();
    assert_eq!(data, FileData::Binary(Cow::Borrowed(b"QUIET")));
    let mut invalid = FileData::Binary(Cow::Owned(vec![0x61, 0xff]));
    assert_eq!(
        invalid.to_str_mut().map(|_| ()),
        Err(Utf8Error { valid_up_to: 1, error_len: Some(1) })
    );
    assert_eq!(invalid.into_binary().into_owned(), vec![0x61, 0xff]);
}

#[test]
fn to_str_mut_keeps_the_label() {
    let mut binary = FileData::Binary(Cow::Owned(vec![0x61]));
    assert_eq!(binary.as_str(), None);
    assert_eq!(binary.to_str_mut().map(|text| text.to_owned()), Ok(String::from("a")));
    assert_eq!(binary.as_str(), None);
    assert_eq!(binary, FileData::Binary(Cow::Borrowed(&[0x61])));

    let mut borrowed = FileData::Binary(Cow::Borrowed("größe".as_bytes()));
    assert_eq!(borrowed.to_str_mut().map(|text| text.len()), Ok(7));
    assert_eq!(borrowed.as_str(), None);
    assert_eq!(borrowed.as_binary(), "größe".as_bytes());

    let mut text = FileData::Text(Cow::Borrowed("text"));
    assert_eq!(text.to_str_mut().map(|text| text.to_owned()), Ok(String::from("text")));
    assert_eq!(text.as_str(), Some("text"));
}

#[test]
fn to_str_mut_gives_the_bytes_under_either_label() {
    let samples: Vec<Vec<u8>> = vec![
        vec![],
        b"ascii".to_vec(),
        "ünï".as_bytes().to_vec(),
        vec![0xff],
        vec![0x61, 0xe2, 0x82],
    ];
    for bytes in samples {
        let expected = std::str::from_utf8(&bytes)
            .map(|text| text.to_owned())
            .map_err(|e| Utf8Error { valid_up_to: e.valid_up_to(), error_len: e.error_len() });
        let mut binary = FileData::Binary(Cow::Owned(bytes.clone()));
        assert_eq!(binary.to_str_mut().map(|text| text.to_owned()), expected);
        assert_eq!(binary, FileData::Binary(Cow::Owned(bytes.clone())));
        let mut made = FileData::new(Cow::Owned(bytes.clone()));
        let label = made.as_str().is_some();
        assert_eq!(made.to_str_mut().map(|text| text.to_owned()), expected);
        assert_eq!(made.as_str().is_some(), label);
        assert_eq!(made.as_binary(), &bytes[..]);
    }
}

#[test]
fn clone_from_copies_label_bytes_and_storage() {
    let sources = vec![
        FileData::Text(Cow::Borrowed("borrowed text")),
        FileData::Text(Cow::Owned(String::from("owned text"))),
        FileData::Binary(Cow::Borrowed(&[0xff, 0x01])),
        FileData::Binary(Cow::Owned(vec![0xfe, 0x02, 0x03])),
        FileData::Binary(Cow::Owned(b"valid".to_vec())),
    ];
    for source in &sources {
        for start in &sources {
            let mut buffer = start.clone();
            buffer.clone_from(source);
            assert_eq!(&buffer, source);
            assert_eq!(buffer.is_owned(), source.is_owned());
        }
    }
}

#[test]
fn clone_from_keeps_owned_storage() {
    let mut buffer = FileData::Binary(Cow::Owned(Vec::with_capacity(64)));
    let before = buffer.as_binary().as_ptr();
    buffer.clone_from(&FileData::Text(Cow::Owned(String::from("fits"))));
    assert_eq!(buffer.as_str(), Some("fits"));
    assert_eq!(buffer.as_binary().as_ptr(), before);
    buffer.clone_from(&FileData::Binary(Cow::Owned(vec![0xff, 0xfe])));
    assert_eq!(buffer.as_binary(), &[0xff, 0xfe]);
    assert_eq!(buffer.as_binary().as_ptr(), before);
}

#[test]
fn storage_is_owned_or_borrowed() {
    assert!(FileData::new(Cow::Owned(vec![1])).is_owned());
    assert!(!FileData::new(Cow::Borrowed(&[1])).is_owned());
    assert!(!FileData::default().is_owned());
}
