use clutch::pty::{PtyReader, ReadEvent, ReaderAction};
use clutch::stream::{find_valid_utf8_boundary, StreamDecoder};

#[test]
fn boundary_of_whole_text_is_its_length() {
    assert_eq!(find_valid_utf8_boundary(b""), 0);
    assert_eq!(find_valid_utf8_boundary(b"hello"), 5);
    assert_eq!(find_valid_utf8_boundary("h\u{e9}llo \u{20ac} \u{1f600}".as_bytes()), 15);
}

#[test]
fn boundary_stops_before_a_cut_sequence() {
    // "a" followed by the first two bytes of the euro sign (E2 82 AC)
    assert_eq!(find_valid_utf8_boundary(&[0x61, 0xE2, 0x82]), 1);
    // the first byte of a two-byte sequence alone
    assert_eq!(find_valid_utf8_boundary(&[0xC3]), 0);
    // three of the four bytes of U+1F600 behind "ok"
    assert_eq!(find_valid_utf8_boundary(&[0x6F, 0x6B, 0xF0, 0x9F, 0x98]), 2);
}

#[test]
fn boundary_stops_before_a_byte_that_is_no_text() {
    assert_eq!(find_valid_utf8_boundary(&[0x61, 0x62, 0xFF, 0x63]), 2);
    assert_eq!(find_valid_utf8_boundary(&[0xFF]), 0);
    assert_eq!(find_valid_utf8_boundary(&[0x80, 0x61]), 0);
    // an overlong encoding of "/" is no text
    assert_eq!(find_valid_utf8_boundary(&[0x61, 0xC0, 0xAF]), 1);
}

#[test]
fn decoder_joins_a_character_cut_by_two_reads() {
    let euro = "\u{20ac}".as_bytes();
    let mut decoder = StreamDecoder::new();
    assert_eq!(decoder.feed(&euro[..1]), None);
    assert_eq!(decoder.pending(), &euro[..1]);
    assert_eq!(decoder.feed(&euro[1..2]), None);
    assert_eq!(decoder.feed(&euro[2..]), Some("\u{20ac}".to_string()));
    assert!(decoder.pending().is_empty());
}

#[test]
fn decoder_gives_the_same_text_for_every_cut() {
    let text = "a\u{e9}\u{20ac}\u{1f600}z";
    let bytes = text.as_bytes();
    for cut in 0..=bytes.len() {
        let mut decoder = StreamDecoder::new();
        let mut out = String::new();
        if let Some(t) = decoder.feed(&bytes[..cut]) {
            out.push_str(&t);
        }
        if let Some(t) = decoder.feed(&bytes[cut..]) {
            out.push_str(&t);
        }
        assert_eq!(out, text);
        assert!(decoder.pending().is_empty());
    }
}

#[test]
fn decoder_gives_the_same_text_for_cuts_of_bytes_that_are_no_text() {
    let bytes: Vec<u8> = vec![0x61, 0xE2, 0x82, 0xAC, 0xFF, 0x62];
    let mut whole = StreamDecoder::new();
    let expected = whole.feed(&bytes);
    assert_eq!(expected, Some("a\u{20ac}".to_string()));
    assert_eq!(whole.pending(), &[0xFF, 0x62]);
    for cut in 0..=bytes.len() {
        let mut decoder = StreamDecoder::new();
        let mut out = String::new();
        if let Some(t) = decoder.feed(&bytes[..cut]) {
            out.push_str(&t);
        }
        if let Some(t) = decoder.feed(&bytes[cut..]) {
            out.push_str(&t);
        }
        assert_eq!(out, "a\u{20ac}");
        assert_eq!(decoder.pending(), &[0xFF, 0x62]);
    }
}

#[test]
fn decoder_holds_an_empty_read() {
    let mut decoder = StreamDecoder::new();
    assert_eq!(decoder.feed(&[]), None);
    assert_eq!(decoder.feed(&[0xE2]), None);
    assert_eq!(decoder.feed(&[]), None);
    assert_eq!(decoder.pending(), &[0xE2]);
}

#[test]
fn reader_sends_text_then_exit_once() {
    let mut reader = PtyReader::new("s1".to_string());
    assert_eq!(reader.session_id(), "s1");
    assert!(!reader.is_finished());
    match reader.on_read(ReadEvent::Data(b"ls\r\n".to_vec())) {
        ReaderAction::Data(payload) => {
            assert_eq!(payload.session_id, "s1");
            assert_eq!(payload.data, "ls\r\n");
        }
        other => panic!("unexpected action {:?}", other),
    }
    assert_eq!(reader.on_read(ReadEvent::Data(vec![0xC3])), ReaderAction::Idle);
    match reader.on_read(ReadEvent::Data(vec![0xA9, 0x21])) {
        ReaderAction::Data(payload) => assert_eq!(payload.data, "\u{e9}!"),
        other => panic!("unexpected action {:?}", other),
    }
    match reader.on_read(ReadEvent::Eof) {
        ReaderAction::Exit(payload) => assert_eq!(payload.session_id, "s1"),
        other => panic!("unexpected action {:?}", other),
    }
    assert!(reader.is_finished());
    assert_eq!(reader.on_read(ReadEvent::Data(b"late".to_vec())), ReaderAction::Stop);
    assert_eq!(reader.on_read(ReadEvent::Eof), ReaderAction::Stop);
    assert_eq!(reader.on_read(ReadEvent::Failed), ReaderAction::Stop);
}

#[test]
fn reader_stops_without_a_word_when_a_read_fails() {
    let mut reader = PtyReader::new("s2".to_string());
    assert_eq!(reader.on_read(ReadEvent::Failed), ReaderAction::Stop);
    assert!(reader.is_finished());
    assert_eq!(reader.on_read(ReadEvent::Data(b"x".to_vec())), ReaderAction::Stop);
}
