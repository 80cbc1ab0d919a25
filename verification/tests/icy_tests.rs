use radio::icy::{find_str, title_from_metadata, title_from_text, IcyDemuxer, IcyEvent};

#[derive(Debug, PartialEq)]
enum Ev {
    Nothing,
    Audio(u8),
    Title(String),
}

fn ev(e: IcyEvent) -> Ev {
    match e {
        IcyEvent::Nothing => Ev::Nothing,
        IcyEvent::Audio(b) => Ev::Audio(b),
        IcyEvent::Title(t) => Ev::Title(t),
    }
}

fn feed(d: &mut IcyDemuxer, bytes: &[u8]) -> Vec<Ev> {
    bytes.iter().map(|b| ev(d.step(*b))).collect()
}

fn block(text: &str, len: u8) -> Vec<u8> {
    let mut v = text.as_bytes().to_vec();
    v.resize(16 * len as usize, 0);
    v
}

#[test]
fn find_str_finds_first_occurrence() {
    assert_eq!(find_str("abcabc", "bc", 0), Some(1));
    assert_eq!(find_str("abcabc", "bc", 2), Some(4));
    assert_eq!(find_str("abcabc", "x", 0), None);
    assert_eq!(find_str("ab", "abc", 0), None);
    assert_eq!(find_str("ab", "", 0), Some(0));
    assert_eq!(find_str("ab", "", 2), Some(2));
    assert_eq!(find_str("ab", "", 3), None);
}

#[test]
fn title_from_text_takes_text_between_quotes() {
    assert_eq!(title_from_text("StreamTitle='Artist - Song';StreamUrl='';"), Some("Artist - Song".to_string()));
    assert_eq!(title_from_text("StreamTitle='';"), Some(String::new()));
    assert_eq!(title_from_text("x StreamTitle='A' StreamTitle='B'"), Some("A".to_string()));
    assert_eq!(title_from_text("StreamTitle='no end"), None);
    assert_eq!(title_from_text("StreamUrl='x';"), None);
    assert_eq!(title_from_text(""), None);
    assert_eq!(title_from_text("StreamTitle='Café';"), Some("Café".to_string()));
}

#[test]
fn title_from_metadata_decodes_utf8() {
    let bytes = "StreamTitle='Café Ümlaut';".as_bytes();
    assert_eq!(title_from_metadata(bytes), Some("Café Ümlaut".to_string()));
    let padded = block("StreamTitle='Song';", 2);
    assert_eq!(title_from_metadata(&padded), Some("Song".to_string()));
}

#[test]
fn title_from_metadata_rejects_invalid_utf8() {
    let mut bytes = b"StreamTitle='Song';".to_vec();
    bytes.push(0xff);
    assert_eq!(title_from_metadata(&bytes), None);
    assert_eq!(title_from_metadata(&[]), None);
}

#[test]
fn demuxer_splits_audio_and_metadata() {
    let mut d = IcyDemuxer::new(3);
    let mut stream = vec![10, 11, 12, 2];
    stream.extend(block("StreamTitle='Hello';", 2));
    stream.extend([13, 14, 15, 0, 16]);
    let events = feed(&mut d, &stream);
    let mut expected = vec![Ev::Audio(10), Ev::Audio(11), Ev::Audio(12), Ev::Nothing];
    expected.extend((0..31).map(|_| Ev::Nothing));
    expected.push(Ev::Title("Hello".to_string()));
    expected.extend([Ev::Audio(13), Ev::Audio(14), Ev::Audio(15), Ev::Nothing, Ev::Audio(16)]);
    assert_eq!(events, expected);
}

#[test]
fn demuxer_reports_length_byte_expectation() {
    let mut d = IcyDemuxer::new(2);
    assert!(!d.awaiting_metadata_size());
    d.step(1);
    assert!(!d.awaiting_metadata_size());
    d.step(2);
    assert!(d.awaiting_metadata_size());
    d.step(0);
    assert!(!d.awaiting_metadata_size());
}

#[test]
fn demuxer_block_without_title_yields_nothing() {
    let mut d = IcyDemuxer::new(1);
    let mut stream = vec![7, 1];
    stream.extend(block("StreamUrl='x';", 1));
    stream.push(8);
    let events = feed(&mut d, &stream);
    assert_eq!(events[0], Ev::Audio(7));
    assert!(events[1..18].iter().all(|e| *e == Ev::Nothing));
    assert_eq!(events[18], Ev::Audio(8));
}

#[test]
fn demuxer_is_independent_of_chunking() {
    let mut stream = vec![1, 2, 3, 4, 1];
    stream.extend(block("StreamTitle='X';", 1));
    stream.extend([5, 6, 7, 8, 1]);
    stream.extend(block("StreamTitle='Y';", 1));
    stream.extend([9, 10]);
    let mut whole = IcyDemuxer::new(4);
    let all = feed(&mut whole, &stream);
    for cut in 0..stream.len() {
        let mut d = IcyDemuxer::new(4);
        let mut parts = feed(&mut d, &stream[..cut]);
        parts.extend(feed(&mut d, &stream[cut..]));
        assert_eq!(parts, all);
    }
    assert!(all.contains(&Ev::Title("X".to_string())));
    assert!(all.contains(&Ev::Title("Y".to_string())));
}
