use radio::meta::MetaData;

fn meta(title: &str, bitrate: u16, channels: u16, sample_rate: u32) -> MetaData {
    MetaData { title: title.to_string(), bitrate, channels, sample_rate }
}

fn same(a: &MetaData, b: &MetaData) -> bool {
    a.title == b.title && a.bitrate == b.bitrate && a.channels == b.channels && a.sample_rate == b.sample_rate
}

#[test]
fn default_knows_nothing() {
    let d = MetaData::default();
    assert!(same(&d, &meta("", 0, 0, 0)));
}

#[test]
fn constructors_set_one_thing() {
    assert!(same(&MetaData::with_title("Song"), &meta("Song", 0, 0, 0)));
    assert!(same(&MetaData::with_decoder_config(2, 44100), &meta("", 0, 2, 44100)));
    assert!(same(&MetaData::with_bitrate(128), &meta("", 128, 0, 0)));
    assert_eq!(MetaData::with_title("Song").title(), "Song");
}

#[test]
fn merge_fills_unknown_and_keeps_known() {
    let mut a = meta("", 128, 0, 0);
    let b = meta("Song", 64, 2, 44100);
    let m = a.merge(&b);
    assert!(same(&m, &meta("Song", 128, 2, 44100)));
    assert!(same(&a, &meta("", 128, 0, 0)));

    let mut c = meta("Old", 0, 1, 0);
    let m2 = c.merge(&meta("New", 0, 2, 22050));
    assert!(same(&m2, &meta("Old", 0, 1, 22050)));
}

#[test]
fn merge_with_default_is_neutral() {
    let mut a = meta("T", 1, 2, 3);
    assert!(same(&a.merge(&MetaData::default()), &meta("T", 1, 2, 3)));
    let mut d = MetaData::default();
    assert!(same(&d.merge(&meta("T", 1, 2, 3)), &meta("T", 1, 2, 3)));
}

#[test]
fn merge_is_associative_on_examples() {
    let a = meta("", 128, 0, 0);
    let b = meta("", 0, 2, 44100);
    let c = meta("Song", 64, 1, 8000);
    let left = a.clone().merge(&b).merge(&c);
    let right = a.clone().merge(&b.clone().merge(&c));
    assert!(same(&left, &right));
    assert!(same(&left, &meta("Song", 128, 2, 44100)));
}

#[test]
fn decoder_config_formats_rate_channels_bitrate() {
    assert_eq!(meta("x", 128, 2, 44100).decoder_config(), "44100/2/128");
    assert_eq!(meta("x", 0, 1, 0).decoder_config(), "0/1/0");
    assert_eq!(meta("x", 65535, 65535, u32::MAX).decoder_config(), "4294967295/65535/65535");
    assert_eq!(meta("x", 128, 0, 44100).decoder_config(), "");
}
