use radio::stream::{prefetch_reached, stream_config, StreamError};

#[test]
fn stream_error_keeps_message() {
    assert_eq!(StreamError::new("wrong content type").msg(), "wrong content type");
}

#[test]
fn config_requires_audio_mpeg() {
    assert_eq!(stream_config(None, None, None).unwrap_err().msg(), "wrong content type");
    assert_eq!(stream_config(Some("audio/aac"), Some("16000"), None).unwrap_err().msg(), "wrong content type");
    assert_eq!(stream_config(Some(""), None, None).unwrap_err().msg(), "wrong content type");
    assert!(stream_config(Some("audio/mpeg"), None, None).is_ok());
}

#[test]
fn config_defaults_without_icy_headers() {
    let c = stream_config(Some("audio/mpeg"), None, None).unwrap();
    assert_eq!(c.meta_interval, 0);
    assert_eq!(c.bitrate, 128);
}

#[test]
fn config_reads_icy_headers() {
    let c = stream_config(Some("audio/mpeg"), Some("16000"), Some("192")).unwrap();
    assert_eq!(c.meta_interval, 16000);
    assert_eq!(c.bitrate, 192);
}

#[test]
fn config_unparsable_headers_count_as_zero() {
    let c = stream_config(Some("audio/mpeg"), Some("x"), Some("128,128")).unwrap();
    assert_eq!(c.meta_interval, 0);
    assert_eq!(c.bitrate, 0);
    let c = stream_config(Some("audio/mpeg"), Some(""), Some("")).unwrap();
    assert_eq!(c.meta_interval, 0);
    assert_eq!(c.bitrate, 0);
}

#[test]
fn prefetch_is_five_seconds_of_audio() {
    let c = stream_config(Some("audio/mpeg"), None, None).unwrap();
    assert!(c.prefetch_fits());
    assert_eq!(c.prefetch_bytes(), 128 / 8 * 1024 * 5);
    assert_eq!(c.prefetch_bytes(), 81920);
    let c = stream_config(Some("audio/mpeg"), None, Some("7")).unwrap();
    assert_eq!(c.prefetch_bytes(), 0);
    let c = stream_config(Some("audio/mpeg"), None, Some("18446744073709551615")).unwrap();
    assert!(!c.prefetch_fits());
}

#[test]
fn bitrate_meta_truncates_to_16_bits() {
    let c = stream_config(Some("audio/mpeg"), None, Some("70000")).unwrap();
    assert_eq!(c.bitrate_meta().bitrate, 70000u32 as u16);
    assert_eq!(c.bitrate_meta().bitrate, 4464);
    assert_eq!(c.bitrate_meta().title, "");
    let c = stream_config(Some("audio/mpeg"), None, None).unwrap();
    assert_eq!(c.bitrate_meta().bitrate, 128);
}

#[test]
fn prefetch_reached_at_threshold() {
    assert!(!prefetch_reached(81919, 81920));
    assert!(prefetch_reached(81920, 81920));
    assert!(prefetch_reached(1, 0));
}
