use vstd::prelude::*;

use crate::meta::{MetaData, MetaDataView, empty_meta};
use crate::text::{
    decimal,
    is_digit,
    lemma_decimal_digits,
    lemma_parse_decimal_roundtrip,
    parse_usize,
    parse_usize_spec,
    str_equal,
};

verus! {

/// Why a stream could not be opened.
#[derive(Debug)]
pub struct StreamError {
    msg: String,
}

impl Clone for StreamError {
    fn clone(&self) -> (r: Self)
        ensures
            r == *self,
    {
        StreamError { msg: self.msg.clone() }
    }
}

impl StreamError {
    /// The message of the error.
    pub closed spec fn message(&self) -> Seq<char> {
        self.msg@
    }

    pub fn new(msg: &str) -> (r: Self)
        ensures
            r.message() == msg@,
    {
        Self { msg: msg.to_owned() }
    }

    /// The message, as the error displays it.
    pub fn msg(&self) -> (r: &str)
        ensures
            r@ == self.message(),
    {
        self.msg.as_str()
    }
}

/// The only content type the player accepts.
pub open spec fn audio_mpeg() -> Seq<char> {
    seq!['a', 'u', 'd', 'i', 'o', '/', 'm', 'p', 'e', 'g']
}

/// The message of the error for a stream that is not MPEG audio.
pub open spec fn wrong_content_type() -> Seq<char> {
    seq!['w', 'r', 'o', 'n', 'g', ' ', 'c', 'o', 'n', 't', 'e', 'n', 't', ' ', 't', 'y', 'p', 'e']
}

/// What the response headers of a stream say about it.
#[derive(Debug)]
pub struct StreamConfig {
    /// Audio bytes between two metadata blocks; 0 when the stream carries none.
    pub meta_interval: usize,
    /// The announced bitrate in kilobits per second.
    pub bitrate: usize,
}

/// A header value read as a number: unparsable values count as 0.
pub open spec fn header_number(value: Seq<char>) -> usize {
    match parse_usize_spec(value) {
        Some(n) => n,
        None => 0,
    }
}

/// The metadata interval that the `icy-metaint` header announces.
pub open spec fn meta_interval_spec(icy_metaint: Option<Seq<char>>) -> usize {
    match icy_metaint {
        Some(v) => header_number(v),
        None => 0,
    }
}

/// The bitrate that the `icy-br` header announces; 128 without the header.
pub open spec fn bitrate_spec(icy_br: Option<Seq<char>>) -> usize {
    match icy_br {
        Some(v) => header_number(v),
        None => 128,
    }
}

/// The view of an optional header value.
pub open spec fn header_view(h: Option<&str>) -> Option<Seq<char>> {
    match h {
        Some(v) => Some(v@),
        None => None,
    }
}

/// A header value read as a number, 0 when it does not parse.
fn header_value_number(value: &str) -> (r: usize)
    ensures
        r == header_number(value@),
{
    match parse_usize(value) {
        Some(n) => n,
        None => 0,
    }
}

/// Reads the response headers of a stream: `content-type` must be
/// `audio/mpeg`; `icy-metaint` gives the metadata interval and `icy-br` the
/// bitrate. Each value is the header's text (empty when it is not visible
/// ASCII), or `None` when the header is missing.
pub fn stream_config(content_type: Option<&str>, icy_metaint: Option<&str>, icy_br: Option<&str>) -> (r: Result<
    StreamConfig,
    StreamError,
>)
    ensures
        (content_type matches Some(t) && t@ == audio_mpeg()) <==> r is Ok,
        r matches Err(e) ==> e.message() == wrong_content_type(),
        r matches Ok(c) ==> c.meta_interval == meta_interval_spec(header_view(icy_metaint))
            && c.bitrate == bitrate_spec(header_view(icy_br)),
{
    proof {
        reveal_strlit("audio/mpeg");
        reveal_strlit("wrong content type");
    }
    let wrong = "wrong content type";
    assert(wrong@ =~= wrong_content_type());
    match content_type {
        Some(t) => {
            let expected = "audio/mpeg";
            assert(expected@ =~= audio_mpeg());
            if !str_equal(t, expected) {
                return Err(StreamError::new(wrong));
            }
        },
        None => {
            return Err(StreamError::new(wrong));
        },
    }
    let meta_interval: usize = match icy_metaint {
        Some(v) => header_value_number(v),
        None => 0,
    };
    let bitrate: usize = match icy_br {
        Some(v) => header_value_number(v),
        None => 128,
    };
    Ok(StreamConfig { meta_interval, bitrate })
}

/// Bytes buffered before playback starts: five seconds of audio at the
/// bitrate, `bitrate / 8 * 1024 * 5`.
pub open spec fn prefetch_spec(bitrate: usize) -> int {
    bitrate / 8 * 1024 * 5
}

impl StreamConfig {
    /// The metadata announcing the bitrate, truncated to 16 bits.
    pub fn bitrate_meta(&self) -> (r: MetaData)
        ensures
            r@ == (MetaDataView { bitrate: self.bitrate as u16, ..empty_meta() }),
    {
        MetaData::with_bitrate(self.bitrate as u16)
    }

    /// Whether the prefetch size fits in a `usize`.
    pub fn prefetch_fits(&self) -> (r: bool)
        ensures
            r == (prefetch_spec(self.bitrate) <= usize::MAX),
    {
        self.bitrate / 8 <= usize::MAX / 5120
    }

    /// The number of bytes to buffer before playback starts.
    pub fn prefetch_bytes(&self) -> (r: u64)
        requires
            prefetch_spec(self.bitrate) <= usize::MAX,
        ensures
            r == prefetch_spec(self.bitrate),
    {
        let p: usize = self.bitrate / 8 * 1024 * 5;
        p as u64
    }
}

/// Whether the buffer, written up to `position`, holds the prefetch.
pub fn prefetch_reached(position: u64, prefetch_bytes: u64) -> (r: bool)
    ensures
        r == (position >= prefetch_bytes),
{
    position >= prefetch_bytes
}


/// Headers carrying the decimal text of a number give that number, with or
/// without a leading `+`; without the headers the interval is 0 and the
/// bitrate 128.
pub proof fn law_header_numbers(n: usize)
    ensures
        meta_interval_spec(Some(decimal(n as nat))) == n,
        bitrate_spec(Some(decimal(n as nat))) == n,
        meta_interval_spec(Some(seq!['+'] + decimal(n as nat))) == n,
        bitrate_spec(Some(seq!['+'] + decimal(n as nat))) == n,
        meta_interval_spec(None) == 0,
        bitrate_spec(None) == 128,
{
    lemma_parse_decimal_roundtrip(n);
    lemma_decimal_digits(n as nat);
    assert((seq!['+'] + decimal(n as nat)).drop_first() =~= decimal(n as nat));
}

/// A header value that does not start with a digit or `+` counts as 0.
pub proof fn law_header_garbage(v: Seq<char>)
    requires
        v.len() > 0,
        !is_digit(v[0]),
        v[0] != '+',
    ensures
        meta_interval_spec(Some(v)) == 0,
        bitrate_spec(Some(v)) == 0,
{
}

/// Five seconds of audio: a bitrate of `8 * k + r` kbit/s (with `r < 8`) is
/// `k` KiB per second, so the prefetch is `5 * 1024 * k` bytes.
pub proof fn law_prefetch_five_seconds(k: usize, r: usize)
    requires
        r < 8,
        8 * k + r <= usize::MAX,
    ensures
        prefetch_spec((8 * k + r) as usize) == 5 * 1024 * k,
{
    let b = (8 * k + r) as usize;
    assert(b == 8 * k + r);
    assert(b / 8 == k) by (nonlinear_arith)
        requires
            b == 8 * k + r,
            r < 8,
    ;
    assert(prefetch_spec(b) == k * 1024 * 5);
    assert(k * 1024 * 5 == 5 * 1024 * k) by (nonlinear_arith);
}

/// Every further 8 kbit/s of bitrate adds 5 KiB of prefetch.
pub proof fn law_prefetch_step(b: usize)
    requires
        b + 8 <= usize::MAX,
    ensures
        prefetch_spec((b + 8) as usize) == prefetch_spec(b) + 5120,
{
    assert((b + 8) / 8 == b / 8 + 1) by (nonlinear_arith);
}

} // verus!
