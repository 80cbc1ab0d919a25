use vstd::prelude::*;

use crate::text::{decimal, decimal_string, lemma_parse_decimal_roundtrip, parse_usize_spec};

verus! {

/// What is known of the stream that is playing: the song title announced in
/// the stream, its bitrate, and the decoder's channel count and sample rate.
/// An empty title or a zero marks a value that is not known yet.
#[derive(Debug)]
pub struct MetaData {
    pub title: String,
    pub bitrate: u16,
    pub channels: u16,
    pub sample_rate: u32,
}

/// The mathematical model of [`MetaData`].
pub struct MetaDataView {
    pub title: Seq<char>,
    pub bitrate: u16,
    pub channels: u16,
    pub sample_rate: u32,
}

impl View for MetaData {
    type V = MetaDataView;

    open spec fn view(&self) -> MetaDataView {
        MetaDataView {
            title: self.title@,
            bitrate: self.bitrate,
            channels: self.channels,
            sample_rate: self.sample_rate,
        }
    }
}

/// Metadata in which nothing is known.
pub open spec fn empty_meta() -> MetaDataView {
    MetaDataView { title: Seq::empty(), bitrate: 0, channels: 0, sample_rate: 0 }
}

/// Combines what `a` knows with what `b` knows: each value that `a` already
/// holds stays, each value that `a` lacks is taken from `b`.
pub open spec fn merge_view(a: MetaDataView, b: MetaDataView) -> MetaDataView {
    MetaDataView {
        title: if a.title.len() == 0 { b.title } else { a.title },
        bitrate: if a.bitrate == 0 { b.bitrate } else { a.bitrate },
        channels: if a.channels == 0 { b.channels } else { a.channels },
        sample_rate: if a.sample_rate == 0 { b.sample_rate } else { a.sample_rate },
    }
}

/// The decoder line of the "now playing" box: sample rate, channel count and
/// bitrate separated by `/`, or nothing while the channel count is unknown.
pub open spec fn decoder_config_view(m: MetaDataView) -> Seq<char> {
    if m.channels != 0 {
        decimal(m.sample_rate as nat) + seq!['/'] + decimal(m.channels as nat) + seq!['/']
            + decimal(m.bitrate as nat)
    } else {
        Seq::empty()
    }
}

impl Default for MetaData {
    fn default() -> (r: Self)
        ensures
            r@ == empty_meta(),
    {
        MetaData { title: String::new(), bitrate: 0, channels: 0, sample_rate: 0 }
    }
}

impl Clone for MetaData {
    fn clone(&self) -> (r: Self)
        ensures
            r == *self,
    {
        MetaData {
            title: self.title.clone(),
            bitrate: self.bitrate,
            channels: self.channels,
            sample_rate: self.sample_rate,
        }
    }
}

impl MetaData {
    pub fn with_title(title: &str) -> (r: Self)
        ensures
            r@ == (MetaDataView { title: title@, ..empty_meta() }),
    {
        MetaData { title: title.to_owned(), ..Self::default() }
    }

    pub fn with_decoder_config(channels: u16, sample_rate: u32) -> (r: Self)
        ensures
            r@ == (MetaDataView { channels, sample_rate, ..empty_meta() }),
    {
        MetaData { channels, sample_rate, ..Self::default() }
    }

    pub fn with_bitrate(bitrate: u16) -> (r: Self)
        ensures
            r@ == (MetaDataView { bitrate, ..empty_meta() }),
    {
        MetaData { bitrate, ..Self::default() }
    }

    pub fn title(&self) -> (r: &str)
        ensures
            r@ == self.title@,
    {
        self.title.as_str()
    }

    /// Returns this metadata completed by `meta`; `self` is left as it was.
    pub fn merge(&mut self, meta: &MetaData) -> (r: MetaData)
        ensures
            *final(self) == *old(self),
            r@ == merge_view(old(self)@, meta@),
    {
        let mut merged_meta = self.clone();
        if self.title.as_str().is_empty() && !meta.title.as_str().is_empty() {
            merged_meta.title = meta.title().to_owned();
        }
        if self.bitrate == 0 && meta.bitrate != 0 {
            merged_meta.bitrate = meta.bitrate;
        }
        if self.channels == 0 && meta.channels != 0 {
            merged_meta.channels = meta.channels;
        }
        if self.sample_rate == 0 && meta.sample_rate != 0 {
            merged_meta.sample_rate = meta.sample_rate;
        }
        assert(merged_meta@.title =~= merge_view(self@, meta@).title);
        merged_meta
    }

    /// `"{sample_rate}/{channels}/{bitrate}"` once the channel count is known,
    /// the empty string before.
    pub fn decoder_config(&self) -> (r: String)
        ensures
            r@ == decoder_config_view(self@),
    {
        if self.channels != 0 {
            proof {
                reveal_strlit("/");
            }
            let r = decimal_string(self.sample_rate).concat("/").concat(
                decimal_string(self.channels as u32).as_str(),
            ).concat("/").concat(decimal_string(self.bitrate as u32).as_str());
            return r;
        }
        String::new()
    }
}

/// Merging keeps every value already known: a known title, bitrate, channel
/// count or sample rate of `a` is the one of the result.
pub proof fn law_merge_keeps_known(a: MetaDataView, b: MetaDataView)
    ensures
        a.title.len() != 0 ==> merge_view(a, b).title == a.title,
        a.bitrate != 0 ==> merge_view(a, b).bitrate == a.bitrate,
        a.channels != 0 ==> merge_view(a, b).channels == a.channels,
        a.sample_rate != 0 ==> merge_view(a, b).sample_rate == a.sample_rate,
{
}

/// Merging fills every value that is unknown in `a` from `b`.
pub proof fn law_merge_fills_unknown(a: MetaDataView, b: MetaDataView)
    ensures
        a.title.len() == 0 ==> merge_view(a, b).title == b.title,
        a.bitrate == 0 ==> merge_view(a, b).bitrate == b.bitrate,
        a.channels == 0 ==> merge_view(a, b).channels == b.channels,
        a.sample_rate == 0 ==> merge_view(a, b).sample_rate == b.sample_rate,
{
}

/// Empty metadata is neutral for merging, on either side.
pub proof fn law_merge_empty_neutral(a: MetaDataView)
    ensures
        merge_view(a, empty_meta()) == a,
        merge_view(empty_meta(), a) == a,
{
    assert(merge_view(a, empty_meta()).title =~= a.title);
    assert(merge_view(empty_meta(), a).title =~= a.title);
}

/// Merging metadata with itself changes nothing.
pub proof fn law_merge_idempotent(a: MetaDataView)
    ensures
        merge_view(a, a) == a,
{
}

/// Merging is associative: folding in `b` and then `c` is the same as folding
/// in what `b` and `c` know together.
pub proof fn law_merge_associative(a: MetaDataView, b: MetaDataView, c: MetaDataView)
    ensures
        merge_view(merge_view(a, b), c) == merge_view(a, merge_view(b, c)),
{
}


/// The decoder line, once the channel count is known, is three decimal fields
/// separated by `/` that read back as the sample rate, the channel count and
/// the bitrate; before that it is empty.
pub proof fn law_decoder_config_fields(m: MetaDataView)
    ensures
        m.channels == 0 ==> decoder_config_view(m) == Seq::<char>::empty(),
        m.channels != 0 ==> ({
            let d = decoder_config_view(m);
            let a = decimal(m.sample_rate as nat).len() as int;
            let b = decimal(m.channels as nat).len() as int;
            &&& d[a] == '/'
            &&& d[a + 1 + b] == '/'
            &&& parse_usize_spec(d.subrange(0, a)) == Some(m.sample_rate as usize)
            &&& parse_usize_spec(d.subrange(a + 1, a + 1 + b)) == Some(m.channels as usize)
            &&& parse_usize_spec(d.subrange(a + 2 + b, d.len() as int)) == Some(m.bitrate as usize)
        }),
{
    if m.channels != 0 {
        let d = decoder_config_view(m);
        let x = decimal(m.sample_rate as nat);
        let y = decimal(m.channels as nat);
        let z = decimal(m.bitrate as nat);
        let a = x.len() as int;
        let b = y.len() as int;
        assert(d.subrange(0, a) =~= x);
        assert(d.subrange(a + 1, a + 1 + b) =~= y);
        assert(d.subrange(a + 2 + b, d.len() as int) =~= z);
        lemma_parse_decimal_roundtrip(m.sample_rate as usize);
        lemma_parse_decimal_roundtrip(m.channels as usize);
        lemma_parse_decimal_roundtrip(m.bitrate as usize);
    }
}

} // verus!
