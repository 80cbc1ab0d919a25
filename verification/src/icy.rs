use vstd::prelude::*;
use vstd::utf8::{valid_utf8, decode_utf8};

verus! {

/// The first position at or after `i` where `p` occurs in `s`.
pub open spec fn find_from(s: Seq<char>, p: Seq<char>, i: int) -> Option<int>
    decreases s.len() + 1 - i,
{
    if i < 0 || i + p.len() > s.len() {
        None
    } else if s.subrange(i, i + p.len()) == p {
        Some(i)
    } else {
        find_from(s, p, i + 1)
    }
}

/// A found position is an occurrence in bounds, at or after `i`.
pub proof fn lemma_find_from(s: Seq<char>, p: Seq<char>, i: int)
    ensures
        find_from(s, p, i) matches Some(k) ==> 0 <= i <= k && k + p.len() <= s.len()
            && s.subrange(k, k + p.len()) == p,
    decreases s.len() + 1 - i,
{
    if 0 <= i && i + p.len() <= s.len() && s.subrange(i, i + p.len()) != p {
        lemma_find_from(s, p, i + 1);
    }
}

/// The key that introduces the song title in ICY metadata.
pub open spec fn stream_title_key() -> Seq<char> {
    seq!['S', 't', 'r', 'e', 'a', 'm', 'T', 'i', 't', 'l', 'e', '=', '\'']
}

/// The song title announced in a metadata text: what stands between the first
/// `StreamTitle='` and the next `'`.
pub open spec fn title_in_text(t: Seq<char>) -> Option<Seq<char>> {
    if t.len() == 0 {
        None
    } else {
        match find_from(t, stream_title_key(), 0) {
            None => None,
            Some(k) => {
                let rest = t.subrange(k + 13, t.len() as int);
                match find_from(rest, seq!['\''], 0) {
                    Some(q) => Some(rest.subrange(0, q)),
                    None => None,
                }
            },
        }
    }
}

/// The song title announced in a metadata block: none unless the block is
/// valid UTF-8.
pub open spec fn title_in_metadata(bytes: Seq<u8>) -> Option<Seq<char>> {
    if valid_utf8(bytes) {
        title_in_text(decode_utf8(bytes))
    } else {
        None
    }
}

/// The text that the bytes encode, when they are valid UTF-8.
///
/// Calls `std::str::from_utf8`; the contract claims that it succeeds exactly
/// on valid UTF-8 and then yields the decoded characters.
#[verifier::external_body]
fn utf8_text(bytes: &[u8]) -> (r: Option<String>)
    ensures
        r is Some <==> valid_utf8(bytes@),
        r matches Some(t) ==> t@ == decode_utf8(bytes@),
{
    match std::str::from_utf8(bytes) {
        Ok(s) => Some(s.to_owned()),
        Err(_) => None,
    }
}

/// Whether `p` occurs in `s` at position `i`.
fn occurs_at(s: &str, n: usize, p: &str, m: usize, i: usize) -> (r: bool)
    requires
        n == s@.len(),
        m == p@.len(),
        i + m <= n,
    ensures
        r == (s@.subrange(i as int, i + m) == p@),
{
    let mut j: usize = 0;
    while j < m
        invariant
            n == s@.len(),
            m == p@.len(),
            i + m <= n,
            j <= m,
            forall|k: int| 0 <= k < j ==> s@[i + k] == p@[k],
        decreases m - j,
    {
        if s.get_char(i + j) != p.get_char(j) {
            assert(s@.subrange(i as int, i + m)[j as int] != p@[j as int]);
            return false;
        }
        j = j + 1;
    }
    assert(s@.subrange(i as int, i + m) =~= p@);
    true
}

/// The first position at or after `from` where `p` occurs in `s`.
pub fn find_str(s: &str, p: &str, from: usize) -> (r: Option<usize>)
    ensures
        r matches Some(k) ==> find_from(s@, p@, from as int) == Some(k as int),
        r is None ==> find_from(s@, p@, from as int) is None,
{
    let n = s.unicode_len();
    let m = p.unicode_len();
    if m > n || from > n - m {
        return None;
    }
    let mut i = from;
    loop
        invariant
            n == s@.len(),
            m == p@.len(),
            from <= i,
            i + m <= n,
            find_from(s@, p@, from as int) == find_from(s@, p@, i as int),
        decreases n - m - i,
    {
        if occurs_at(s, n, p, m, i) {
            return Some(i);
        }
        if i == n - m {
            assert(find_from(s@, p@, i + 1) is None);
            return None;
        }
        i = i + 1;
    }
}

/// The song title announced in a metadata text.
pub fn title_from_text(text: &str) -> (r: Option<String>)
    ensures
        r.deep_view() == title_in_text(text@),
{
    if text.unicode_len() == 0 {
        return None;
    }
    proof {
        reveal_strlit("StreamTitle='");
        reveal_strlit("'");
    }
    let key = "StreamTitle='";
    assert(key@ =~= stream_title_key());
    match find_str(text, key, 0) {
        None => None,
        Some(index) => {
            proof {
                lemma_find_from(text@, key@, 0);
            }
            let left_index = index + 13;
            let rest = text.substring_char(left_index, text.unicode_len());
            match find_str(rest, "'", 0) {
                Some(right_index) => {
                    proof {
                        lemma_find_from(rest@, "'"@, 0);
                    }
                    assert("'"@ =~= seq!['\'']);
                    let title = rest.substring_char(0, right_index).to_owned();
                    Some(title)
                },
                None => {
                    assert("'"@ =~= seq!['\'']);
                    None
                },
            }
        },
    }
}

/// The song title announced in a metadata block.
pub fn title_from_metadata(bytes: &[u8]) -> (r: Option<String>)
    ensures
        r.deep_view() == title_in_metadata(bytes@),
{
    match utf8_text(bytes) {
        Some(text) => title_from_text(text.as_str()),
        None => None,
    }
}

/// What one byte of an ICY stream turns out to be.
#[derive(Debug)]
pub enum IcyEvent {
    /// The byte belongs to the metadata framing or to a block without a title.
    Nothing,
    /// The byte is audio, to be handed to the decoder.
    Audio(u8),
    /// The byte completed a metadata block that announces this song title.
    Title(String),
}

/// The mathematical model of [`IcyEvent`].
pub enum IcyEventView {
    Nothing,
    Audio(u8),
    Title(Seq<char>),
}

impl View for IcyEvent {
    type V = IcyEventView;

    open spec fn view(&self) -> IcyEventView {
        match self {
            IcyEvent::Nothing => IcyEventView::Nothing,
            IcyEvent::Audio(b) => IcyEventView::Audio(*b),
            IcyEvent::Title(t) => IcyEventView::Title(t@),
        }
    }
}

/// The mathematical model of [`IcyDemuxer`].
pub struct IcyState {
    pub meta_interval: usize,
    pub counter: usize,
    pub awaiting_size: bool,
    pub size: u8,
    pub awaiting_meta: bool,
    pub metadata: Seq<u8>,
}

/// Splits an ICY stream (audio with interleaved metadata blocks) into audio
/// bytes and song titles. After every `meta_interval` audio bytes comes a
/// length byte `L`, then `16 * L` bytes of metadata text.
#[derive(Debug)]
pub struct IcyDemuxer {
    meta_interval: usize,
    counter: usize,
    awaiting_metadata_size: bool,
    metadata_size: u8,
    awaiting_metadata: bool,
    metadata: Vec<u8>,
}

impl View for IcyDemuxer {
    type V = IcyState;

    closed spec fn view(&self) -> IcyState {
        IcyState {
            meta_interval: self.meta_interval,
            counter: self.counter,
            awaiting_size: self.awaiting_metadata_size,
            size: self.metadata_size,
            awaiting_meta: self.awaiting_metadata,
            metadata: self.metadata@,
        }
    }
}

/// The state at the start of the stream, and after each metadata block.
pub open spec fn fresh_state(meta_interval: usize) -> IcyState {
    IcyState {
        meta_interval,
        counter: meta_interval,
        awaiting_size: false,
        size: 0,
        awaiting_meta: false,
        metadata: Seq::empty(),
    }
}

/// How one byte changes the demultiplexer and what it yields.
pub open spec fn step_spec(s: IcyState, b: u8) -> (IcyState, IcyEventView) {
    if s.awaiting_size {
        let size = (b * 16) as u8;
        if size == 0 {
            (IcyState { awaiting_size: false, size, counter: s.meta_interval, ..s }, IcyEventView::Nothing)
        } else {
            (IcyState { awaiting_size: false, size, awaiting_meta: true, ..s }, IcyEventView::Nothing)
        }
    } else if s.awaiting_meta {
        let metadata = s.metadata.push(b);
        let size: u8 = if s.size == 0 { 0 } else { (s.size - 1) as u8 };
        if size == 0 {
            (
                IcyState {
                    awaiting_meta: false,
                    size,
                    metadata: Seq::empty(),
                    counter: s.meta_interval,
                    ..s
                },
                match title_in_metadata(metadata) {
                    Some(t) => IcyEventView::Title(t),
                    None => IcyEventView::Nothing,
                },
            )
        } else {
            (IcyState { size, metadata, ..s }, IcyEventView::Nothing)
        }
    } else {
        let counter: usize = if s.counter == 0 { 0 } else { (s.counter - 1) as usize };
        (IcyState { counter, awaiting_size: counter == 0, ..s }, IcyEventView::Audio(b))
    }
}

/// A byte can be taken in state `s`: a length byte must be below 16, for its
/// block length `16 * L` to fit in a byte.
pub open spec fn step_ok(s: IcyState, b: u8) -> bool {
    s.awaiting_size ==> b < 16
}

/// Feeding a run of bytes one at a time: the final state and the events.
pub open spec fn run(s: IcyState, bytes: Seq<u8>) -> (IcyState, Seq<IcyEventView>)
    decreases bytes.len(),
{
    if bytes.len() == 0 {
        (s, Seq::empty())
    } else {
        let (s1, e) = step_spec(s, bytes[0]);
        let (s2, es) = run(s1, bytes.drop_first());
        (s2, seq![e] + es)
    }
}

/// Every byte of the run can be taken when it comes.
pub open spec fn run_ok(s: IcyState, bytes: Seq<u8>) -> bool
    decreases bytes.len(),
{
    bytes.len() == 0 || (step_ok(s, bytes[0]) && run_ok(step_spec(s, bytes[0]).0, bytes.drop_first()))
}

impl IcyDemuxer {
    /// A demultiplexer for a stream whose metadata interval is `meta_interval`.
    pub fn new(meta_interval: usize) -> (r: Self)
        ensures
            r@ == fresh_state(meta_interval),
    {
        IcyDemuxer {
            meta_interval,
            counter: meta_interval,
            awaiting_metadata_size: false,
            metadata_size: 0,
            awaiting_metadata: false,
            metadata: Vec::with_capacity(1024),
        }
    }

    /// Whether the next byte is read as a metadata length byte.
    pub fn awaiting_metadata_size(&self) -> (r: bool)
        ensures
            r == self@.awaiting_size,
    {
        self.awaiting_metadata_size
    }

    /// Takes the next byte of the stream.
    pub fn step(&mut self, byte: u8) -> (e: IcyEvent)
        requires
            step_ok(old(self)@, byte),
        ensures
            (final(self)@, e@) == step_spec(old(self)@, byte),
    {
        if self.awaiting_metadata_size {
            self.awaiting_metadata_size = false;
            self.metadata_size = byte * 16;
            if self.metadata_size == 0 {
                self.counter = self.meta_interval;
            } else {
                self.awaiting_metadata = true;
            }
            IcyEvent::Nothing
        } else if self.awaiting_metadata {
            self.metadata.push(byte);
            self.metadata_size = self.metadata_size.saturating_sub(1);
            if self.metadata_size == 0 {
                self.awaiting_metadata = false;
                let title = title_from_metadata(self.metadata.as_slice());
                self.metadata.clear();
                self.counter = self.meta_interval;
                match title {
                    Some(t) => IcyEvent::Title(t),
                    None => IcyEvent::Nothing,
                }
            } else {
                IcyEvent::Nothing
            }
        } else {
            self.counter = self.counter.saturating_sub(1);
            if self.counter == 0 {
                self.awaiting_metadata_size = true;
            }
            IcyEvent::Audio(byte)
        }
    }
}

/// However a stream is cut into chunks, feeding the pieces one after the other
/// ends in the same state and yields the same events, in the same order, as
/// feeding the whole; and every byte can be taken just when it can be in the
/// whole.
pub proof fn law_run_concat(s: IcyState, a: Seq<u8>, b: Seq<u8>)
    ensures
        run(s, a + b) == (run(run(s, a).0, b).0, run(s, a).1 + run(run(s, a).0, b).1),
        run_ok(s, a + b) == (run_ok(s, a) && run_ok(run(s, a).0, b)),
    decreases a.len(),
{
    if a.len() == 0 {
        assert(a + b =~= b);
        assert(run(s, a).1 + run(s, b).1 =~= run(s, b).1);
    } else {
        let s1 = step_spec(s, a[0]).0;
        let e = step_spec(s, a[0]).1;
        assert((a + b).drop_first() =~= a.drop_first() + b);
        assert((a + b)[0] == a[0]);
        law_run_concat(s1, a.drop_first(), b);
        let r1 = run(s1, a.drop_first());
        assert(seq![e] + (r1.1 + run(r1.0, b).1) =~= (seq![e] + r1.1) + run(r1.0, b).1);
    }
}


/// The events of a run of audio bytes.
pub open spec fn audio_events(bytes: Seq<u8>) -> Seq<IcyEventView> {
    Seq::new(bytes.len(), |i: int| IcyEventView::Audio(bytes[i]))
}

/// `k` events that yield nothing.
pub open spec fn quiet_events(k: nat) -> Seq<IcyEventView> {
    Seq::new(k, |i: int| IcyEventView::Nothing)
}

/// The event that completes a metadata block.
pub open spec fn block_event(block: Seq<u8>) -> IcyEventView {
    match title_in_metadata(block) {
        Some(t) => IcyEventView::Title(t),
        None => IcyEventView::Nothing,
    }
}

/// Between two metadata blocks, bytes are passed on as audio until the
/// interval is used up; then a length byte is awaited.
proof fn lemma_audio_run(s: IcyState, bytes: Seq<u8>)
    requires
        !s.awaiting_size,
        !s.awaiting_meta,
        s.counter == bytes.len(),
        bytes.len() >= 1,
    ensures
        run_ok(s, bytes),
        run(s, bytes) == (IcyState { counter: 0, awaiting_size: true, ..s }, audio_events(bytes)),
    decreases bytes.len(),
{
    let (s1, e) = step_spec(s, bytes[0]);
    let rest = bytes.drop_first();
    if bytes.len() == 1 {
        assert(run(s1, rest) == (s1, Seq::<IcyEventView>::empty()));
        assert(run_ok(s1, rest));
        assert(seq![e] + Seq::<IcyEventView>::empty() =~= audio_events(bytes));
    } else {
        lemma_audio_run(s1, rest);
        assert(seq![e] + audio_events(rest) =~= audio_events(bytes));
    }
}

/// Inside a metadata block the bytes are collected; the last one completes
/// the block, which yields its title, and the next interval begins.
proof fn lemma_block_run(s: IcyState, bytes: Seq<u8>)
    requires
        !s.awaiting_size,
        s.awaiting_meta,
        s.size == bytes.len(),
        bytes.len() >= 1,
    ensures
        run_ok(s, bytes),
        run(s, bytes) == (
            IcyState {
                counter: s.meta_interval,
                awaiting_size: false,
                size: 0,
                awaiting_meta: false,
                metadata: Seq::empty(),
                ..s
            },
            quiet_events((bytes.len() - 1) as nat).push(block_event(s.metadata + bytes)),
        ),
    decreases bytes.len(),
{
    let (s1, e) = step_spec(s, bytes[0]);
    let rest = bytes.drop_first();
    assert(s.metadata.push(bytes[0]) + rest =~= s.metadata + bytes);
    if bytes.len() == 1 {
        assert(s.metadata.push(bytes[0]) =~= s.metadata + bytes);
        assert(run(s1, rest) == (s1, Seq::<IcyEventView>::empty()));
        assert(run_ok(s1, rest));
        assert(seq![e] + Seq::<IcyEventView>::empty() =~= quiet_events(0).push(block_event(s.metadata + bytes)));
    } else {
        lemma_block_run(s1, rest);
        assert(seq![e] + quiet_events((rest.len() - 1) as nat).push(block_event(s1.metadata + rest))
            =~= quiet_events((bytes.len() - 1) as nat).push(block_event(s.metadata + bytes)));
    }
}

/// The ICY framing: from the start of an interval, `meta_interval` audio
/// bytes come out as audio, the length byte `L` and the `16 * L` bytes of the
/// metadata block yield nothing but the block's title at its last byte, and
/// the demultiplexer is back at the start of an interval.
pub proof fn law_icy_frame(n: usize, audio: Seq<u8>, len: u8, block: Seq<u8>)
    requires
        n >= 1,
        audio.len() == n,
        len < 16,
        block.len() == 16 * len,
    ensures
        run_ok(fresh_state(n), audio + seq![len] + block),
        run(fresh_state(n), audio + seq![len] + block) == (
            fresh_state(n),
            if len == 0 {
                audio_events(audio).push(IcyEventView::Nothing)
            } else {
                audio_events(audio).push(IcyEventView::Nothing) + quiet_events(
                    (block.len() - 1) as nat,
                ).push(block_event(block))
            },
        ),
{
    let s0 = fresh_state(n);
    lemma_audio_run(s0, audio);
    let s1 = run(s0, audio).0;
    law_run_concat(s0, audio, seq![len]);
    let (s2, e) = step_spec(s1, len);
    assert(run(s2, Seq::<u8>::empty()) == (s2, Seq::<IcyEventView>::empty()));
    assert(seq![len].drop_first() =~= Seq::<u8>::empty());
    assert(run(s1, seq![len]) == (s2, seq![e] + Seq::<IcyEventView>::empty()));
    assert(run_ok(s2, Seq::<u8>::empty()));
    assert(run_ok(s1, seq![len]));
    assert(seq![e] + Seq::<IcyEventView>::empty() =~= seq![IcyEventView::Nothing]);
    assert(audio_events(audio) + seq![IcyEventView::Nothing] =~= audio_events(audio).push(IcyEventView::Nothing));
    law_run_concat(s0, audio + seq![len], block);
    assert((len * 16) as u8 == 16 * len);
    if len == 0 {
        assert(block =~= Seq::<u8>::empty());
        assert(audio + seq![len] + block =~= audio + seq![len]);
        assert(s2 == s0);
        assert(run_ok(s2, block));
    } else {
        lemma_block_run(s2, block);
        assert(s2.metadata + block =~= block);
    }
}


/// Positions where `p` does not occur can be skipped in the search.
proof fn lemma_find_skip(x: Seq<char>, p: Seq<char>, i: int, k: int)
    requires
        0 <= i <= k,
        k + p.len() <= x.len(),
        forall|j: int| i <= j < k ==> #[trigger] x.subrange(j, j + p.len()) != p,
    ensures
        find_from(x, p, i) == find_from(x, p, k),
    decreases k - i,
{
    if i < k {
        lemma_find_skip(x, p, i + 1, k);
    }
}

/// A metadata text made of a prefix without any `S`, then `StreamTitle='`,
/// then a title `t` without quotes, then a quote, announces exactly `t`,
/// whatever its length and whatever follows.
pub proof fn law_title_between_quotes(pre: Seq<char>, t: Seq<char>, rest: Seq<char>)
    requires
        forall|i: int| 0 <= i < pre.len() ==> pre[i] != 'S',
        forall|i: int| 0 <= i < t.len() ==> t[i] != '\'',
    ensures
        title_in_text(pre + stream_title_key() + t + seq!['\''] + rest) == Some(t),
{
    let key = stream_title_key();
    let s = pre + key + t + seq!['\''] + rest;
    let p = pre.len() as int;
    assert forall|j: int| 0 <= j < p implies #[trigger] s.subrange(j, j + key.len()) != key by {
        assert(s.subrange(j, j + 13)[0] == pre[j]);
    }
    lemma_find_skip(s, key, 0, p);
    assert(s.subrange(p, p + 13) =~= key);
    assert(find_from(s, key, p) == Some(p));
    let r = s.subrange(p + 13, s.len() as int);
    assert(r =~= t + seq!['\''] + rest);
    let q = seq!['\''];
    assert forall|j: int| 0 <= j < t.len() implies #[trigger] r.subrange(j, j + q.len()) != q by {
        assert(r.subrange(j, j + 1)[0] == t[j]);
    }
    lemma_find_skip(r, q, 0, t.len() as int);
    assert(r.subrange(t.len() as int, t.len() as int + 1) =~= q);
    assert(find_from(r, q, t.len() as int) == Some(t.len() as int));
    assert(r.subrange(0, t.len() as int) =~= t);
}

/// A metadata block that is not valid UTF-8 announces no title; a valid one
/// announces what its text announces.
pub proof fn law_title_needs_utf8(bytes: Seq<u8>)
    ensures
        !valid_utf8(bytes) ==> title_in_metadata(bytes) is None,
        valid_utf8(bytes) ==> title_in_metadata(bytes) == title_in_text(decode_utf8(bytes)),
{
}

/// A text without `StreamTitle='` announces no title.
pub proof fn law_no_key_no_title(t: Seq<char>)
    requires
        forall|i: int| 0 <= i < t.len() ==> t[i] != 'S',
    ensures
        title_in_text(t) is None,
{
    let key = stream_title_key();
    if t.len() >= 13 {
        assert forall|j: int| 0 <= j <= t.len() - 13 implies #[trigger] t.subrange(j, j + key.len()) != key by {
            assert(t.subrange(j, j + 13)[0] == t[j]);
        }
        lemma_find_skip(t, key, 0, t.len() - 13);
        assert(t.subrange(t.len() - 13, t.len() as int)[0] == t[t.len() - 13]);
        assert(find_from(t, key, t.len() - 12) is None);
        assert(find_from(t, key, t.len() - 13) is None);
    }
    assert(find_from(t, key, 0) is None);
}

} // verus!
