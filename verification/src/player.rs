use vstd::prelude::*;

use crate::meta::{MetaData, MetaDataView, decoder_config_view, empty_meta, merge_view};
use crate::station::{
    RadioStation,
    RadioStationList,
    lemma_title_index_from,
    title_index,
};

verus! {

/// A command for the stream download task.
#[derive(Clone, Copy, Debug, PartialEq, Eq, Structural)]
pub enum Action {
    Start,
    Pause,
    Resume,
    Quit,
}

impl Action {
    pub fn new_quit() -> (r: Self)
        ensures
            r == Action::Quit,
    {
        Self::Quit
    }
}

/// A key press, as far as the player tells keys apart.
#[derive(Clone, Copy, Debug, PartialEq, Eq, Structural)]
pub enum Key {
    Up,
    Down,
    Enter,
    Char(char),
    Other,
}

/// What the player asks its surroundings to do after a key press.
#[derive(Debug)]
pub enum KeyCommand {
    /// Nothing beyond the state change already made.
    Nothing,
    /// Stop the download and the sound output, then play this station.
    Play(RadioStation),
    /// Stop the download and the sound output.
    Pause,
    /// Stop the download and the sound output, and leave.
    Quit,
}

/// Keys that (re)start playing the current station.
pub open spec fn is_play_key(k: Key) -> bool {
    k == Key::Enter || k == Key::Char('s') || k == Key::Char('r')
}

/// The model of an optional string.
pub open spec fn opt_chars(o: Option<String>) -> Option<Seq<char>> {
    match o {
        Some(s) => Some(s@),
        None => None,
    }
}

/// The model of optional metadata.
pub open spec fn opt_meta(o: Option<MetaData>) -> Option<MetaDataView> {
    match o {
        Some(m) => Some(m@),
        None => None,
    }
}

/// The position in `list` of the station `cur`, found by title.
pub open spec fn station_index_in(list: Seq<RadioStation>, cur: Option<RadioStation>) -> Option<int> {
    match cur {
        Some(s) => title_index(list, s.title@),
        None => None,
    }
}

/// The station that "next" selects: the one after the current one, staying at
/// the last; the first one when no station is current or the current one is
/// not in the list.
pub open spec fn next_station_spec(list: Seq<RadioStation>, cur: Option<RadioStation>) -> RadioStation {
    match station_index_in(list, cur) {
        None => list[0],
        Some(i) => if i + 1 < list.len() { list[i + 1] } else { list[list.len() - 1] },
    }
}

/// The station that "previous" selects: the one before the current one,
/// staying at the first; the first one when no station is current or the
/// current one is not in the list.
pub open spec fn prev_station_spec(list: Seq<RadioStation>, cur: Option<RadioStation>) -> RadioStation {
    match station_index_in(list, cur) {
        None => list[0],
        Some(i) => if i == 0 { list[0] } else { list[i - 1] },
    }
}

/// No two stations of the list share a title.
pub open spec fn distinct_titles(list: Seq<RadioStation>) -> bool {
    forall|i: int, j: int| 0 <= i < j < list.len() ==> list[i].title@ != list[j].title@
}

/// The text of the "now playing" box: the song title and the decoder line.
pub open spec fn now_playing_spec(meta: Option<MetaDataView>) -> Seq<char> {
    match meta {
        Some(m) => m.title + seq!['\n'] + decoder_config_view(m),
        None => Seq::empty(),
    }
}

/// The status line after an attempt to play: empty on success, the reason
/// otherwise.
pub open spec fn play_status_spec(result: Result<(), Seq<char>>) -> Option<Seq<char>> {
    match result {
        Ok(()) => None,
        Err(e) => Some(
            seq!['C', 'r', 'e', 'a', 't', 'e', ' ', 's', 't', 'r', 'e', 'a', 'm', ' ', 'f', 'a', 'i', 'l', 'e', 'd', ' ']
                + e,
        ),
    }
}

/// The status line while paused.
pub open spec fn paused() -> Seq<char> {
    seq!['P', 'a', 'u', 's', 'e', 'd']
}

/// The state of the player: the station list, the station selected, what is
/// known of the stream playing, and the status line.
#[derive(Debug)]
pub struct App {
    pub station_list: RadioStationList,
    current_station: Option<RadioStation>,
    current_meta: Option<MetaData>,
    current_status: Option<String>,
}

impl Clone for App {
    fn clone(&self) -> (r: Self)
        ensures
            r.stations() == self.stations(),
            r.station() == self.station(),
            r.meta() == self.meta(),
            r.status() == self.status(),
    {
        App {
            station_list: self.station_list.clone(),
            current_station: self.current_station(),
            current_meta: self.current_meta(),
            current_status: self.current_status(),
        }
    }
}

impl App {
    /// The station selected.
    pub closed spec fn station(&self) -> Option<RadioStation> {
        self.current_station
    }

    /// What is known of the stream playing.
    pub closed spec fn meta(&self) -> Option<MetaDataView> {
        opt_meta(self.current_meta)
    }

    /// The status line.
    pub closed spec fn status(&self) -> Option<Seq<char>> {
        opt_chars(self.current_status)
    }

    /// The stations of the list.
    pub closed spec fn stations(&self) -> Seq<RadioStation> {
        self.station_list.list@
    }

    /// The position of the selected station in the list.
    pub open spec fn station_index(&self) -> Option<int> {
        station_index_in(self.stations(), self.station())
    }

    /// The player with its five stations, nothing selected and nothing known.
    pub fn init() -> (r: Self)
        ensures
            r.stations().len() == 5,
            r.stations()[0].title@ == "FM4"@,
            r.stations()[0].url@ == "http://orf-live.ors-shoutcast.at/fm4-q2a"@,
            r.stations()[1].title@ == "MetalRock.FM"@,
            r.stations()[1].url@ == "http://cheetah.streemlion.com:2160/stream"@,
            r.stations()[2].title@ == "Terry Callaghan's Classic Alternative Channel"@,
            r.stations()[2].url@ == "http://s16.myradiostream.com:7304"@,
            r.stations()[3].title@ == "OE3"@,
            r.stations()[3].url@ == "http://orf-live.ors-shoutcast.at/oe3-q2a"@,
            r.stations()[4].title@ == "local"@,
            r.stations()[4].url@ == "http://192.168.1.70:8001/stream"@,
            distinct_titles(r.stations()),
            r.station() is None,
            r.meta() is None,
            r.status() is None,
    {
        proof {
            reveal_strlit("FM4");
            reveal_strlit("MetalRock.FM");
            reveal_strlit("Terry Callaghan's Classic Alternative Channel");
            reveal_strlit("OE3");
            reveal_strlit("local");
        }
        let mut station_list = RadioStationList { list: Vec::new() };
        station_list.add(RadioStation::new("FM4", "http://orf-live.ors-shoutcast.at/fm4-q2a"));
        station_list.add(
            RadioStation::new("MetalRock.FM", "http://cheetah.streemlion.com:2160/stream"),
        );
        station_list.add(
            RadioStation::new(
                "Terry Callaghan's Classic Alternative Channel",
                "http://s16.myradiostream.com:7304",
            ),
        );
        station_list.add(RadioStation::new("OE3", "http://orf-live.ors-shoutcast.at/oe3-q2a"));
        station_list.add(RadioStation::new("local", "http://192.168.1.70:8001/stream"));

        let r = Self { station_list, current_station: None, current_meta: None, current_status: None };
        assert(r.stations()[0].title@[1] == 'M');
        assert(r.stations()[1].title@[0] == 'M');
        assert(r.stations()[2].title@[0] == 'T');
        assert(r.stations()[3].title@[0] == 'O');
        assert(r.stations()[3].title@[1] == 'E');
        assert(r.stations()[4].title@[0] == 'l');
        r
    }

    pub fn set_current_station(&mut self, radio_station: RadioStation)
        ensures
            final(self).station() == Some(radio_station),
            final(self).stations() == old(self).stations(),
            final(self).meta() == old(self).meta(),
            final(self).status() == old(self).status(),
    {
        self.current_station = Some(radio_station.clone());
    }

    /// Selects the station at `index`; the list must be that long.
    pub fn set_current_station_index(&mut self, index: usize)
        requires
            index < old(self).stations().len(),
        ensures
            final(self).station() == Some(old(self).stations()[index as int]),
            final(self).stations() == old(self).stations(),
            final(self).meta() == old(self).meta(),
            final(self).status() == old(self).status(),
    {
        let station = self.station_list.get_at_index(index);
        self.set_current_station(station.unwrap());
    }

    /// Selects a station at random; nothing is selected when the list is empty.
    pub fn set_random_station(&mut self)
        ensures
            final(self).station() is None <==> old(self).stations().len() == 0,
            final(self).station() matches Some(s) ==> exists|i: int|
                0 <= i < old(self).stations().len() && s == old(self).stations()[i],
            final(self).stations() == old(self).stations(),
            final(self).meta() == old(self).meta(),
            final(self).status() == old(self).status(),
    {
        self.current_station = self.station_list.get_random();
    }

    /// Selects the station after the current one (see [`next_station_spec`]).
    pub fn set_next_station(&mut self)
        requires
            old(self).stations().len() > 0,
        ensures
            final(self).station() == Some(next_station_spec(old(self).stations(), old(self).station())),
            final(self).stations() == old(self).stations(),
            final(self).meta() == old(self).meta(),
            final(self).status() == old(self).status(),
    {
        let current_index = self.current_station_index();
        if current_index.is_none() {
            let first = self.station_list.list[0].clone();
            self.set_current_station(first)
        } else {
            let i = current_index.unwrap();
            let last = self.station_list.list.len() - 1;
            let next_index = if i + 1 < last { i + 1 } else { last };
            let station = self.station_list.get_at_index(next_index);
            self.set_current_station(station.unwrap());
        }
    }

    /// Selects the station before the current one (see [`prev_station_spec`]).
    pub fn set_prev_station(&mut self)
        requires
            old(self).stations().len() > 0,
        ensures
            final(self).station() == Some(prev_station_spec(old(self).stations(), old(self).station())),
            final(self).stations() == old(self).stations(),
            final(self).meta() == old(self).meta(),
            final(self).status() == old(self).status(),
    {
        let current_index = self.current_station_index();
        if current_index.is_none() {
            let first = self.station_list.list[0].clone();
            self.set_current_station(first)
        } else {
            let prev_index = current_index.unwrap().saturating_sub(1);
            let station = self.station_list.get_at_index(prev_index);
            self.set_current_station(station.unwrap());
        }
    }

    /// The station list, as the public field holds it.
    pub fn stations_list(&self) -> (r: &RadioStationList)
        ensures
            r.list@ == self.stations(),
    {
        &self.station_list
    }

    pub fn current_station(&self) -> (r: Option<RadioStation>)
        ensures
            r == self.station(),
    {
        match &self.current_station {
            Some(s) => Some(s.clone()),
            None => None,
        }
    }

    /// The position of the selected station in the list, found by title.
    pub fn current_station_index(&self) -> (r: Option<usize>)
        ensures
            r matches Some(i) ==> station_index_in(self.stations(), self.station()) == Some(i as int)
                && i < self.stations().len(),
            r is None ==> station_index_in(self.stations(), self.station()) is None,
    {
        match &self.current_station {
            Some(s) => {
                proof {
                    lemma_title_index_from(self.stations(), s.title@, 0);
                }
                self.station_list.title_position(s.title.as_str())
            },
            None => None,
        }
    }

    /// Folds newly arrived metadata into what is known of the stream; there
    /// must be metadata already (it is reset when a station starts playing).
    pub fn set_current_meta(&mut self, meta: &MetaData)
        requires
            old(self).meta() is Some,
        ensures
            final(self).meta() == Some(merge_view(old(self).meta().unwrap(), meta@)),
            final(self).station() == old(self).station(),
            final(self).stations() == old(self).stations(),
            final(self).status() == old(self).status(),
    {
        let mut current = self.current_meta().unwrap();
        let merged_meta = current.merge(meta);
        self.current_meta = Some(merged_meta);
    }

    pub fn current_meta(&self) -> (r: Option<MetaData>)
        ensures
            opt_meta(r) == self.meta(),
    {
        match &self.current_meta {
            Some(m) => Some(m.clone()),
            None => None,
        }
    }

    /// Forgets what was known of the stream: nothing is known any more.
    pub fn clear_current_meta(&mut self)
        ensures
            final(self).meta() == Some(empty_meta()),
            final(self).station() == old(self).station(),
            final(self).stations() == old(self).stations(),
            final(self).status() == old(self).status(),
    {
        self.current_meta = Some(MetaData::default());
    }

    pub fn set_current_status(&mut self, status: Option<String>)
        ensures
            final(self).status() == opt_chars(status),
            final(self).station() == old(self).station(),
            final(self).stations() == old(self).stations(),
            final(self).meta() == old(self).meta(),
    {
        self.current_status = status;
    }

    pub fn current_status(&self) -> (r: Option<String>)
        ensures
            opt_chars(r) == self.status(),
    {
        match &self.current_status {
            Some(s) => Some(s.clone()),
            None => None,
        }
    }

    /// Reacts to a key press: Up and Down move the selection, Enter, `s` and
    /// `r` restart playing the selected station with nothing known of it yet,
    /// `p` pauses, `q` quits; other keys do nothing.
    pub fn on_key(&mut self, key: Key) -> (r: KeyCommand)
        requires
            key == Key::Up || key == Key::Down ==> old(self).stations().len() > 0,
            is_play_key(key) ==> old(self).station() is Some,
        ensures
            final(self).stations() == old(self).stations(),
            key == Key::Up ==> r is Nothing && final(self).station() == Some(
                prev_station_spec(old(self).stations(), old(self).station()),
            ) && final(self).meta() == old(self).meta() && final(self).status() == old(self).status(),
            key == Key::Down ==> r is Nothing && final(self).station() == Some(
                next_station_spec(old(self).stations(), old(self).station()),
            ) && final(self).meta() == old(self).meta() && final(self).status() == old(self).status(),
            is_play_key(key) ==> r == KeyCommand::Play(old(self).station().unwrap()) && final(self).meta()
                == Some(empty_meta()) && final(self).station() == old(self).station()
                && final(self).status() == old(self).status(),
            key == Key::Char('p') ==> r is Pause && final(self).status() == Some(paused())
                && final(self).station() == old(self).station() && final(self).meta() == old(self).meta(),
            key == Key::Char('q') ==> r is Quit && final(self).station() == old(self).station()
                && final(self).meta() == old(self).meta() && final(self).status() == old(self).status(),
            !(key == Key::Up || key == Key::Down || is_play_key(key) || key == Key::Char('p') || key
                == Key::Char('q')) ==> r is Nothing && final(self).station() == old(self).station()
                && final(self).meta() == old(self).meta() && final(self).status() == old(self).status(),
    {
        match key {
            Key::Up => {
                self.set_prev_station();
                KeyCommand::Nothing
            },
            Key::Down => {
                self.set_next_station();
                KeyCommand::Nothing
            },
            Key::Enter | Key::Char('s') | Key::Char('r') => {
                self.clear_current_meta();
                KeyCommand::Play(self.current_station().unwrap())
            },
            Key::Char('p') => {
                proof {
                    reveal_strlit("Paused");
                }
                let status = "Paused".to_owned();
                assert(status@ =~= paused());
                self.set_current_status(Some(status));
                KeyCommand::Pause
            },
            Key::Char('q') => KeyCommand::Quit,
            _ => KeyCommand::Nothing,
        }
    }

    /// Records how an attempt to play went: the status line is cleared on
    /// success and tells why otherwise.
    pub fn on_play_result(&mut self, result: Result<(), String>)
        ensures
            final(self).status() == play_status_spec(
                match result {
                    Ok(()) => Ok(()),
                    Err(e) => Err(e@),
                },
            ),
            final(self).station() == old(self).station(),
            final(self).stations() == old(self).stations(),
            final(self).meta() == old(self).meta(),
    {
        match result {
            Ok(()) => {
                self.set_current_status(None);
            },
            Err(e) => {
                proof {
                    reveal_strlit("Create stream failed ");
                }
                let prefix = "Create stream failed ";
                let msg = prefix.to_owned().concat(e.as_str());
                assert(msg@ =~= play_status_spec(Err(e@)).unwrap());
                self.set_current_status(Some(msg));
            },
        }
    }

    /// Takes metadata that arrived from the stream: it is folded into what is
    /// known, and when it names a song, the selected station and the metadata
    /// are returned for the play history.
    pub fn on_meta(&mut self, meta: MetaData) -> (r: Option<(RadioStation, MetaData)>)
        requires
            old(self).meta() is Some,
            meta.title@.len() > 0 ==> old(self).station() is Some,
        ensures
            final(self).meta() == Some(merge_view(old(self).meta().unwrap(), meta@)),
            final(self).station() == old(self).station(),
            final(self).stations() == old(self).stations(),
            final(self).status() == old(self).status(),
            r is Some <==> meta.title@.len() > 0,
            r matches Some(p) ==> p.0 == old(self).station().unwrap() && p.1 == meta,
    {
        self.set_current_meta(&meta);
        if !meta.title.as_str().is_empty() {
            return Some((self.current_station().unwrap(), meta));
        }
        None
    }

    /// The text of the "now playing" box.
    pub fn now_playing_text(&self) -> (r: String)
        ensures
            r@ == now_playing_spec(self.meta()),
    {
        match &self.current_meta {
            Some(cm) => {
                proof {
                    reveal_strlit("\n");
                }
                let config = cm.decoder_config();
                let r = cm.title().to_owned().concat("\n").concat(config.as_str());
                assert(r@ =~= now_playing_spec(self.meta()));
                r
            },
            None => String::new(),
        }
    }

    /// The text of the status line.
    pub fn status_text(&self) -> (r: String)
        ensures
            r@ == match self.status() {
                Some(s) => s,
                None => Seq::empty(),
            },
    {
        match &self.current_status {
            Some(s) => s.clone(),
            None => String::new(),
        }
    }
}

/// With distinct titles, looking a station of the list up by its title finds
/// its own position.
pub proof fn law_title_index_distinct(list: Seq<RadioStation>, k: int)
    requires
        distinct_titles(list),
        0 <= k < list.len(),
    ensures
        title_index(list, list[k].title@) == Some(k),
        station_index_in(list, Some(list[k])) == Some(k),
{
    lemma_title_index_from(list, list[k].title@, 0);
    match title_index(list, list[k].title@) {
        Some(j) => {
            if j < k {
                assert(list[j].title@ != list[k].title@);
            }
        },
        None => {},
    }
}

/// "Next" after "previous" comes back to the station one started from,
/// unless that was the first; titles must be distinct.
pub proof fn law_prev_then_next(list: Seq<RadioStation>, i: int)
    requires
        distinct_titles(list),
        0 < i < list.len(),
    ensures
        next_station_spec(list, Some(prev_station_spec(list, Some(list[i])))) == list[i],
{
    law_title_index_distinct(list, i);
    law_title_index_distinct(list, i - 1);
}

/// "Previous" after "next" comes back to the station one started from,
/// unless that was the last; titles must be distinct.
pub proof fn law_next_then_prev(list: Seq<RadioStation>, i: int)
    requires
        distinct_titles(list),
        0 <= i < list.len() - 1,
    ensures
        prev_station_spec(list, Some(next_station_spec(list, Some(list[i])))) == list[i],
{
    law_title_index_distinct(list, i);
    law_title_index_distinct(list, i + 1);
}

/// The selection stops at the ends of the list: "next" keeps the last station
/// and "previous" the first; titles must be distinct.
pub proof fn law_navigation_bounds(list: Seq<RadioStation>)
    requires
        distinct_titles(list),
        list.len() > 0,
    ensures
        next_station_spec(list, Some(list[list.len() - 1])) == list[list.len() - 1],
        prev_station_spec(list, Some(list[0])) == list[0],
{
    law_title_index_distinct(list, list.len() - 1);
    law_title_index_distinct(list, 0);
}

/// With nothing selected, both "next" and "previous" select the first station.
pub proof fn law_navigation_from_nothing(list: Seq<RadioStation>)
    requires
        list.len() > 0,
    ensures
        next_station_spec(list, None) == list[0],
        prev_station_spec(list, None) == list[0],
{
}

/// "Next" and "previous" always select a station of the list.
pub proof fn law_navigation_stays_in_list(list: Seq<RadioStation>, cur: Option<RadioStation>)
    requires
        list.len() > 0,
    ensures
        exists|i: int| 0 <= i < list.len() && next_station_spec(list, cur) == list[i],
        exists|i: int| 0 <= i < list.len() && prev_station_spec(list, cur) == list[i],
{
    match cur {
        Some(s) => lemma_title_index_from(list, s.title@, 0),
        None => {},
    }
    match station_index_in(list, cur) {
        None => {
            assert(next_station_spec(list, cur) == list[0]);
            assert(prev_station_spec(list, cur) == list[0]);
        },
        Some(i) => {
            if i + 1 < list.len() {
                assert(next_station_spec(list, cur) == list[i + 1]);
            } else {
                assert(next_station_spec(list, cur) == list[list.len() - 1]);
            }
            if i == 0 {
                assert(prev_station_spec(list, cur) == list[0]);
            } else {
                assert(prev_station_spec(list, cur) == list[i - 1]);
            }
        },
    }
}

/// On the player: with distinct titles and station `i` selected (found by
/// title), "next" then "previous" selects station `i` again, unless `i` is the
/// last; the selection is then found at `i` again.
pub proof fn law_app_next_then_prev(a: App, i: int)
    requires
        distinct_titles(a.stations()),
        a.station_index() == Some(i),
        i + 1 < a.stations().len(),
    ensures
        ({
            let list = a.stations();
            let back = prev_station_spec(list, Some(next_station_spec(list, a.station())));
            back == list[i] && station_index_in(list, Some(back)) == Some(i)
        }),
{
    let list = a.stations();
    lemma_title_index_from(list, a.station().unwrap().title@, 0);
    law_title_index_distinct(list, i);
    law_title_index_distinct(list, i + 1);
}

/// On the player: with distinct titles and station `i` selected (found by
/// title), "previous" then "next" selects station `i` again, unless `i` is the
/// first; the selection is then found at `i` again.
pub proof fn law_app_prev_then_next(a: App, i: int)
    requires
        distinct_titles(a.stations()),
        a.station_index() == Some(i),
        0 < i < a.stations().len(),
    ensures
        ({
            let list = a.stations();
            let back = next_station_spec(list, Some(prev_station_spec(list, a.station())));
            back == list[i] && station_index_in(list, Some(back)) == Some(i)
        }),
{
    let list = a.stations();
    lemma_title_index_from(list, a.station().unwrap().title@, 0);
    law_title_index_distinct(list, i);
    law_title_index_distinct(list, i - 1);
}

/// On the player: selecting station `i` by index makes the selection found at
/// `i`, when titles are distinct.
pub proof fn law_app_select_index(list: Seq<RadioStation>, i: int)
    requires
        distinct_titles(list),
        0 <= i < list.len(),
    ensures
        station_index_in(list, Some(list[i])) == Some(i),
{
    law_title_index_distinct(list, i);
}


/// The "now playing" text is the song title, whatever else is known, then a
/// line break, then the decoder line; nothing is shown without metadata.
pub proof fn law_now_playing_layout(m: MetaDataView)
    ensures
        ({
            let s = now_playing_spec(Some(m));
            let n = m.title.len() as int;
            &&& s.len() == n + 1 + decoder_config_view(m).len()
            &&& s.subrange(0, n) == m.title
            &&& s[n] == '\n'
            &&& s.subrange(n + 1, s.len() as int) == decoder_config_view(m)
        }),
        now_playing_spec(None) == Seq::<char>::empty(),
{
    let s = now_playing_spec(Some(m));
    let n = m.title.len() as int;
    assert(s.subrange(0, n) =~= m.title);
    assert(s.subrange(n + 1, s.len() as int) =~= decoder_config_view(m));
}


/// With distinct titles, "next" moves the selection one station forward and
/// "previous" one station back, within the list.
pub proof fn law_navigation_step(list: Seq<RadioStation>, i: int)
    requires
        distinct_titles(list),
        0 <= i < list.len(),
    ensures
        i + 1 < list.len() ==> station_index_in(list, Some(next_station_spec(list, Some(list[i]))))
            == Some(i + 1),
        0 < i ==> station_index_in(list, Some(prev_station_spec(list, Some(list[i])))) == Some(i - 1),
{
    law_title_index_distinct(list, i);
    if i + 1 < list.len() {
        law_title_index_distinct(list, i + 1);
    }
    if 0 < i {
        law_title_index_distinct(list, i - 1);
    }
}

} // verus!
