use vstd::prelude::*;
use vstd::std_specs::cmp::PartialEqSpecImpl;
use rand::Rng;

use crate::text::str_equal;

verus! {

/// A radio station: a display title and the URL of its stream.
#[derive(Debug)]
pub struct RadioStation {
    pub url: String,
    pub title: String,
}

impl RadioStation {
    pub fn new(title: &str, url: &str) -> (r: Self)
        ensures
            r.title@ == title@,
            r.url@ == url@,
    {
        RadioStation { url: url.to_owned(), title: title.to_owned() }
    }

    pub fn title(&self) -> (r: &str)
        ensures
            r@ == self.title@,
    {
        self.title.as_str()
    }

    pub fn url(&self) -> (r: &str)
        ensures
            r@ == self.url@,
    {
        self.url.as_str()
    }
}

impl Clone for RadioStation {
    fn clone(&self) -> (r: Self)
        ensures
            r == *self,
    {
        RadioStation { url: self.url.clone(), title: self.title.clone() }
    }
}

/// Two stations are the same station when their titles agree.
impl PartialEq for RadioStation {
    fn eq(&self, other: &Self) -> (r: bool) {
        self.title == other.title
    }
}

impl PartialEqSpecImpl for RadioStation {
    open spec fn obeys_eq_spec() -> bool {
        true
    }

    open spec fn eq_spec(&self, other: &Self) -> bool {
        self.title@ == other.title@
    }
}

/// The position of the first station at or after `i` whose title is `t`.
pub open spec fn title_index_from(s: Seq<RadioStation>, t: Seq<char>, i: int) -> Option<int>
    decreases s.len() - i,
{
    if i < 0 || i >= s.len() {
        None
    } else if s[i].title@ == t {
        Some(i)
    } else {
        title_index_from(s, t, i + 1)
    }
}

/// The position of the first station in `s` whose title is `t`.
pub open spec fn title_index(s: Seq<RadioStation>, t: Seq<char>) -> Option<int> {
    title_index_from(s, t, 0)
}

/// A found position holds the title, and no earlier station does.
pub proof fn lemma_title_index_from(s: Seq<RadioStation>, t: Seq<char>, i: int)
    requires
        0 <= i,
    ensures
        title_index_from(s, t, i) matches Some(k) ==> i <= k < s.len() && s[k].title@ == t
            && forall|j: int| i <= j < k ==> s[j].title@ != t,
        title_index_from(s, t, i) is None ==> forall|j: int| i <= j < s.len() ==> s[j].title@ != t,
    decreases s.len() - i,
{
    if i < s.len() && s[i].title@ != t {
        lemma_title_index_from(s, t, i + 1);
    }
}

/// The first station of `s` titled `t`, when there is one.
pub open spec fn station_titled(s: Seq<RadioStation>, t: Seq<char>) -> Option<RadioStation> {
    match title_index(s, t) {
        Some(i) => Some(s[i]),
        None => None,
    }
}

/// An index drawn at random from `0..len`.
///
/// Calls `rand::thread_rng().gen_range(0..len)`; what is promised is only that
/// the index lies in the range, which holds of every outcome. `gen_range`
/// panics on an empty range, so `len` must be positive.
#[verifier::external_body]
fn random_index(len: usize) -> (r: usize)
    requires
        len > 0,
    ensures
        r < len,
{
    rand::thread_rng().gen_range(0..len)
}

/// The list of stations the player offers, in display order.
#[derive(Debug)]
pub struct RadioStationList {
    pub list: Vec<RadioStation>,
}

impl Clone for RadioStationList {
    fn clone(&self) -> (r: Self)
        ensures
            r.list@ == self.list@,
    {
        let mut list: Vec<RadioStation> = Vec::new();
        let mut i: usize = 0;
        while i < self.list.len()
            invariant
                i <= self.list.len(),
                list@ == self.list@.subrange(0, i as int),
            decreases self.list.len() - i,
        {
            list.push(self.list[i].clone());
            i = i + 1;
            assert(list@ =~= self.list@.subrange(0, i as int));
        }
        assert(self.list@.subrange(0, i as int) =~= self.list@);
        RadioStationList { list }
    }
}

impl RadioStationList {
    pub fn add(&mut self, station: RadioStation)
        ensures
            final(self).list@ == old(self).list@.push(station),
    {
        self.list.push(station);
    }

    /// The position of the first station titled `title`.
    pub fn title_position(&self, title: &str) -> (r: Option<usize>)
        ensures
            r matches Some(i) ==> title_index(self.list@, title@) == Some(i as int),
            r is None ==> title_index(self.list@, title@) is None,
    {
        let mut i: usize = 0;
        while i < self.list.len()
            invariant
                i <= self.list.len(),
                title_index(self.list@, title@) == title_index_from(self.list@, title@, i as int),
            decreases self.list.len() - i,
        {
            if str_equal(self.list[i].title.as_str(), title) {
                return Some(i);
            }
            i = i + 1;
        }
        None
    }

    /// The first station titled `name`, when there is one.
    pub fn get(&self, name: &str) -> (r: Option<RadioStation>)
        ensures
            r == station_titled(self.list@, name@),
    {
        proof {
            lemma_title_index_from(self.list@, name@, 0);
        }
        match self.title_position(name) {
            Some(i) => Some(self.list[i].clone()),
            None => None,
        }
    }

    /// The station at `index`, when the list is that long.
    pub fn get_at_index(&self, index: usize) -> (r: Option<RadioStation>)
        ensures
            r == (if index < self.list@.len() {
                Some(self.list@[index as int])
            } else {
                None
            }),
    {
        if index < self.list.len() {
            return Some(self.list[index].clone());
        }
        None
    }

    /// A station chosen at random; `None` only for an empty list.
    pub fn get_random(&self) -> (r: Option<RadioStation>)
        ensures
            r is None <==> self.list@.len() == 0,
            r matches Some(s) ==> exists|i: int| 0 <= i < self.list@.len() && s == self.list@[i],
    {
        if self.list.len() != 0 {
            let i = random_index(self.list.len());
            return self.get_at_index(i);
        }
        None
    }
}


/// Every title present in the list is found: the station returned carries that
/// title and is the first station of the list with it.
pub proof fn law_station_titled_present(s: Seq<RadioStation>, k: int)
    requires
        0 <= k < s.len(),
    ensures
        station_titled(s, s[k].title@) matches Some(st) && st.title@ == s[k].title@ && exists|j: int|
            0 <= j <= k && st == s[j] && forall|m: int| 0 <= m < j ==> s[m].title@ != s[k].title@,
{
    lemma_title_index_from(s, s[k].title@, 0);
    let j = title_index(s, s[k].title@).unwrap();
    assert(j <= k);
}

/// A title is found exactly when some station carries it, and what is found
/// is a station of the list with that title.
pub proof fn law_station_titled_sound(s: Seq<RadioStation>, t: Seq<char>)
    ensures
        station_titled(s, t) is Some <==> exists|i: int| 0 <= i < s.len() && s[i].title@ == t,
        station_titled(s, t) matches Some(st) ==> st.title@ == t && exists|i: int|
            0 <= i < s.len() && s[i] == st,
{
    lemma_title_index_from(s, t, 0);
    if exists|i: int| 0 <= i < s.len() && s[i].title@ == t {
        let k = choose|i: int| 0 <= i < s.len() && s[i].title@ == t;
        law_station_titled_present(s, k);
    }
}

} // verus!
