use vstd::prelude::*;

use crate::meta::MetaData;
use crate::station::RadioStation;

verus! {

/// A row of the play history: which song played on which station, and when.
#[derive(Debug)]
pub struct History {
    pub id: i32,
    pub title: String,
    pub station: String,
    pub timestamp: String,
}

/// A play-history row to be inserted.
#[derive(Debug)]
pub struct NewHistory<'a> {
    pub title: &'a str,
    pub station: &'a str,
    pub timestamp: &'a str,
}

/// The history row to insert when `meta` announces a song on `station` at
/// `timestamp`, given the rows already recorded for that song title: a row
/// is added only for a song that has none yet.
pub fn history_entry<'a>(
    station: &'a RadioStation,
    meta: &'a MetaData,
    timestamp: &'a str,
    recorded: &Vec<History>,
) -> (r: Option<NewHistory<'a>>)
    ensures
        r is Some <==> recorded@.len() == 0,
        r matches Some(h) ==> h.station@ == station.title@ && h.title@ == meta.title@
            && h.timestamp@ == timestamp@,
{
    if recorded.len() == 0 {
        Some(NewHistory { station: station.title(), title: meta.title(), timestamp })
    } else {
        None
    }
}

} // verus!
