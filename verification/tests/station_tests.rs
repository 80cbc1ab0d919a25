use radio::station::{RadioStation, RadioStationList};

fn sample_list() -> RadioStationList {
    let mut l = RadioStationList { list: vec![] };
    l.add(RadioStation::new("A", "http://a"));
    l.add(RadioStation::new("B", "http://b"));
    l.add(RadioStation::new("A", "http://a2"));
    l
}

#[test]
fn station_accessors() {
    let s = RadioStation::new("FM4", "http://orf-live.ors-shoutcast.at/fm4-q2a");
    assert_eq!(s.title(), "FM4");
    assert_eq!(s.url(), "http://orf-live.ors-shoutcast.at/fm4-q2a");
}

#[test]
fn stations_are_equal_by_title() {
    assert!(RadioStation::new("X", "http://1") == RadioStation::new("X", "http://2"));
    assert!(RadioStation::new("X", "http://1") != RadioStation::new("Y", "http://1"));
}

#[test]
fn add_appends() {
    let l = sample_list();
    assert_eq!(l.list.len(), 3);
    assert_eq!(l.list[1].title(), "B");
}

#[test]
fn get_finds_first_station_with_title() {
    let l = sample_list();
    let s = l.get("A").unwrap();
    assert_eq!(s.url(), "http://a");
    assert_eq!(l.get("B").unwrap().url(), "http://b");
    assert!(l.get("C").is_none());
    assert!(l.get("").is_none());
}

#[test]
fn title_position_finds_first() {
    let l = sample_list();
    assert_eq!(l.title_position("A"), Some(0));
    assert_eq!(l.title_position("B"), Some(1));
    assert_eq!(l.title_position("Z"), None);
}

#[test]
fn get_at_index_in_and_out_of_range() {
    let l = sample_list();
    assert_eq!(l.get_at_index(2).unwrap().url(), "http://a2");
    assert!(l.get_at_index(3).is_none());
    assert!(l.get_at_index(usize::MAX).is_none());
}

#[test]
fn get_random_picks_a_station_of_the_list() {
    let l = sample_list();
    for _ in 0..50 {
        let s = l.get_random().unwrap();
        assert!(l.list.iter().any(|t| t.title() == s.title() && t.url() == s.url()));
    }
    let empty = RadioStationList { list: vec![] };
    assert!(empty.get_random().is_none());
}

#[test]
fn random_choice_reaches_every_station() {
    let l = sample_list();
    let mut seen = [false; 3];
    for _ in 0..500 {
        let s = l.get_random().unwrap();
        let i = l.list.iter().position(|t| t.url() == s.url()).unwrap();
        seen[i] = true;
    }
    assert!(seen.iter().all(|b| *b));
}

#[test]
fn clone_keeps_the_stations() {
    let l = sample_list();
    let c = l.clone();
    assert_eq!(c.list.len(), 3);
    assert_eq!(c.list[2].url(), "http://a2");
}
