use radio::meta::MetaData;
use radio::player::{Action, App, Key, KeyCommand};
use radio::station::RadioStation;

fn title(app: &App) -> String {
    app.current_station().unwrap().title().to_string()
}

#[test]
fn new_quit_is_quit() {
    assert_eq!(Action::new_quit(), Action::Quit);
}

#[test]
fn init_has_five_stations_and_nothing_selected() {
    let app = App::init();
    let titles: Vec<&str> = app.station_list.list.iter().map(|s| s.title()).collect();
    assert_eq!(titles, vec!["FM4", "MetalRock.FM", "Terry Callaghan's Classic Alternative Channel", "OE3", "local"]);
    assert_eq!(app.station_list.list[4].url(), "http://192.168.1.70:8001/stream");
    assert!(app.current_station().is_none());
    assert!(app.current_station_index().is_none());
    assert!(app.current_meta().is_none());
    assert!(app.current_status().is_none());
}

#[test]
fn select_by_index_and_find_index() {
    let mut app = App::init();
    for i in 0..5 {
        app.set_current_station_index(i);
        assert_eq!(app.current_station_index(), Some(i));
    }
    assert_eq!(title(&app), "local");
}

#[test]
fn next_and_prev_stop_at_the_ends() {
    let mut app = App::init();
    app.set_next_station();
    assert_eq!(app.current_station_index(), Some(0));
    app.set_next_station();
    assert_eq!(app.current_station_index(), Some(1));
    for _ in 0..10 {
        app.set_next_station();
    }
    assert_eq!(app.current_station_index(), Some(4));
    app.set_prev_station();
    assert_eq!(app.current_station_index(), Some(3));
    for _ in 0..10 {
        app.set_prev_station();
    }
    assert_eq!(app.current_station_index(), Some(0));
    let mut fresh = App::init();
    fresh.set_prev_station();
    assert_eq!(fresh.current_station_index(), Some(0));
}

#[test]
fn next_then_prev_returns() {
    for i in 0..4 {
        let mut app = App::init();
        app.set_current_station_index(i);
        app.set_next_station();
        app.set_prev_station();
        assert_eq!(app.current_station_index(), Some(i));
    }
}

#[test]
fn unknown_station_moves_to_first() {
    let mut app = App::init();
    app.set_current_station(RadioStation::new("elsewhere", "http://x"));
    assert_eq!(app.current_station_index(), None);
    app.set_next_station();
    assert_eq!(title(&app), "FM4");
    app.set_current_station(RadioStation::new("elsewhere", "http://x"));
    app.set_prev_station();
    assert_eq!(title(&app), "FM4");
}

#[test]
fn random_station_is_from_the_list() {
    let mut app = App::init();
    for _ in 0..20 {
        app.set_random_station();
        assert!(app.current_station_index().is_some());
    }
}

#[test]
fn metadata_is_merged_after_clear() {
    let mut app = App::init();
    app.clear_current_meta();
    let m = app.current_meta().unwrap();
    assert_eq!(m.title, "");
    assert_eq!(m.bitrate, 0);
    app.set_current_meta(&MetaData::with_bitrate(128));
    app.set_current_meta(&MetaData::with_decoder_config(2, 44100));
    app.set_current_meta(&MetaData::with_title("Song"));
    app.set_current_meta(&MetaData::with_title("Later"));
    let m = app.current_meta().unwrap();
    assert_eq!(m.title, "Song");
    assert_eq!(m.bitrate, 128);
    assert_eq!(m.channels, 2);
    assert_eq!(m.sample_rate, 44100);
    assert_eq!(app.now_playing_text(), "Song\n44100/2/128");
}

#[test]
fn now_playing_and_status_texts() {
    let mut app = App::init();
    assert_eq!(app.now_playing_text(), "");
    assert_eq!(app.status_text(), "");
    app.clear_current_meta();
    assert_eq!(app.now_playing_text(), "\n");
    app.set_current_status(Some("hello".to_string()));
    assert_eq!(app.status_text(), "hello");
    assert_eq!(app.current_status(), Some("hello".to_string()));
    app.set_current_status(None);
    assert_eq!(app.current_status(), None);
}

#[test]
fn keys_move_the_selection() {
    let mut app = App::init();
    app.set_current_station_index(0);
    assert!(matches!(app.on_key(Key::Down), KeyCommand::Nothing));
    assert_eq!(app.current_station_index(), Some(1));
    assert!(matches!(app.on_key(Key::Up), KeyCommand::Nothing));
    assert_eq!(app.current_station_index(), Some(0));
}

#[test]
fn play_keys_restart_the_selected_station() {
    for key in [Key::Enter, Key::Char('s'), Key::Char('r')] {
        let mut app = App::init();
        app.set_current_station_index(3);
        match app.on_key(key) {
            KeyCommand::Play(s) => assert_eq!(s.title(), "OE3"),
            other => panic!("unexpected {:?}", other),
        }
        let m = app.current_meta().unwrap();
        assert_eq!(m.title, "");
        assert_eq!(m.channels, 0);
        assert_eq!(app.current_station_index(), Some(3));
    }
}

#[test]
fn pause_and_quit_keys() {
    let mut app = App::init();
    app.set_current_station_index(0);
    assert!(matches!(app.on_key(Key::Char('p')), KeyCommand::Pause));
    assert_eq!(app.current_status(), Some("Paused".to_string()));
    assert!(matches!(app.on_key(Key::Char('q')), KeyCommand::Quit));
    assert!(matches!(app.on_key(Key::Char('x')), KeyCommand::Nothing));
    assert!(matches!(app.on_key(Key::Other), KeyCommand::Nothing));
    assert_eq!(app.current_status(), Some("Paused".to_string()));
    assert_eq!(app.current_station_index(), Some(0));
}

#[test]
fn play_result_sets_status() {
    let mut app = App::init();
    app.on_play_result(Err("wrong content type".to_string()));
    assert_eq!(app.current_status(), Some("Create stream failed wrong content type".to_string()));
    app.on_play_result(Ok(()));
    assert_eq!(app.current_status(), None);
}

#[test]
fn meta_with_title_goes_to_history() {
    let mut app = App::init();
    app.set_current_station_index(1);
    app.clear_current_meta();
    assert!(app.on_meta(MetaData::with_bitrate(96)).is_none());
    let (station, meta) = app.on_meta(MetaData::with_title("Track")).unwrap();
    assert_eq!(station.title(), "MetalRock.FM");
    assert_eq!(meta.title, "Track");
    assert_eq!(meta.bitrate, 0);
    let known = app.current_meta().unwrap();
    assert_eq!(known.title, "Track");
    assert_eq!(known.bitrate, 96);
}

#[test]
fn clone_keeps_the_state() {
    let mut app = App::init();
    app.set_current_station_index(2);
    app.set_current_status(Some("s".to_string()));
    let c = app.clone();
    assert_eq!(c.current_station_index(), Some(2));
    assert_eq!(c.current_status(), Some("s".to_string()));
    assert_eq!(c.station_list.list.len(), 5);
}

#[test]
fn stations_list_is_the_station_list() {
    let app = App::init();
    assert_eq!(app.stations_list().list.len(), 5);
    assert_eq!(app.stations_list().list[0].title(), "FM4");
    assert_eq!(app.stations_list().list[3].url(), app.station_list.list[3].url());
}
