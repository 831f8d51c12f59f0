use noize::config::{Config, ConfigSource};
use noize::keys::KeyAction;
use noize::mixer::{is_local_source, ytdl_option, Mixer, PlayerCommand, Probe};
use noize::screen::{LinkStatus, SourceRow};
use noize::state::{SourceState, State};

fn source(name: &str, urls: &[&str]) -> ConfigSource {
    ConfigSource { urls: urls.iter().map(|u| u.to_string()).collect(), name: name.to_string() }
}

fn config(max: i32, sources: Vec<ConfigSource>) -> Config {
    Config { max_volume: max, volume_step: 1, sources }
}

fn three() -> Mixer {
    let cfg = config(10, vec![source("a", &["a1"]), source("b", &["b1", "b2"]), source("c", &["c1"])]);
    Mixer::new(&cfg, &vec![vec![false], vec![true, false], vec![true]], None).0
}

fn probe(idle: Option<bool>, cache: Option<bool>, core_idle: Option<bool>) -> Probe {
    Probe { idle, paused_for_cache: cache, core_idle }
}

#[test]
fn new_adds_every_source_silent_and_unmuted() {
    let cfg = config(10, vec![source("a", &["a1"]), source("", &["b1", "b2"])]);
    let (m, cmds) = Mixer::new(&cfg, &vec![vec![true], vec![false, true]], None);
    assert_eq!(m.sources.len(), 2);
    assert_eq!(m.current_index, 0);
    assert!(m.dirty);
    assert!(!m.global_mute);
    assert_eq!(m.sources[1].name, "b1");
    assert!(m.sources[0].is_local);
    assert!(!m.sources[1].is_local);
    assert_eq!(m.sources[1].volume, 0);
    assert!(!m.sources[1].muted);
    assert_eq!(
        cmds,
        vec![
            PlayerCommand::LoadFile { source: 0, url_index: 0, replace: false },
            PlayerCommand::Silence { source: 0 },
            PlayerCommand::LoadFile { source: 1, url_index: 0, replace: false },
            PlayerCommand::Silence { source: 1 },
        ]
    );
}

#[test]
fn unnamed_source_is_labelled_by_forty_bytes_of_its_address() {
    let long = "http://example.com/a/very/long/path/to/some/stream.mp3";
    let cfg = config(10, vec![source("", &[long])]);
    let (m, _) = Mixer::new(&cfg, &vec![vec![false]], None);
    assert_eq!(m.sources[0].name, &long[..40]);
}

#[test]
fn new_with_saved_state_restores_levels_and_selection() {
    let cfg = config(10, vec![source("a", &["a1"]), source("b", &["b1"])]);
    let saved = State {
        current_index: 7,
        sources: vec![SourceState { url: "a1".to_string(), volume: 4, muted: true, previous_volume: 6 }],
    };
    let (m, cmds) = Mixer::new(&cfg, &vec![vec![false], vec![false]], Some(&saved));
    assert_eq!(m.current_index, 1);
    assert_eq!(m.sources[0].volume, 4);
    assert!(m.sources[0].muted);
    assert_eq!(m.sources[0].previous_volume, 6);
    assert_eq!(m.sources[1].volume, 0);
    assert_eq!(cmds.len(), 5);
    assert_eq!(cmds[4], PlayerCommand::Silence { source: 0 });
}

#[test]
fn adjust_volume_is_held_within_the_scale() {
    let mut m = three();
    assert_eq!(m.adjust_volume(3), vec![PlayerCommand::SetVolume { source: 0, level: 3 }]);
    assert_eq!(m.sources[0].volume, 3);
    assert_eq!(m.adjust_volume(20), vec![PlayerCommand::SetVolume { source: 0, level: 10 }]);
    assert_eq!(m.adjust_volume(-25), vec![PlayerCommand::SetVolume { source: 0, level: 0 }]);
    assert_eq!(m.sources[0].volume, 0);
}

#[test]
fn toggle_mute_keeps_the_volume_to_return_to() {
    let mut m = three();
    m.adjust_volume(6);
    assert_eq!(m.toggle_mute(), vec![PlayerCommand::Silence { source: 0 }]);
    assert!(m.sources[0].muted);
    assert_eq!(m.sources[0].volume, 0);
    assert_eq!(m.sources[0].previous_volume, 6);
    assert_eq!(m.toggle_mute(), vec![PlayerCommand::SetVolume { source: 0, level: 6 }]);
    assert!(!m.sources[0].muted);
    assert_eq!(m.sources[0].volume, 6);
}

#[test]
fn global_mute_round_trip_restores_every_source() {
    let mut m = three();
    m.adjust_volume(5);
    m.scroll_down();
    m.adjust_volume(2);
    m.toggle_mute();
    let cmds = m.toggle_global_mute();
    assert!(m.global_mute);
    assert_eq!(cmds.len(), 3);
    for s in &m.sources {
        assert!(s.muted);
        assert_eq!(s.volume, 0);
    }
    let cmds = m.toggle_global_mute();
    assert!(!m.global_mute);
    assert_eq!(
        cmds,
        vec![
            PlayerCommand::SetVolume { source: 0, level: 5 },
            PlayerCommand::Silence { source: 1 },
            PlayerCommand::SetVolume { source: 2, level: 0 },
        ]
    );
    assert_eq!(m.sources[0].volume, 5);
    assert!(m.sources[1].muted);
    assert_eq!(m.sources[1].previous_volume, 2);
}

#[test]
fn scrolling_wraps_and_undoes() {
    let mut m = three();
    m.scroll_up();
    assert_eq!(m.current_index, 2);
    m.scroll_down();
    assert_eq!(m.current_index, 0);
    m.scroll_down();
    m.scroll_down();
    assert_eq!(m.current_index, 2);
    m.clear_dirty();
    assert!(!m.dirty);
    m.scroll_down();
    assert!(m.dirty);
    assert_eq!(m.current_index, 0);
}

#[test]
fn operations_on_an_empty_mixer_change_nothing() {
    let (mut m, cmds) = Mixer::new(&config(10, Vec::new()), &Vec::new(), None);
    assert!(cmds.is_empty());
    m.clear_dirty();
    assert!(m.adjust_volume(1).is_empty());
    assert!(m.toggle_mute().is_empty());
    assert!(m.toggle_global_mute().is_empty());
    assert!(m.set_volume_direct(3).is_empty());
    m.scroll_up();
    assert!(!m.dirty);
    assert!(!m.global_mute);
}

#[test]
fn set_volume_direct_unmutes_and_clamps() {
    let mut m = three();
    m.adjust_volume(4);
    m.toggle_mute();
    assert_eq!(m.set_volume_direct(42), vec![PlayerCommand::SetVolume { source: 0, level: 10 }]);
    assert!(!m.sources[0].muted);
    assert_eq!(m.sources[0].volume, 10);
    assert_eq!(m.sources[0].previous_volume, 4);
    m.set_volume_direct(-3);
    assert_eq!(m.sources[0].volume, 0);
}

#[test]
fn save_then_load_gives_back_levels_and_selection() {
    let mut m = three();
    m.adjust_volume(7);
    m.scroll_down();
    m.toggle_mute();
    let st = m.save_state();
    assert_eq!(st.current_index, 1);
    assert_eq!(st.sources.len(), 3);
    assert_eq!(st.sources[1].url, "b1");
    assert_eq!(st.sources[0].volume, 7);
    let mut fresh = three();
    fresh.load_state(&st);
    assert_eq!(fresh.current_index, 1);
    for i in 0..3 {
        assert_eq!(fresh.sources[i].volume, m.sources[i].volume);
        assert_eq!(fresh.sources[i].muted, m.sources[i].muted);
        assert_eq!(fresh.sources[i].previous_volume, m.sources[i].previous_volume);
    }
}

#[test]
fn a_stream_seen_playing_then_idle_moves_to_its_next_address() {
    let mut m = three();
    m.clear_dirty();
    let playing = vec![probe(Some(false), Some(false), Some(false)); 3];
    assert!(m.check_connection_states(&playing).is_empty());
    assert!(m.sources[1].seen_playback);
    assert!(!m.dirty);
    let idle = vec![probe(Some(false), Some(false), Some(false)), probe(Some(true), Some(false), Some(true)), probe(None, None, None)];
    let cmds = m.check_connection_states(&idle);
    assert_eq!(cmds, vec![PlayerCommand::LoadFile { source: 1, url_index: 1, replace: true }]);
    assert_eq!(m.sources[1].url_index, 1);
    assert!(!m.sources[1].disconnected);
    assert!(!m.dirty);
    let cmds = m.check_connection_states(&idle);
    assert!(cmds.is_empty());
    assert!(m.sources[1].disconnected);
    assert!(m.dirty);
}

#[test]
fn a_stream_waiting_for_its_cache_is_buffering() {
    let mut m = three();
    m.clear_dirty();
    let cache = vec![probe(Some(false), Some(true), Some(true)); 3];
    m.check_connection_states(&cache);
    assert!(m.sources[0].buffering);
    assert!(!m.sources[2].buffering);
    assert!(m.dirty);
}

#[test]
fn a_stream_never_seen_playing_is_not_judged() {
    let mut m = three();
    m.clear_dirty();
    let idle = vec![probe(Some(true), None, Some(true)); 3];
    assert!(m.check_connection_states(&idle).is_empty());
    assert!(!m.sources[0].disconnected);
    assert!(!m.sources[0].seen_playback);
    assert!(!m.dirty);
}

#[test]
fn retry_reloads_the_first_address_of_dropped_streams() {
    let mut m = three();
    let seen = vec![probe(Some(false), Some(false), Some(false)); 3];
    m.check_connection_states(&seen);
    let idle = vec![probe(Some(true), Some(false), None); 3];
    m.check_connection_states(&idle);
    m.check_connection_states(&idle);
    assert!(m.sources[0].disconnected);
    assert_eq!(m.sources[1].url_index, 1);
    let (cmds, due) = m.tick_retry(14_999);
    assert!(!due);
    assert!(cmds.is_empty());
    let (cmds, due) = m.tick_retry(15_000);
    assert!(due);
    assert_eq!(
        cmds,
        vec![
            PlayerCommand::LoadFile { source: 0, url_index: 0, replace: true },
            PlayerCommand::LoadFile { source: 1, url_index: 0, replace: true },
        ]
    );
    assert_eq!(m.sources[1].url_index, 0);
    assert_eq!(m.retry_disconnected().len(), 2);
}

#[test]
fn a_local_source_is_never_disconnected() {
    let mut m = three();
    m.sources[2].disconnected = true;
    m.clear_dirty();
    m.check_connection_states(&vec![probe(None, None, None); 3]);
    assert!(!m.sources[2].disconnected);
    assert!(m.dirty);
}

#[test]
fn keys_drive_the_mixer() {
    let mut m = three();
    assert_eq!(m.perform(KeyAction::VolumeUp), vec![PlayerCommand::SetVolume { source: 0, level: 1 }]);
    assert_eq!(m.perform(KeyAction::VolumeDown), vec![PlayerCommand::SetVolume { source: 0, level: 0 }]);
    assert!(m.perform(KeyAction::ScrollDown).is_empty());
    assert_eq!(m.current_index, 1);
    assert_eq!(m.perform(KeyAction::SetVolume(8)), vec![PlayerCommand::SetVolume { source: 1, level: 8 }]);
    assert_eq!(m.perform(KeyAction::ToggleMute), vec![PlayerCommand::Silence { source: 1 }]);
    assert_eq!(m.perform(KeyAction::ToggleGlobalMute).len(), 3);
    assert!(m.perform(KeyAction::Nothing).is_empty());
    assert!(m.perform(KeyAction::ScrollUp).is_empty());
    assert_eq!(m.current_index, 0);
}

#[test]
fn rows_show_the_selection_levels_and_status() {
    let cfg = config(10, vec![source("a name that is longer than thirty bytes", &["a1"]), source("b", &["b1", "b2"])]);
    let (mut m, _) = Mixer::new(&cfg, &vec![vec![false], vec![false, false]], None);
    m.adjust_volume(3);
    m.toggle_mute();
    m.sources[1].buffering = true;
    assert!(m.can_render());
    let rows = m.rows();
    assert_eq!(rows.len(), 2);
    assert!(rows[0].selected);
    assert!(!rows[1].selected);
    assert_eq!(rows[0].name, "a name that is longer than thi");
    assert_eq!(rows[0].level, 3);
    assert!(rows[0].muted);
    assert_eq!(rows[0].max_volume, 10);
    assert_eq!(rows[0].url_position, None);
    assert_eq!(rows[1].url_position, Some((1, 2)));
    assert_eq!(rows[1].status, LinkStatus::Buffering);
    m.sources[1].disconnected = true;
    assert_eq!(m.rows()[1].status, LinkStatus::Disconnected);
    m.sources[1].volume = 11;
    assert!(!m.can_render());
}

#[test]
fn add_source_appends_and_opens_the_first_address() {
    let mut m = three();
    let cmds = m.add_source(&source("d", &["d1", "d2"]), &vec![true, true]);
    assert_eq!(m.sources.len(), 4);
    assert_eq!(m.sources[3].name, "d");
    assert_eq!(m.sources[3].url_index, 0);
    assert!(m.sources[3].is_local);
    assert_eq!(
        cmds,
        vec![
            PlayerCommand::LoadFile { source: 3, url_index: 0, replace: false },
            PlayerCommand::Silence { source: 3 },
        ]
    );
}

#[test]
fn row_lines_spell_the_screen() {
    let row = SourceRow {
        selected: true,
        name: "rain".to_string(),
        level: 3,
        max_volume: 10,
        muted: true,
        url_position: Some((2, 3)),
        status: LinkStatus::Buffering,
    };
    assert_eq!(
        row.line(),
        format!("> {:<30} [###-------] 3/10 [MUTED] [2/3] [BUFFERING...]", "rain")
    );
    let plain = SourceRow {
        selected: false,
        name: "a label of exactly thirty char".to_string(),
        level: 0,
        max_volume: 12,
        muted: false,
        url_position: None,
        status: LinkStatus::Disconnected,
    };
    assert_eq!(plain.line(), "  a label of exactly thirty char [------------] 0/12 [DISCONNECTED]");
}

#[test]
fn screen_shows_title_lines_keys_and_global_mute() {
    let cfg = config(2, vec![source("a", &["a1"]), source("b", &["b1"])]);
    let (mut m, _) = Mixer::new(&cfg, &vec![vec![false], vec![false]], None);
    m.adjust_volume(1);
    let controls = "\nControls: j/k=scroll, h/l=volume down/up, m=mute/unmute, space=global mute, 0-9=set volume, q=quit\n";
    let expected = format!(
        "\x1b[2J\x1b[H=== noize ===\n> {:<30} [#-] 1/2\n  {:<30} [--] 0/2\n{}",
        "a", "b", controls
    );
    assert_eq!(m.screen(), expected);
    m.toggle_global_mute();
    let muted = format!(
        "\x1b[2J\x1b[H=== noize ===\n> {:<30} [#-] 1/2 [MUTED]\n  {:<30} [--] 0/2 [MUTED]\n{}*** GLOBAL MUTE ACTIVE ***\n",
        "a", "b", controls
    );
    assert_eq!(m.screen(), muted);
}

#[test]
fn changes_made_under_global_mute_are_discarded() {
    let mut m = three();
    m.adjust_volume(4);
    m.scroll_down();
    m.adjust_volume(2);
    let before: Vec<(i32, bool, i32)> = m.sources.iter().map(|s| (s.volume, s.muted, s.previous_volume)).collect();
    m.toggle_global_mute();
    m.perform(KeyAction::VolumeUp);
    m.perform(KeyAction::ToggleMute);
    m.perform(KeyAction::ScrollDown);
    m.perform(KeyAction::SetVolume(9));
    m.toggle_global_mute();
    let after: Vec<(i32, bool, i32)> = m.sources.iter().map(|s| (s.volume, s.muted, s.previous_volume)).collect();
    assert_eq!(before, after);
    assert!(!m.global_mute);
}

#[test]
fn a_source_is_local_only_when_every_address_exists() {
    assert!(is_local_source(&vec![true, true]));
    assert!(!is_local_source(&vec![true, false]));
    assert!(is_local_source(&Vec::new()));
    assert_eq!(ytdl_option(true), "no");
    assert_eq!(ytdl_option(false), "yes");
    let mut m = three();
    m.add_source(&source("e", &["e1", "e2"]), &vec![true, false]);
    assert!(!m.sources[3].is_local);
}
