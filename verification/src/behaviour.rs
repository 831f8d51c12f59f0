//! What each operation does, stated in terms of what it is given and what
//! comes out, apart from the spec functions that define it.
use vstd::prelude::*;

use crate::config::{present_strings, resolve_urls, Config, ConfigError, ConfigSource, UrlField};
use crate::keys::{
    expire_spec, press_spec, KeyAction, KEY_DIGIT_0, KEY_DIGIT_9, KEY_DOWN, KEY_LOUDER, KEY_MUTE, KEY_MUTE_ALL,
    KEY_QUIETER, KEY_QUIT, KEY_UP,
};
use crate::mixer::{
    all_exist, any_marks_dirty, configured, connection_commands, fresh_source, open_commands, probe_loads_next, probed, probe_marks_dirty,
    restore_commands, retry_commands, Levels, MixerView, PlayerCommand, Probe, SourceView,
};

verus! {

/// Moving the volume by `delta` lands on `volume + delta` when that lies
/// within the scale, on 0 below it and on `max_volume` above it. Nothing
/// else changes but the screen flag, and the selected source's player is
/// told the new volume.
pub proof fn lemma_adjust_volume_moves_by_delta(m: MixerView, delta: int)
    requires
        m.wf(),
        m.max_volume >= 0,
    ensures
        m.sources.len() == 0 ==> m.adjust_volume(delta) == m,
        m.sources.len() > 0 ==> {
            let c = m.current_index;
            let v = m.sources[c].volume;
            let r = m.adjust_volume(delta);
            &&& 0 <= v + delta <= m.max_volume ==> r.sources[c].volume == v + delta
            &&& v + delta < 0 ==> r.sources[c].volume == 0
            &&& v + delta > m.max_volume ==> r.sources[c].volume == m.max_volume
            &&& r.sources[c] == (SourceView { volume: r.sources[c].volume, ..m.sources[c] })
            &&& r.sources.len() == m.sources.len()
            &&& forall|i: int| 0 <= i < m.sources.len() && i != c ==> #[trigger] r.sources[i] == m.sources[i]
            &&& r == (MixerView { sources: r.sources, dirty: true, ..m })
            &&& r.selected_volume_commands_unmuted() == seq![
                PlayerCommand::SetVolume { source: c as usize, level: r.sources[c].volume as i32 },
            ]
        },
{
}

/// Setting the volume directly lands on the level when it lies within the
/// scale, on 0 below it and on `max_volume` above it, and unmutes the
/// selected source, keeping its volume to return to; its player is told
/// the new volume.
pub proof fn lemma_set_volume_direct_sets_level(m: MixerView, level: int)
    requires
        m.wf(),
        m.max_volume >= 0,
    ensures
        m.sources.len() == 0 ==> m.set_volume_direct(level) == m,
        m.sources.len() > 0 ==> {
            let c = m.current_index;
            let r = m.set_volume_direct(level);
            &&& 0 <= level <= m.max_volume ==> r.sources[c].volume == level
            &&& level < 0 ==> r.sources[c].volume == 0
            &&& level > m.max_volume ==> r.sources[c].volume == m.max_volume
            &&& !r.sources[c].muted
            &&& r.sources[c] == (SourceView { volume: r.sources[c].volume, muted: false, ..m.sources[c] })
            &&& r.sources.len() == m.sources.len()
            &&& forall|i: int| 0 <= i < m.sources.len() && i != c ==> #[trigger] r.sources[i] == m.sources[i]
            &&& r == (MixerView { sources: r.sources, dirty: true, ..m })
            &&& r.selected_volume_commands() == seq![
                PlayerCommand::SetVolume { source: c as usize, level: r.sources[c].volume as i32 },
            ]
        },
{
}

/// Muting the selected source keeps its volume to return to, sets it to
/// zero and silences its player; unmuting gives it back that volume and
/// tells its player so.
pub proof fn lemma_toggle_mute_silences_and_restores(m: MixerView)
    requires
        m.wf(),
    ensures
        m.sources.len() == 0 ==> m.toggle_mute() == m,
        m.sources.len() > 0 ==> {
            let c = m.current_index;
            let s = m.sources[c];
            let r = m.toggle_mute();
            &&& !s.muted ==> {
                &&& r.sources[c].muted
                &&& r.sources[c].volume == 0
                &&& r.sources[c].previous_volume == s.volume
                &&& r.selected_volume_commands() == seq![PlayerCommand::Silence { source: c as usize }]
            }
            &&& s.muted ==> {
                &&& !r.sources[c].muted
                &&& r.sources[c].volume == s.previous_volume
                &&& r.sources[c].previous_volume == s.previous_volume
                &&& r.selected_volume_commands() == seq![
                    PlayerCommand::SetVolume { source: c as usize, level: s.previous_volume as i32 },
                ]
            }
            &&& r.sources[c] == r.sources[c].with_levels(r.sources[c].levels())
            &&& r.sources[c] == s.with_levels(r.sources[c].levels())
            &&& r.sources.len() == m.sources.len()
            &&& forall|i: int| 0 <= i < m.sources.len() && i != c ==> #[trigger] r.sources[i] == m.sources[i]
            &&& r == (MixerView { sources: r.sources, dirty: true, ..m })
        },
{
}

/// Turning the global mute on keeps every source's levels, mutes every
/// source at volume zero, and silences every player, one command for each
/// source in order.
pub proof fn lemma_global_mute_on_silences_every_player(m: MixerView)
    requires
        m.wf(),
        m.sources.len() > 0,
        !m.global_mute,
    ensures
        ({
            let r = m.toggle_global_mute();
            let cmds = m.toggle_global_mute_commands();
            &&& r.global_mute
            &&& cmds.len() == m.sources.len()
            &&& forall|i: int| 0 <= i < cmds.len() ==> #[trigger] cmds[i] == (PlayerCommand::Silence { source: i as usize })
            &&& r.sources.len() == m.sources.len()
            &&& forall|i: int|
                0 <= i < m.sources.len() ==> {
                    &&& (#[trigger] r.sources[i]).muted
                    &&& r.sources[i].volume == 0
                    &&& r.sources[i].previous_volume == m.sources[i].volume
                    &&& r.sources[i] == m.sources[i].with_levels(r.sources[i].levels())
                }
            &&& r.saved matches Some(st) && st.len() == m.sources.len()
            &&& forall|i: int| 0 <= i < m.sources.len() ==> #[trigger] r.saved->0[i] == m.sources[i].levels()
        }),
{
}

/// Turning the global mute off gives each source that has saved levels
/// those levels, tells its player (silence when the saved levels are
/// muted, else the saved volume), and leaves the other sources as they are.
pub proof fn lemma_global_mute_off_restores_saved(m: MixerView, st: Seq<Levels>)
    requires
        m.wf(),
        m.sources.len() > 0,
        m.global_mute,
        m.saved == Some(st),
    ensures
        ({
            let r = m.toggle_global_mute();
            let cmds = m.toggle_global_mute_commands();
            let k = if st.len() < m.sources.len() { st.len() as int } else { m.sources.len() as int };
            &&& !r.global_mute
            &&& r.saved is None
            &&& r.sources.len() == m.sources.len()
            &&& forall|i: int|
                0 <= i < k ==> {
                    &&& (#[trigger] r.sources[i]).volume == st[i].volume
                    &&& r.sources[i].muted == st[i].muted
                    &&& r.sources[i].previous_volume == st[i].previous_volume
                    &&& r.sources[i] == m.sources[i].with_levels(st[i])
                }
            &&& forall|i: int| k <= i < m.sources.len() ==> #[trigger] r.sources[i] == m.sources[i]
            &&& cmds.len() == k
            &&& forall|i: int| 0 <= i < k && st[i].muted ==> #[trigger] cmds[i] == (PlayerCommand::Silence { source: i as usize })
            &&& forall|i: int|
                0 <= i < k && !st[i].muted ==> #[trigger] cmds[i] == (PlayerCommand::SetVolume {
                    source: i as usize,
                    level: st[i].volume as i32,
                })
        }),
{
}

/// Selecting the next source moves one down and wraps from the last to the
/// first; selecting the previous one moves one up and wraps from the first
/// to the last.
pub proof fn lemma_scroll_moves_by_one(m: MixerView)
    requires
        m.wf(),
        m.sources.len() > 0,
    ensures
        m.current_index + 1 < m.sources.len() ==> m.scroll_down().current_index == m.current_index + 1,
        m.current_index + 1 == m.sources.len() ==> m.scroll_down().current_index == 0,
        m.current_index > 0 ==> m.scroll_up().current_index == m.current_index - 1,
        m.current_index == 0 ==> m.scroll_up().current_index == m.sources.len() - 1,
        m.scroll_down() == (MixerView { current_index: m.scroll_down().current_index, dirty: true, ..m }),
        m.scroll_up() == (MixerView { current_index: m.scroll_up().current_index, dirty: true, ..m }),
{
    let n = m.sources.len() as int;
    let c = m.current_index;
    if c + 1 < n {
        vstd::arithmetic::div_mod::lemma_small_mod((c + 1) as nat, n as nat);
    } else {
        vstd::arithmetic::div_mod::lemma_mod_self_0(n);
    }
    if c > 0 {
        vstd::arithmetic::div_mod::lemma_mod_add_multiples_vanish(c - 1, n);
        vstd::arithmetic::div_mod::lemma_small_mod((c - 1) as nat, n as nat);
    } else {
        vstd::arithmetic::div_mod::lemma_small_mod((n - 1) as nat, n as nat);
    }
}

/// Loading a saved state gives each source that has saved levels those
/// levels and leaves the others as they are; it selects the saved source,
/// or the last one when the saved index lies beyond it.
pub proof fn lemma_load_state_restores(m: MixerView, st: Seq<Levels>, index: int)
    requires
        m.wf(),
        m.sources.len() > 0,
        index >= 0,
    ensures
        ({
            let r = m.load_state(st, index);
            &&& index < m.sources.len() ==> r.current_index == index
            &&& index >= m.sources.len() ==> r.current_index == m.sources.len() - 1
            &&& r.sources.len() == m.sources.len()
            &&& forall|i: int| 0 <= i < m.sources.len() && i < st.len() ==> #[trigger] r.sources[i] == m.sources[i].with_levels(st[i])
            &&& forall|i: int| 0 <= i < m.sources.len() && i >= st.len() ==> #[trigger] r.sources[i] == m.sources[i]
            &&& r.dirty
        }),
{
}

/// A source's `urls` entry, when not empty, gives its addresses whatever
/// its `url` entry holds; otherwise a single `url` gives one address, a
/// missing one is an error, and one that is neither a string nor a list is
/// another.
pub proof fn lemma_urls_entry_wins(urls: Seq<String>, url: UrlField)
    ensures
        urls.len() > 0 ==> resolve_urls(urls, url) == Ok::<Seq<String>, ConfigError>(urls),
        urls.len() == 0 && url is Absent ==> resolve_urls(urls, url) == Err::<Seq<String>, ConfigError>(ConfigError::MissingUrl),
        urls.len() == 0 && url is Other ==> resolve_urls(urls, url) == Err::<Seq<String>, ConfigError>(ConfigError::UrlNotStringOrList),
        urls.len() == 0 && url is Single ==> resolve_urls(urls, url) == Ok::<Seq<String>, ConfigError>(seq![url->Single_0]),
{
}

/// How a probe changes a stream's marks. A local source only loses its
/// disconnected mark. A stream never seen playing stays as it is until a
/// probe shows it playing. Once seen: waiting for its cache it is buffering
/// and not disconnected; idle it stops buffering and moves to its next
/// address, or, having none, is disconnected; otherwise it plays, neither
/// buffering nor disconnected. Only the marks, the seen flag and the
/// address change.
pub proof fn lemma_probe_marks(s: SourceView, p: Probe)
    ensures
        probed(s, p).name == s.name,
        probed(s, p).urls == s.urls,
        probed(s, p).levels() == s.levels(),
        probed(s, p).is_local == s.is_local,
        s.is_local ==> probed(s, p) == (SourceView { disconnected: false, ..s }),
        !s.is_local && !s.seen_playback && p.core_idle != Some(false) && !(p.idle == Some(false) && p.paused_for_cache is Some)
            ==> probed(s, p) == s,
        !s.is_local && (s.seen_playback || p.core_idle == Some(false) || (p.idle == Some(false) && p.paused_for_cache is Some))
            ==> {
            let r = probed(s, p);
            &&& r.seen_playback
            &&& p.paused_for_cache == Some(true) ==> r.buffering && !r.disconnected && r.url_index == s.url_index
            &&& p.paused_for_cache != Some(true) && p.idle == Some(true) ==> {
                &&& !r.buffering
                &&& s.url_index + 1 < s.urls.len() ==> r.url_index == s.url_index + 1 && !r.disconnected
                &&& s.url_index + 1 >= s.urls.len() ==> r.url_index == s.url_index && r.disconnected
            }
            &&& p.paused_for_cache != Some(true) && p.idle != Some(true) ==> !r.buffering && !r.disconnected
                && r.url_index == s.url_index
        },
{
}

/// A probe asks for the screen to be drawn again only when it changes a
/// buffering or disconnected mark; it does so for every such change except
/// when the stream moves on to its next address. (A stream is never both
/// buffering and disconnected: each probe that sets one mark clears the
/// other.)
pub proof fn lemma_probe_marks_dirty_on_change(s: SourceView, p: Probe)
    requires
        !(s.buffering && s.disconnected),
    ensures
        !(probed(s, p).buffering && probed(s, p).disconnected),
        probe_marks_dirty(s, p) ==> probed(s, p).buffering != s.buffering || probed(s, p).disconnected != s.disconnected,
        (probed(s, p).buffering != s.buffering || probed(s, p).disconnected != s.disconnected)
            && probed(s, p).url_index == s.url_index ==> probe_marks_dirty(s, p),
{
}

/// Setting up `k` sources tells each player in turn to load its first
/// address, then to play silently.
pub proof fn lemma_open_commands(k: int)
    requires
        k >= 0,
    ensures
        open_commands(k).len() == 2 * k,
        forall|i: int| 0 <= i < k ==> #[trigger] open_commands(k)[2 * i] == (PlayerCommand::LoadFile {
            source: i as usize,
            url_index: 0,
            replace: false,
        }),
        forall|i: int| 0 <= i < k ==> #[trigger] open_commands(k)[2 * i + 1] == (PlayerCommand::Silence { source: i as usize }),
    decreases k,
{
    if k > 0 {
        lemma_open_commands(k - 1);
        let prev = open_commands(k - 1);
        let cur = open_commands(k);
        assert forall|i: int| 0 <= i < k implies #[trigger] cur[2 * i] == (PlayerCommand::LoadFile {
            source: i as usize,
            url_index: 0,
            replace: false,
        }) by {
            if i < k - 1 {
                assert(cur[2 * i] == prev[2 * i]);
            }
        }
        assert forall|i: int| 0 <= i < k implies #[trigger] cur[2 * i + 1] == (PlayerCommand::Silence { source: i as usize }) by {
            if i < k - 1 {
                assert(cur[2 * i + 1] == prev[2 * i + 1]);
            }
        }
    }
}

/// A newly added source plays its first address at volume zero, unmuted,
/// neither buffering nor disconnected nor yet seen playing, with the
/// configured addresses, and keeps its configured name when it has one.
pub proof fn lemma_fresh_source(cs: ConfigSource, is_local: bool)
    ensures
        fresh_source(cs, is_local).volume == 0,
        !fresh_source(cs, is_local).muted,
        fresh_source(cs, is_local).previous_volume == 0,
        fresh_source(cs, is_local).url_index == 0,
        fresh_source(cs, is_local).is_local == is_local,
        !fresh_source(cs, is_local).buffering,
        !fresh_source(cs, is_local).disconnected,
        !fresh_source(cs, is_local).seen_playback,
        fresh_source(cs, is_local).urls.len() == cs.urls@.len(),
        forall|j: int| 0 <= j < cs.urls@.len() ==> #[trigger] fresh_source(cs, is_local).urls[j] == cs.urls@[j]@,
        cs.name@.len() > 0 ==> fresh_source(cs, is_local).name == cs.name@,
{
}

/// Restoring saved levels tells the player of each source that has them,
/// in order: silence when the saved levels are muted, else the saved volume.
pub proof fn lemma_restore_commands(n: int, st: Seq<Levels>)
    requires
        n >= 0,
    ensures
        restore_commands(n, st).len() == if st.len() < n { st.len() as int } else { n },
        forall|i: int|
            0 <= i < restore_commands(n, st).len() && st[i].muted ==> #[trigger] restore_commands(n, st)[i]
                == (PlayerCommand::Silence { source: i as usize }),
        forall|i: int|
            0 <= i < restore_commands(n, st).len() && !st[i].muted ==> #[trigger] restore_commands(n, st)[i]
                == (PlayerCommand::SetVolume { source: i as usize, level: st[i].volume as i32 }),
{
}

/// After probing, the screen is to be drawn again exactly when it was
/// already, or when the probe of some source changed what it shows.
pub proof fn lemma_probes_mark_dirty(m: MixerView, probes: Seq<Probe>)
    requires
        m.wf(),
        probes.len() == m.sources.len(),
    ensures
        m.check_connection_states(probes).dirty == (m.dirty || exists|i: int|
            0 <= i < m.sources.len() && #[trigger] probe_marks_dirty(m.sources[i], probes[i])),
{
    lemma_any_marks_dirty(m.sources, probes, m.sources.len() as int);
}

proof fn lemma_any_marks_dirty(sources: Seq<SourceView>, probes: Seq<Probe>, k: int)
    requires
        0 <= k <= sources.len(),
    ensures
        any_marks_dirty(sources, probes, k) == exists|i: int| 0 <= i < k && #[trigger] probe_marks_dirty(sources[i], probes[i]),
    decreases k,
{
    if k > 0 {
        lemma_any_marks_dirty(sources, probes, k - 1);
        if any_marks_dirty(sources, probes, k - 1) {
            let i = choose|i: int| 0 <= i < k - 1 && #[trigger] probe_marks_dirty(sources[i], probes[i]);
            assert(0 <= i < k && probe_marks_dirty(sources[i], probes[i]));
        }
        if probe_marks_dirty(sources[k - 1], probes[k - 1]) {
            assert(0 <= k - 1 < k && probe_marks_dirty(sources[k - 1], probes[k - 1]));
        }
    }
}

/// The addresses of a `url` list: none from an empty list; a string item
/// adds its address after those before it; any other item adds none.
pub proof fn lemma_list_addresses(items: Seq<Option<String>>, s: String)
    ensures
        present_strings(Seq::empty()) == Seq::<String>::empty(),
        present_strings(items.push(Some(s))) == present_strings(items).push(s),
        present_strings(items.push(None)) == present_strings(items),
        present_strings(items).len() <= items.len(),
{
    assert(items.push(Some(s)).drop_last() =~= items);
    assert(items.push(None::<String>).drop_last() =~= items);
    lemma_list_shorter(items);
}

proof fn lemma_list_shorter(items: Seq<Option<String>>)
    ensures
        present_strings(items).len() <= items.len(),
    decreases items.len(),
{
    if items.len() > 0 {
        lemma_list_shorter(items.drop_last());
    }
}

/// The keys: `q` quits and keeps a waiting digit; `j`, `k`, `h`, `l`, `m`
/// and space scroll, move the volume, mute and mute all, dropping a waiting
/// digit; `0` with no digit waiting silences; another digit with none
/// waiting waits; any other key does nothing and keeps a waiting digit.
pub proof fn lemma_keys(pending: Option<int>, key: u8, max_volume: int)
    ensures
        key == KEY_QUIT ==> press_spec(pending, key, max_volume) == (KeyAction::Quit, pending, false),
        key == KEY_DOWN ==> press_spec(pending, key, max_volume) == (KeyAction::ScrollDown, None::<int>, false),
        key == KEY_UP ==> press_spec(pending, key, max_volume) == (KeyAction::ScrollUp, None::<int>, false),
        key == KEY_QUIETER ==> press_spec(pending, key, max_volume) == (KeyAction::VolumeDown, None::<int>, false),
        key == KEY_LOUDER ==> press_spec(pending, key, max_volume) == (KeyAction::VolumeUp, None::<int>, false),
        key == KEY_MUTE ==> press_spec(pending, key, max_volume) == (KeyAction::ToggleMute, None::<int>, false),
        key == KEY_MUTE_ALL ==> press_spec(pending, key, max_volume) == (KeyAction::ToggleGlobalMute, None::<int>, false),
        key == KEY_DIGIT_0 && pending is None ==> press_spec(pending, key, max_volume) == (KeyAction::SetVolume(0), None::<int>, false),
        KEY_DIGIT_0 < key <= KEY_DIGIT_9 && pending is None ==> press_spec(pending, key, max_volume) == (
            KeyAction::Nothing,
            Some((key - KEY_DIGIT_0) as int),
            true,
        ),
        !(KEY_DIGIT_0 <= key <= KEY_DIGIT_9) && key != KEY_QUIT && key != KEY_DOWN && key != KEY_UP && key != KEY_QUIETER
            && key != KEY_LOUDER && key != KEY_MUTE && key != KEY_MUTE_ALL ==> press_spec(pending, key, max_volume) == (
            KeyAction::Nothing,
            pending,
            false,
        ),
        KEY_DIGIT_0 <= key <= KEY_DIGIT_9 && pending is Some ==> press_spec(pending, key, max_volume).1 is None
            && press_spec(pending, key, max_volume).2,
{
}

/// A lone digit that waited too long sets its volume when it lies within
/// the scale, and nothing otherwise.
pub proof fn lemma_expire(pending: Option<int>, max_volume: int)
    requires
        pending matches Some(d) ==> 0 <= d <= 9,
    ensures
        pending is Some && pending->0 <= max_volume ==> expire_spec(pending, max_volume) == Some(pending->0 as i32),
        pending is Some && pending->0 > max_volume ==> expire_spec(pending, max_volume) is None,
        pending is None ==> expire_spec(pending, max_volume) is None,
{
}

/// `l` raises and `h` lowers the selected source by the volume step, held
/// within the scale; `j` and `k` select the next and the previous source;
/// a digit entry sets the volume; `q` and an unknown key change nothing.
pub proof fn lemma_keys_drive_mixer(m: MixerView, v: i32)
    requires
        m.wf(),
        m.sources.len() > 0,
        m.max_volume >= 0,
    ensures
        ({
            let c = m.current_index;
            let vol = m.sources[c].volume;
            let up = m.perform(KeyAction::VolumeUp).sources[c].volume;
            let down = m.perform(KeyAction::VolumeDown).sources[c].volume;
            let set = m.perform(KeyAction::SetVolume(v)).sources[c];
            &&& 0 <= vol + m.volume_step <= m.max_volume ==> up == vol + m.volume_step
            &&& vol + m.volume_step > m.max_volume ==> up == m.max_volume
            &&& vol + m.volume_step < 0 ==> up == 0
            &&& 0 <= vol - m.volume_step <= m.max_volume ==> down == vol - m.volume_step
            &&& vol - m.volume_step < 0 ==> down == 0
            &&& vol - m.volume_step > m.max_volume ==> down == m.max_volume
            &&& 0 <= v <= m.max_volume ==> set.volume == v && !set.muted
            &&& m.perform(KeyAction::ScrollDown) == m.scroll_down()
            &&& m.perform(KeyAction::ScrollUp) == m.scroll_up()
            &&& m.perform(KeyAction::ToggleMute) == m.toggle_mute()
            &&& m.perform(KeyAction::ToggleGlobalMute) == m.toggle_global_mute()
            &&& m.perform(KeyAction::Quit) == m
            &&& m.perform(KeyAction::Nothing) == m
        }),
{
}

/// Noting that the screen is drawn changes nothing but that flag.
pub proof fn lemma_clear_dirty(m: MixerView)
    ensures
        !m.clear_dirty().dirty,
        m.clear_dirty() == (MixerView { dirty: m.clear_dirty().dirty, ..m }),
{
}

/// Adding a source appends it after the others, which stay as they are,
/// and changes nothing else.
pub proof fn lemma_add_source_appends(m: MixerView, s: SourceView)
    ensures
        m.add_source(s).sources.len() == m.sources.len() + 1,
        m.add_source(s).sources[m.sources.len() as int] == s,
        forall|i: int| 0 <= i < m.sources.len() ==> #[trigger] m.add_source(s).sources[i] == m.sources[i],
        m.add_source(s) == (MixerView { sources: m.add_source(s).sources, ..m }),
{
}

/// Probing judges each source by its own probe and changes nothing but the
/// sources and the screen flag; a flag already set stays set.
pub proof fn lemma_probes_each_source(m: MixerView, probes: Seq<Probe>)
    requires
        probes.len() == m.sources.len(),
    ensures
        ({
            let r = m.check_connection_states(probes);
            &&& r.sources.len() == m.sources.len()
            &&& forall|i: int| 0 <= i < m.sources.len() ==> #[trigger] r.sources[i] == probed(m.sources[i], probes[i])
            &&& m.dirty ==> r.dirty
            &&& r == (MixerView { sources: r.sources, dirty: r.dirty, ..m })
        }),
{
}

/// A configured mixer has one source for each configured one, in order,
/// each local exactly when all its addresses exist on disk; it selects the
/// first, has no global mute and nothing saved, takes its scale and step
/// from the configuration, and is to be drawn.
pub proof fn lemma_configured(config: Config, exists: Seq<Vec<bool>>)
    ensures
        ({
            let m = configured(config, exists);
            &&& m.sources.len() == config.sources@.len()
            &&& forall|i: int|
                0 <= i < config.sources@.len() ==> #[trigger] m.sources[i] == fresh_source(
                    config.sources@[i],
                    forall|j: int| 0 <= j < exists[i]@.len() ==> #[trigger] exists[i]@[j],
                )
            &&& m.current_index == 0
            &&& !m.global_mute
            &&& m.saved is None
            &&& m.dirty
            &&& m.max_volume == config.max_volume
            &&& m.volume_step == config.volume_step
        }),
{
    let m = configured(config, exists);
    assert forall|i: int| 0 <= i < config.sources@.len() implies #[trigger] m.sources[i] == fresh_source(
        config.sources@[i],
        forall|j: int| 0 <= j < exists[i]@.len() ==> #[trigger] exists[i]@[j],
    ) by {
        assert(all_exist(exists[i]@) == (forall|j: int| 0 <= j < exists[i]@.len() ==> #[trigger] exists[i]@[j]));
    }
}

/// The source a command is for.
pub open spec fn command_source(c: PlayerCommand) -> int {
    match c {
        PlayerCommand::SetVolume { source, .. } => source as int,
        PlayerCommand::Silence { source } => source as int,
        PlayerCommand::LoadFile { source, .. } => source as int,
    }
}

/// Whether `cmds` reloads, replacing what plays, exactly the sources among
/// the first `n` for which `chosen` holds, each once, in order of source,
/// source `i` from its address number `url(i)`.
pub open spec fn reloads_exactly(
    cmds: Seq<PlayerCommand>,
    n: int,
    chosen: spec_fn(int) -> bool,
    url: spec_fn(int) -> int,
) -> bool {
    &&& forall|j: int|
        0 <= j < cmds.len() ==> {
            let i = command_source(#[trigger] cmds[j]);
            &&& 0 <= i < n
            &&& chosen(i)
            &&& cmds[j] == (PlayerCommand::LoadFile { source: i as usize, url_index: url(i) as usize, replace: true })
        }
    &&& forall|j1: int, j2: int|
        0 <= j1 < j2 < cmds.len() ==> command_source(#[trigger] cmds[j1]) < command_source(#[trigger] cmds[j2])
    &&& forall|i: int| 0 <= i < n && #[trigger] chosen(i) ==> exists|j: int| 0 <= j < cmds.len() && command_source(cmds[j]) == i
}

proof fn lemma_reloads_push(
    cmds: Seq<PlayerCommand>,
    n: int,
    chosen: spec_fn(int) -> bool,
    url: spec_fn(int) -> int,
)
    requires
        0 <= n <= usize::MAX,
        reloads_exactly(cmds, n, chosen, url),
        0 <= url(n) <= usize::MAX,
    ensures
        chosen(n) ==> reloads_exactly(
            cmds.push(PlayerCommand::LoadFile { source: n as usize, url_index: url(n) as usize, replace: true }),
            n + 1,
            chosen,
            url,
        ),
        !chosen(n) ==> reloads_exactly(cmds, n + 1, chosen, url),
{
    let c = PlayerCommand::LoadFile { source: n as usize, url_index: url(n) as usize, replace: true };
    let next = cmds.push(c);
    if chosen(n) {
        assert(command_source(c) == n);
        assert forall|j: int| 0 <= j < next.len() implies {
            let i = command_source(#[trigger] next[j]);
            &&& 0 <= i < n + 1
            &&& chosen(i)
            &&& next[j] == (PlayerCommand::LoadFile { source: i as usize, url_index: url(i) as usize, replace: true })
        } by {
            if j < cmds.len() {
                assert(next[j] == cmds[j]);
            }
        }
        assert forall|j1: int, j2: int| 0 <= j1 < j2 < next.len() implies command_source(#[trigger] next[j1])
            < command_source(#[trigger] next[j2]) by {
            assert(next[j1] == cmds[j1]);
            if j2 < cmds.len() {
                assert(next[j2] == cmds[j2]);
            }
        }
        assert forall|i: int| 0 <= i < n + 1 && #[trigger] chosen(i) implies exists|j: int|
            0 <= j < next.len() && command_source(next[j]) == i by {
            if i < n {
                let j = choose|j: int| 0 <= j < cmds.len() && command_source(cmds[j]) == i;
                assert(next[j] == cmds[j]);
            } else {
                assert(command_source(next[cmds.len() as int]) == i);
            }
        }
    } else {
        assert forall|i: int| 0 <= i < n + 1 && #[trigger] chosen(i) implies exists|j: int|
            0 <= j < cmds.len() && command_source(cmds[j]) == i by {
        }
    }
}

/// Whether a retry reloads a source: its stream dropped out or stalls.
pub open spec fn needs_retry(s: SourceView) -> bool {
    s.disconnected || s.buffering
}

proof fn lemma_retry_commands_reload(sources: Seq<SourceView>, k: int)
    requires
        0 <= k <= sources.len(),
        sources.len() <= usize::MAX,
    ensures
        reloads_exactly(retry_commands(sources, k), k, |i: int| needs_retry(sources[i]), |i: int| 0),
    decreases k,
{
    if k > 0 {
        lemma_retry_commands_reload(sources, k - 1);
        lemma_reloads_push(retry_commands(sources, k - 1), k - 1, |i: int| needs_retry(sources[i]), |i: int| 0);
    }
}

/// A retry sets every source whose stream dropped out or stalls (it is
/// disconnected or buffering) back to its first address and reloads it,
/// replacing what plays, once, in order of source; it reloads no other
/// source and changes nothing else.
pub proof fn lemma_retry_reloads_dropped_streams(m: MixerView)
    requires
        m.wf(),
    ensures
        ({
            let r = m.retry_disconnected();
            &&& r.sources.len() == m.sources.len()
            &&& forall|i: int|
                0 <= i < m.sources.len() && (m.sources[i].disconnected || m.sources[i].buffering) ==> #[trigger] r.sources[i]
                    == (SourceView { url_index: 0, ..m.sources[i] })
            &&& forall|i: int|
                0 <= i < m.sources.len() && !(m.sources[i].disconnected || m.sources[i].buffering) ==> #[trigger] r.sources[i]
                    == m.sources[i]
            &&& r == (MixerView { sources: r.sources, ..m })
            &&& reloads_exactly(
                retry_commands(m.sources, m.sources.len() as int),
                m.sources.len() as int,
                |i: int| m.sources[i].disconnected || m.sources[i].buffering,
                |i: int| 0,
            )
        }),
{
    lemma_retry_commands_reload(m.sources, m.sources.len() as int);
    assert((|i: int| needs_retry(m.sources[i])) =~= (|i: int| m.sources[i].disconnected || m.sources[i].buffering));
}

proof fn lemma_connection_commands_reload(m: MixerView, probes: Seq<Probe>, k: int)
    requires
        m.wf(),
        probes.len() == m.sources.len(),
        0 <= k <= m.sources.len(),
    ensures
        reloads_exactly(
            connection_commands(m.sources, probes, k),
            k,
            |i: int| probe_loads_next(m.sources[i], probes[i]),
            |i: int| m.sources[i].url_index + 1,
        ),
    decreases k,
{
    if k > 0 {
        lemma_connection_commands_reload(m, probes, k - 1);
        let s = m.sources[k - 1];
        if probe_loads_next(s, probes[k - 1]) {
            assert(s.url_index + 1 < s.urls.len());
        }
        assert(0 <= s.url_index < s.urls.len() && s.urls.len() <= usize::MAX);
        if !probe_loads_next(s, probes[k - 1]) || s.url_index + 1 <= usize::MAX {
            lemma_reloads_push(
                connection_commands(m.sources, probes, k - 1),
                k - 1,
                |i: int| probe_loads_next(m.sources[i], probes[i]),
                |i: int| m.sources[i].url_index + 1,
            );
        }
    }
}

/// Probing makes a player load an address, replacing what plays, exactly
/// when its source moved to another address, once, in order of source, and
/// the address loaded is the one moved to.
pub proof fn lemma_probe_loads_exactly_moved_streams(m: MixerView, probes: Seq<Probe>)
    requires
        m.wf(),
        probes.len() == m.sources.len(),
    ensures
        ({
            let r = m.check_connection_states(probes);
            reloads_exactly(
                connection_commands(m.sources, probes, m.sources.len() as int),
                m.sources.len() as int,
                |i: int| r.sources[i].url_index != m.sources[i].url_index,
                |i: int| r.sources[i].url_index,
            )
        }),
{
    let n = m.sources.len() as int;
    let r = m.check_connection_states(probes);
    lemma_connection_commands_reload(m, probes, n);
    let c = connection_commands(m.sources, probes, n);
    let f1 = |i: int| probe_loads_next(m.sources[i], probes[i]);
    let g1 = |i: int| m.sources[i].url_index + 1;
    let f2 = |i: int| r.sources[i].url_index != m.sources[i].url_index;
    let g2 = |i: int| r.sources[i].url_index;
    assert forall|i: int| 0 <= i < n implies #[trigger] f1(i) == f2(i) && (f1(i) ==> g1(i) == g2(i)) by {
        assert(r.sources[i] == probed(m.sources[i], probes[i]));
    }
    assert forall|j: int| 0 <= j < c.len() implies {
        let i = command_source(#[trigger] c[j]);
        &&& 0 <= i < n
        &&& f2(i)
        &&& c[j] == (PlayerCommand::LoadFile { source: i as usize, url_index: g2(i) as usize, replace: true })
    } by {
        let i = command_source(c[j]);
        assert(f1(i));
    }
    assert forall|i: int| 0 <= i < n && #[trigger] f2(i) implies exists|j: int|
        0 <= j < c.len() && command_source(c[j]) == i by {
        assert(f1(i));
    }
}

} // verus!
