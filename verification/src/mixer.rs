use vstd::prelude::*;

use crate::config::{Config, ConfigSource};
use crate::keys::KeyAction;
use crate::screen::{line_text, name_can_be_shown, row_text, shown_name, LinkStatus, SourceRow, SHOWN_NAME_LIMIT};
use vstd::string::StringExecFns;
use crate::state::{SourceState, State};
use vstd::arithmetic::div_mod::{lemma_small_mod, lemma_mod_add_multiples_vanish};
use vstd::utf8::{decode_utf8, encode_utf8, encode_utf8_decode_utf8, is_char_boundary};

verus! {

/// How long after the last retry the streams that dropped out are loaded again.
pub const RETRY_INTERVAL_MS: u64 = 15000;

/// At most this many bytes of the first address name a source that has no name.
pub const NAME_LIMIT: usize = 40;

/// What the player of a source is to do after a change of the mixer.
#[derive(PartialEq, Eq, Structural, Debug, Clone, Copy)]
pub enum PlayerCommand {
    /// Play at `level` steps out of the mixer's `max_volume`.
    SetVolume { source: usize, level: i32 },
    /// Play at volume zero.
    Silence { source: usize },
    /// Load the source's address number `url_index`, replacing what plays when `replace`.
    LoadFile { source: usize, url_index: usize, replace: bool },
}

/// What a source's player reports of its playback; `None` where it could not say.
#[derive(Debug, Clone, Copy)]
pub struct Probe {
    pub idle: Option<bool>,
    pub paused_for_cache: Option<bool>,
    pub core_idle: Option<bool>,
}

/// One stream of the mixer.
pub struct Source {
    pub name: String,
    pub urls: Vec<String>,
    pub url_index: usize,
    pub volume: i32,
    pub muted: bool,
    pub previous_volume: i32,
    pub is_local: bool,
    pub buffering: bool,
    pub disconnected: bool,
    pub seen_playback: bool,
}

struct SourceSnapshot {
    volume: i32,
    muted: bool,
    previous_volume: i32,
}

/// The volume, the mute flag and the volume to return to on unmute.
pub struct Levels {
    pub volume: int,
    pub muted: bool,
    pub previous_volume: int,
}

/// A source as the contracts see it: its label, its addresses, the one it
/// plays, its levels, and what is known of its stream.
pub struct SourceView {
    pub name: Seq<char>,
    pub urls: Seq<Seq<char>>,
    pub url_index: int,
    pub volume: int,
    pub muted: bool,
    pub previous_volume: int,
    pub is_local: bool,
    pub buffering: bool,
    pub disconnected: bool,
    pub seen_playback: bool,
}

impl View for Source {
    type V = SourceView;

    open spec fn view(&self) -> SourceView {
        SourceView {
            name: self.name@,
            urls: self.urls@.map_values(|u: String| u@),
            url_index: self.url_index as int,
            volume: self.volume as int,
            muted: self.muted,
            previous_volume: self.previous_volume as int,
            is_local: self.is_local,
            buffering: self.buffering,
            disconnected: self.disconnected,
            seen_playback: self.seen_playback,
        }
    }
}

impl View for SourceSnapshot {
    type V = Levels;

    closed spec fn view(&self) -> Levels {
        Levels { volume: self.volume as int, muted: self.muted, previous_volume: self.previous_volume as int }
    }
}

impl SourceView {
    pub open spec fn levels(self) -> Levels {
        Levels { volume: self.volume, muted: self.muted, previous_volume: self.previous_volume }
    }

    pub open spec fn with_levels(self, l: Levels) -> SourceView {
        SourceView { volume: l.volume, muted: l.muted, previous_volume: l.previous_volume, ..self }
    }
}

/// The mixer as the contracts see it.
pub struct MixerView {
    pub sources: Seq<SourceView>,
    pub current_index: int,
    pub max_volume: int,
    pub volume_step: int,
    pub global_mute: bool,
    pub dirty: bool,
    /// The levels kept while the global mute is on.
    pub saved: Option<Seq<Levels>>,
}

/// The mixer: its sources, the selected one, the volume scale, the global
/// mute and whether the screen must be drawn again.
pub struct Mixer {
    pub sources: Vec<Source>,
    pub current_index: usize,
    pub max_volume: i32,
    pub volume_step: i32,
    pub global_mute: bool,
    pub dirty: bool,
    saved_states: Option<Vec<SourceSnapshot>>,
}

/// The sources as the contracts see them.
pub open spec fn sources_view(v: Seq<Source>) -> Seq<SourceView> {
    Seq::new(v.len(), |i: int| v[i]@)
}

spec fn snapshots_view(v: Seq<SourceSnapshot>) -> Seq<Levels> {
    Seq::new(v.len(), |i: int| v[i]@)
}

impl View for Mixer {
    type V = MixerView;

    closed spec fn view(&self) -> MixerView {
        MixerView {
            sources: sources_view(self.sources@),
            current_index: self.current_index as int,
            max_volume: self.max_volume as int,
            volume_step: self.volume_step as int,
            global_mute: self.global_mute,
            dirty: self.dirty,
            saved: match self.saved_states {
                Some(v) => Some(snapshots_view(v@)),
                None => None,
            },
        }
    }
}

/// `x` held within `lo..=hi`.
pub open spec fn clamp(x: int, lo: int, hi: int) -> int {
    if x < lo {
        lo
    } else if x > hi {
        hi
    } else {
        x
    }
}

/// The first bytes, at most `NAME_LIMIT` of them, of an address, as text.
pub open spec fn truncated_name(url: Seq<char>) -> Seq<char> {
    let bytes = encode_utf8(url);
    let k = if bytes.len() < NAME_LIMIT { bytes.len() as int } else { NAME_LIMIT as int };
    decode_utf8(bytes.subrange(0, k))
}

/// The label of a source: its configured name, or else the start of its first address.
pub open spec fn name_for(name: Seq<char>, first_url: Seq<char>) -> Seq<char> {
    if name.len() == 0 {
        truncated_name(first_url)
    } else {
        name
    }
}

/// Whether the label can be cut from the first address: the cut must fall
/// between two characters.
pub open spec fn name_can_be_cut(name: Seq<char>, first_url: Seq<char>) -> bool {
    let bytes = encode_utf8(first_url);
    let k = if bytes.len() < NAME_LIMIT { bytes.len() as int } else { NAME_LIMIT as int };
    name.len() > 0 || is_char_boundary(bytes, k)
}

/// Whether a configured source can be added: it has an address, and its label can be made.
pub open spec fn can_add(cs: ConfigSource) -> bool {
    cs.urls@.len() > 0 && name_can_be_cut(cs.name@, cs.urls@[0]@)
}

/// Whether every address exists on disk; a source whose addresses all do
/// is played locally, without fetching through youtube-dl.
pub open spec fn all_exist(exists: Seq<bool>) -> bool {
    forall|i: int| 0 <= i < exists.len() ==> #[trigger] exists[i]
}

/// Whether a source is local: every one of its addresses exists on disk,
/// `exists[i]` telling it of address `i`.
pub fn is_local_source(exists: &Vec<bool>) -> (r: bool)
    ensures
        r == all_exist(exists@),
{
    let mut i: usize = 0;
    while i < exists.len()
        invariant
            i <= exists@.len(),
            forall|j: int| 0 <= j < i ==> #[trigger] exists@[j],
        decreases exists@.len() - i,
    {
        if !exists[i] {
            return false;
        }
        i = i + 1;
    }
    true
}

/// The `ytdl` option of a source's player: off for a local source, on for a stream.
pub fn ytdl_option(is_local: bool) -> (r: &'static str)
    ensures
        r@ == (if is_local { "no"@ } else { "yes"@ }),
{
    if is_local {
        "no"
    } else {
        "yes"
    }
}

/// A newly added source: at volume zero, unmuted, playing its first address.
pub open spec fn fresh_source(cs: ConfigSource, is_local: bool) -> SourceView {
    SourceView {
        name: name_for(cs.name@, cs.urls@[0]@),
        urls: cs.urls@.map_values(|u: String| u@),
        url_index: 0,
        volume: 0,
        muted: false,
        previous_volume: 0,
        is_local,
        buffering: false,
        disconnected: false,
        seen_playback: false,
    }
}

/// The levels of saved source states, in order.
pub open spec fn state_levels(st: Seq<SourceState>) -> Seq<Levels> {
    Seq::new(
        st.len(),
        |i: int| Levels { volume: st[i].volume as int, muted: st[i].muted, previous_volume: st[i].previous_volume as int },
    )
}

/// What the players of the first sources are told when they take saved
/// levels: one command for each source that has saved levels.
pub open spec fn restore_commands(n: int, st: Seq<Levels>) -> Seq<PlayerCommand> {
    let k = if st.len() < n { st.len() as int } else { n };
    Seq::new(k as nat, |i: int| level_command(i, st[i]))
}

/// What the players of the first `k` sources are told when they are
/// created: load the first address, then play silently.
pub open spec fn open_commands(k: int) -> Seq<PlayerCommand>
    decreases k,
{
    if k <= 0 {
        Seq::empty()
    } else {
        open_commands(k - 1) + seq![
            PlayerCommand::LoadFile { source: (k - 1) as usize, url_index: 0, replace: false },
            PlayerCommand::Silence { source: (k - 1) as usize },
        ]
    }
}

/// The mixer of a configuration before any source is added.
pub open spec fn empty_mixer(max_volume: int, volume_step: int) -> MixerView {
    MixerView {
        sources: Seq::empty(),
        current_index: 0,
        max_volume,
        volume_step,
        global_mute: false,
        dirty: true,
        saved: None,
    }
}

/// The mixer of a configuration with all its sources added, the source
/// numbered `i` local when every one of its addresses exists on disk, as
/// `exists[i]` tells address by address.
pub open spec fn configured(config: Config, exists: Seq<Vec<bool>>) -> MixerView {
    MixerView {
        sources: Seq::new(config.sources@.len(), |i: int| fresh_source(config.sources@[i], all_exist(exists[i]@))),
        ..empty_mixer(config.max_volume as int, config.volume_step as int)
    }
}

/// Whether every source of a configuration can be added.
pub open spec fn can_configure(config: Config) -> bool {
    forall|i: int| 0 <= i < config.sources@.len() ==> #[trigger] can_add(config.sources@[i])
}

/// Whether a source's player has been seen playing, the probe included.
pub open spec fn seen_after(s: SourceView, p: Probe) -> bool {
    s.seen_playback || p.core_idle == Some(false) || (p.idle == Some(false) && p.paused_for_cache is Some)
}

/// Whether a source has an address after the one it plays.
pub open spec fn can_advance(s: SourceView) -> bool {
    s.url_index + 1 < s.urls.len()
}

/// A source after its player was probed. A local source is never
/// disconnected. A stream is judged only once it has been seen playing:
/// waiting for its cache, it is buffering; idle, it moves to its next
/// address, or, having none, is disconnected; else it plays.
pub open spec fn probed(s: SourceView, p: Probe) -> SourceView {
    if s.is_local {
        SourceView { disconnected: false, ..s }
    } else if !seen_after(s, p) {
        s
    } else if p.paused_for_cache == Some(true) {
        SourceView { seen_playback: true, buffering: true, disconnected: false, ..s }
    } else if p.idle == Some(true) {
        if can_advance(s) {
            SourceView { seen_playback: true, buffering: false, url_index: s.url_index + 1, disconnected: false, ..s }
        } else {
            SourceView { seen_playback: true, buffering: false, disconnected: true, ..s }
        }
    } else {
        SourceView { seen_playback: true, buffering: false, disconnected: false, ..s }
    }
}

/// Whether probing a source changes what the screen shows of it: it starts
/// buffering, becomes disconnected, stops being either, or is local and
/// stops being disconnected.
pub open spec fn probe_marks_dirty(s: SourceView, p: Probe) -> bool {
    if s.is_local {
        s.disconnected
    } else if !seen_after(s, p) {
        false
    } else if p.paused_for_cache == Some(true) {
        !s.buffering
    } else if p.idle == Some(true) {
        !can_advance(s) && !s.disconnected
    } else {
        s.buffering || s.disconnected
    }
}

/// Whether probing a source makes its player load its next address.
pub open spec fn probe_loads_next(s: SourceView, p: Probe) -> bool {
    !s.is_local && seen_after(s, p) && p.paused_for_cache != Some(true) && p.idle == Some(true) && can_advance(s)
}

/// Whether probing any of the first `k` sources changes the screen.
pub open spec fn any_marks_dirty(sources: Seq<SourceView>, probes: Seq<Probe>, k: int) -> bool
    decreases k,
{
    if k <= 0 {
        false
    } else {
        any_marks_dirty(sources, probes, k - 1) || probe_marks_dirty(sources[k - 1], probes[k - 1])
    }
}

/// The loads that probing the first `k` sources starts, in order.
pub open spec fn connection_commands(sources: Seq<SourceView>, probes: Seq<Probe>, k: int) -> Seq<PlayerCommand>
    decreases k,
{
    if k <= 0 {
        Seq::empty()
    } else {
        let rest = connection_commands(sources, probes, k - 1);
        let s = sources[k - 1];
        if probe_loads_next(s, probes[k - 1]) {
            rest.push(PlayerCommand::LoadFile { source: (k - 1) as usize, url_index: (s.url_index + 1) as usize, replace: true })
        } else {
            rest
        }
    }
}

/// A source whose stream dropped out or stalls set back to its first address.
pub open spec fn retried(s: SourceView) -> SourceView {
    if s.disconnected || s.buffering {
        SourceView { url_index: 0, ..s }
    } else {
        s
    }
}

/// The reloads of the first address that a retry of the first `k` sources starts.
pub open spec fn retry_commands(sources: Seq<SourceView>, k: int) -> Seq<PlayerCommand>
    decreases k,
{
    if k <= 0 {
        Seq::empty()
    } else {
        let rest = retry_commands(sources, k - 1);
        if sources[k - 1].disconnected || sources[k - 1].buffering {
            rest.push(PlayerCommand::LoadFile { source: (k - 1) as usize, url_index: 0, replace: true })
        } else {
            rest
        }
    }
}

/// The volume the screen shows of a source: the one to return to when muted.
pub open spec fn shown_volume(s: SourceView) -> int {
    if s.muted {
        s.previous_volume
    } else {
        s.volume
    }
}

/// What the screen says of a source's stream: disconnected before buffering.
pub open spec fn status_of(s: SourceView) -> LinkStatus {
    if s.disconnected {
        LinkStatus::Disconnected
    } else if s.buffering {
        LinkStatus::Buffering
    } else {
        LinkStatus::Playing
    }
}

/// Whether `r` is the screen line of source `i` of `m`.
pub open spec fn row_matches(r: SourceRow, m: MixerView, i: int) -> bool {
    let s = m.sources[i];
    &&& r.selected == (i == m.current_index)
    &&& r.name@ == shown_name(s.name)
    &&& r.level as int == shown_volume(s)
    &&& r.max_volume as int == m.max_volume
    &&& r.muted == s.muted
    &&& r.url_position == url_position_of(s)
    &&& r.status == status_of(s)
}

/// The one-based position of the played address and the number of
/// addresses, shown only when there are several.
pub open spec fn url_position_of(s: SourceView) -> Option<(usize, usize)> {
    if s.urls.len() > 1 {
        Some(((s.url_index + 1) as usize, s.urls.len() as usize))
    } else {
        None
    }
}

/// The line of the screen that shows source `i` of `m`.
pub open spec fn source_line(m: MixerView, i: int) -> Seq<char> {
    let s = m.sources[i];
    line_text(
        i == m.current_index,
        shown_name(s.name),
        shown_volume(s) as nat,
        m.max_volume as nat,
        s.muted,
        url_position_of(s),
        status_of(s),
    )
}

/// The lines of the first `k` sources, each ended by a newline.
pub open spec fn lines_text(m: MixerView, k: int) -> Seq<char>
    decreases k,
{
    if k <= 0 {
        Seq::empty()
    } else {
        lines_text(m, k - 1) + source_line(m, k - 1) + "\n"@
    }
}

/// The first part of the screen: clear it, home the cursor, and the title.
pub open spec fn screen_head() -> Seq<char> {
    "\x1b[2J\x1b[H"@ + "=== noize ===\n"@
}

/// The keys, below the lines of the sources.
pub open spec fn screen_controls() -> Seq<char> {
    "\nControls: j/k=scroll, h/l=volume down/up, m=mute/unmute, space=global mute, 0-9=set volume, q=quit\n"@
}

/// The whole screen: the title, a line for each source, the keys, and a
/// notice while the global mute is on.
pub open spec fn screen_text(m: MixerView) -> Seq<char> {
    screen_head() + lines_text(m, m.sources.len() as int) + screen_controls() + if m.global_mute {
        "*** GLOBAL MUTE ACTIVE ***\n"@
    } else {
        Seq::empty()
    }
}

/// What the player of source `i` is told when it takes the levels `l`.
pub open spec fn level_command(i: int, l: Levels) -> PlayerCommand {
    if l.muted {
        PlayerCommand::Silence { source: i as usize }
    } else {
        PlayerCommand::SetVolume { source: i as usize, level: l.volume as i32 }
    }
}

/// Both volumes fit an `i32`.
pub open spec fn levels_fit(l: Levels) -> bool {
    &&& i32::MIN <= l.volume <= i32::MAX
    &&& i32::MIN <= l.previous_volume <= i32::MAX
}

impl MixerView {
    /// The selection is a source, or 0 when there is none; every source has
    /// an address and plays one of them; every number fits the machine type
    /// that holds it (`i32` for volumes and steps, `usize` for positions).
    pub open spec fn wf(self) -> bool {
        &&& (self.current_index == 0 || 0 <= self.current_index < self.sources.len())
        &&& 0 <= self.current_index <= usize::MAX
        &&& self.sources.len() <= usize::MAX
        &&& i32::MIN <= self.max_volume <= i32::MAX
        &&& i32::MIN <= self.volume_step <= i32::MAX
        &&& forall|i: int|
            0 <= i < self.sources.len() ==> {
                &&& #[trigger] self.sources[i].urls.len() > 0
                &&& self.sources[i].urls.len() <= usize::MAX
                &&& 0 <= self.sources[i].url_index < self.sources[i].urls.len()
                &&& levels_fit(self.sources[i].levels())
            }
        &&& self.saved matches Some(st) ==> forall|j: int| 0 <= j < st.len() ==> levels_fit(#[trigger] st[j])
    }

    pub open spec fn scroll_up(self) -> MixerView {
        let n = self.sources.len();
        if n == 0 {
            self
        } else {
            MixerView { current_index: (self.current_index + n - 1) % (n as int), dirty: true, ..self }
        }
    }

    pub open spec fn scroll_down(self) -> MixerView {
        let n = self.sources.len();
        if n == 0 {
            self
        } else {
            MixerView { current_index: (self.current_index + 1) % (n as int), dirty: true, ..self }
        }
    }

    /// The selected source moved by `delta` steps, held within the scale.
    pub open spec fn adjust_volume(self, delta: int) -> MixerView {
        if self.sources.len() == 0 {
            self
        } else {
            let c = self.current_index;
            let s = self.sources[c];
            MixerView {
                sources: self.sources.update(
                    c,
                    SourceView { volume: clamp(s.volume + delta, 0, self.max_volume), ..s },
                ),
                dirty: true,
                ..self
            }
        }
    }

    /// The selected source muted, keeping its volume to return to, or
    /// unmuted back to that volume.
    pub open spec fn toggle_mute(self) -> MixerView {
        if self.sources.len() == 0 {
            self
        } else {
            let c = self.current_index;
            let s = self.sources[c];
            let t = if s.muted {
                SourceView { volume: s.previous_volume, muted: false, ..s }
            } else {
                SourceView { previous_volume: s.volume, volume: 0, muted: true, ..s }
            };
            MixerView { sources: self.sources.update(c, t), dirty: true, ..self }
        }
    }

    /// The selected source set to `level` steps, held within the scale, and unmuted.
    pub open spec fn set_volume_direct(self, level: int) -> MixerView {
        if self.sources.len() == 0 {
            self
        } else {
            let c = self.current_index;
            let s = self.sources[c];
            MixerView {
                sources: self.sources.update(
                    c,
                    SourceView { muted: false, volume: clamp(level, 0, self.max_volume), ..s },
                ),
                dirty: true,
                ..self
            }
        }
    }

    /// The selected source's volume, for its player, whatever its mute flag.
    pub open spec fn selected_volume_commands_unmuted(self) -> Seq<PlayerCommand> {
        if self.sources.len() == 0 {
            Seq::empty()
        } else {
            let c = self.current_index;
            seq![PlayerCommand::SetVolume { source: c as usize, level: self.sources[c].volume as i32 }]
        }
    }

    /// What the player of the selected source is told after a change of its
    /// levels: silence when muted, else its volume.
    pub open spec fn selected_volume_commands(self) -> Seq<PlayerCommand> {
        if self.sources.len() == 0 {
            Seq::empty()
        } else {
            let c = self.current_index;
            if self.sources[c].muted {
                seq![PlayerCommand::Silence { source: c as usize }]
            } else {
                seq![PlayerCommand::SetVolume { source: c as usize, level: self.sources[c].volume as i32 }]
            }
        }
    }

    /// Every source muted, each keeping its volume to return to.
    pub open spec fn all_muted(sources: Seq<SourceView>) -> Seq<SourceView> {
        Seq::new(
            sources.len(),
            |i: int| SourceView { previous_volume: sources[i].volume, volume: 0, muted: true, ..sources[i] },
        )
    }

    /// Each source that has saved levels given them back.
    pub open spec fn restored(sources: Seq<SourceView>, saved: Seq<Levels>) -> Seq<SourceView> {
        Seq::new(
            sources.len(),
            |i: int| if i < saved.len() { sources[i].with_levels(saved[i]) } else { sources[i] },
        )
    }

    /// Turns the global mute on, saving every source's levels and muting
    /// each, or off, giving back the saved levels.
    pub open spec fn toggle_global_mute(self) -> MixerView {
        if self.sources.len() == 0 {
            self
        } else if self.global_mute {
            MixerView {
                sources: match self.saved {
                    Some(st) => Self::restored(self.sources, st),
                    None => self.sources,
                },
                saved: None,
                global_mute: false,
                dirty: true,
                ..self
            }
        } else {
            MixerView {
                sources: Self::all_muted(self.sources),
                saved: Some(self.saved_levels()),
                global_mute: true,
                dirty: true,
                ..self
            }
        }
    }

    /// What the players are told when the global mute is turned on or off.
    pub open spec fn toggle_global_mute_commands(self) -> Seq<PlayerCommand> {
        let n = self.sources.len();
        if n == 0 {
            Seq::empty()
        } else if self.global_mute {
            match self.saved {
                Some(st) => restore_commands(n as int, st),
                None => Seq::empty(),
            }
        } else {
            Seq::new(n, |i: int| PlayerCommand::Silence { source: i as usize })
        }
    }

    /// A source appended.
    pub open spec fn add_source(self, s: SourceView) -> MixerView {
        MixerView { sources: self.sources.push(s), ..self }
    }

    /// Saved levels given to the sources that have them, the saved
    /// selection held within the sources, and the screen to be drawn.
    pub open spec fn load_state(self, st: Seq<Levels>, index: int) -> MixerView {
        let n = self.sources.len() as int;
        MixerView {
            sources: Self::restored(self.sources, st),
            current_index: if n == 0 { 0 } else if index < n - 1 { index } else { n - 1 },
            dirty: true,
            ..self
        }
    }

    /// The levels that a saved state keeps of the sources, in order.
    pub open spec fn saved_levels(self) -> Seq<Levels> {
        Seq::new(self.sources.len(), |i: int| self.sources[i].levels())
    }

    /// Every source after its player was probed; the screen is to be drawn
    /// again when any of them changed what it shows.
    pub open spec fn check_connection_states(self, probes: Seq<Probe>) -> MixerView {
        let n = self.sources.len() as int;
        MixerView {
            sources: Seq::new(n as nat, |i: int| probed(self.sources[i], probes[i])),
            dirty: self.dirty || any_marks_dirty(self.sources, probes, n),
            ..self
        }
    }

    /// Every stream that dropped out or stalls set back to its first address.
    pub open spec fn retry_disconnected(self) -> MixerView {
        MixerView { sources: Seq::new(self.sources.len(), |i: int| retried(self.sources[i])), ..self }
    }

    /// Whether every source can be drawn: its shown volume lies within the
    /// scale and its label can be cut.
    pub open spec fn renderable(self) -> bool {
        forall|i: int|
            0 <= i < self.sources.len() ==> 0 <= #[trigger] shown_volume(self.sources[i]) <= self.max_volume
                && name_can_be_shown(self.sources[i].name)
    }

    /// Whether the mixer can carry out a key's action without an overflow
    /// and within a scale that is not negative.
    pub open spec fn can_perform(self, a: KeyAction) -> bool {
        let n = self.sources.len();
        let c = self.current_index;
        match a {
            KeyAction::VolumeDown => self.volume_step > i32::MIN && (n > 0 ==> self.max_volume >= 0
                && i32::MIN <= self.sources[c].volume - self.volume_step <= i32::MAX),
            KeyAction::VolumeUp => n > 0 ==> self.max_volume >= 0
                && i32::MIN <= self.sources[c].volume + self.volume_step <= i32::MAX,
            KeyAction::SetVolume(_) => n > 0 ==> self.max_volume >= 0,
            _ => true,
        }
    }

    /// The mixer after a key's action.
    pub open spec fn perform(self, a: KeyAction) -> MixerView {
        match a {
            KeyAction::ScrollDown => self.scroll_down(),
            KeyAction::ScrollUp => self.scroll_up(),
            KeyAction::VolumeDown => self.adjust_volume(-self.volume_step),
            KeyAction::VolumeUp => self.adjust_volume(self.volume_step),
            KeyAction::ToggleMute => self.toggle_mute(),
            KeyAction::ToggleGlobalMute => self.toggle_global_mute(),
            KeyAction::SetVolume(v) => self.set_volume_direct(v as int),
            _ => self,
        }
    }

    /// What the players are told after a key's action.
    pub open spec fn perform_commands(self, a: KeyAction) -> Seq<PlayerCommand> {
        match a {
            KeyAction::VolumeDown => self.perform(a).selected_volume_commands_unmuted(),
            KeyAction::VolumeUp => self.perform(a).selected_volume_commands_unmuted(),
            KeyAction::ToggleMute => self.perform(a).selected_volume_commands(),
            KeyAction::ToggleGlobalMute => self.toggle_global_mute_commands(),
            KeyAction::SetVolume(_) => self.perform(a).selected_volume_commands(),
            _ => Seq::empty(),
        }
    }

    pub open spec fn clear_dirty(self) -> MixerView {
        MixerView { dirty: false, ..self }
    }
}

/// Moves a source to its next address when it has one.
fn try_next_url(src: &mut Source) -> (advanced: bool)
    requires
        old(src)@.url_index < old(src)@.urls.len(),
    ensures
        advanced == can_advance(old(src)@),
        advanced ==> final(src)@ == (SourceView { url_index: old(src)@.url_index + 1, ..old(src)@ }),
        !advanced ==> final(src)@ == old(src)@,
{
    assert(src.urls@.len() == old(src)@.urls.len());
    if src.urls.len() - src.url_index > 1 {
        src.url_index = src.url_index + 1;
        true
    } else {
        false
    }
}

/// Judges one source by what its player reports; the flags say whether the
/// screen must show the change and whether the player must load the
/// source's next address.
fn probe_source(src: &mut Source, p: Probe) -> (r: (bool, bool))
    requires
        0 <= old(src)@.url_index < old(src)@.urls.len(),
    ensures
        final(src)@ == probed(old(src)@, p),
        r.0 == probe_marks_dirty(old(src)@, p),
        r.1 == probe_loads_next(old(src)@, p),
{
    if src.is_local {
        let changed = src.disconnected;
        src.disconnected = false;
        return (changed, false);
    }
    if !src.seen_playback && (p.core_idle == Some(false) || (p.idle == Some(false) && p.paused_for_cache.is_some())) {
        src.seen_playback = true;
    }
    if !src.seen_playback {
        return (false, false);
    }
    let was_buffering = src.buffering;
    let was_disconnected = src.disconnected;
    if p.paused_for_cache == Some(true) {
        src.buffering = true;
        src.disconnected = false;
        (!was_buffering, false)
    } else if p.idle == Some(true) {
        src.buffering = false;
        if try_next_url(src) {
            src.disconnected = false;
            (false, true)
        } else {
            src.disconnected = true;
            (!was_disconnected, false)
        }
    } else {
        src.buffering = false;
        src.disconnected = false;
        (was_buffering || was_disconnected, false)
    }
}

/// The label of a configured source: its name, or the start of its first address.
fn source_name(src: &ConfigSource) -> (r: String)
    requires
        can_add(*src),
    ensures
        r@ == name_for(src.name@, src.urls@[0]@),
{
    if !src.name.as_str().is_empty() {
        return src.name.clone();
    }
    let url = src.urls[0].as_str();
    let len = url.as_bytes().len();
    let k = if len < NAME_LIMIT { len } else { NAME_LIMIT };
    assert(url@ == src.urls@[0]@);
    let (head, _rest) = url.split_at(k);
    proof {
        encode_utf8_decode_utf8(head@);
    }
    head.to_owned()
}

impl Mixer {
    pub open spec fn wf(&self) -> bool {
        self@.wf()
    }

    /// Moves the selection one source up, from the first to the last.
    pub fn scroll_up(&mut self)
        requires
            old(self).wf(),
        ensures
            final(self).wf(),
            final(self)@ == old(self)@.scroll_up(),
    {
        if self.sources.len() > 0 {
            let len = self.sources.len();
            proof {
                let c = self.current_index as int;
                let n = len as int;
                if c == 0 {
                    lemma_small_mod((n - 1) as nat, n as nat);
                } else {
                    lemma_mod_add_multiples_vanish(c - 1, n);
                    lemma_small_mod((c - 1) as nat, n as nat);
                }
            }
            if self.current_index == 0 {
                self.current_index = len - 1;
            } else {
                self.current_index = self.current_index - 1;
            }
            self.dirty = true;
        }
    }

    /// Moves the selection one source down, from the last to the first.
    pub fn scroll_down(&mut self)
        requires
            old(self).wf(),
        ensures
            final(self).wf(),
            final(self)@ == old(self)@.scroll_down(),
    {
        if self.sources.len() > 0 {
            let len = self.sources.len();
            proof {
                let c = self.current_index as int;
                let n = len as int;
                if c + 1 == n {
                    lemma_mod_add_multiples_vanish(0, n);
                    lemma_small_mod(0, n as nat);
                } else {
                    lemma_small_mod((c + 1) as nat, n as nat);
                }
            }
            if self.current_index + 1 == len {
                self.current_index = 0;
            } else {
                self.current_index = self.current_index + 1;
            }
            self.dirty = true;
        }
    }

    /// Moves the volume of the selected source by `delta` steps, held
    /// within `0..=max_volume`; the mute flag is left as it is.
    pub fn adjust_volume(&mut self, delta: i32) -> (cmds: Vec<PlayerCommand>)
        requires
            old(self).wf(),
            old(self)@.sources.len() > 0 ==> {
                &&& old(self)@.max_volume >= 0
                &&& i32::MIN <= old(self)@.sources[old(self)@.current_index].volume + delta <= i32::MAX
            },
        ensures
            final(self).wf(),
            final(self)@ == old(self)@.adjust_volume(delta as int),
            cmds@ == final(self)@.selected_volume_commands_unmuted(),
    {
        let mut cmds: Vec<PlayerCommand> = Vec::new();
        if self.sources.len() == 0 {
            return cmds;
        }
        let c = self.current_index;
        let max = self.max_volume;
        let ghost old_sources = self.sources@;
        let src = &mut self.sources[c];
        let raised = src.volume + delta;
        let new_vol = if raised < 0 { 0 } else if raised > max { max } else { raised };
        src.volume = new_vol;
        self.dirty = true;
        proof {
            assert(self.sources@ == old_sources.update(c as int, self.sources@[c as int]));
            assert(sources_view(self.sources@) =~= sources_view(old_sources).update(c as int, self.sources@[c as int]@));
        }
        cmds.push(PlayerCommand::SetVolume { source: c, level: new_vol });
        cmds
    }

    /// Mutes the selected source, keeping its volume to return to, or
    /// unmutes it back to that volume.
    pub fn toggle_mute(&mut self) -> (cmds: Vec<PlayerCommand>)
        requires
            old(self).wf(),
        ensures
            final(self).wf(),
            final(self)@ == old(self)@.toggle_mute(),
            cmds@ == final(self)@.selected_volume_commands(),
    {
        let mut cmds: Vec<PlayerCommand> = Vec::new();
        if self.sources.len() == 0 {
            return cmds;
        }
        let c = self.current_index;
        let ghost old_sources = self.sources@;
        let src = &mut self.sources[c];
        if src.muted {
            src.volume = src.previous_volume;
            src.muted = false;
            cmds.push(PlayerCommand::SetVolume { source: c, level: src.volume });
        } else {
            src.previous_volume = src.volume;
            src.volume = 0;
            src.muted = true;
            cmds.push(PlayerCommand::Silence { source: c });
        }
        self.dirty = true;
        proof {
            assert(sources_view(self.sources@) =~= sources_view(old_sources).update(c as int, self.sources@[c as int]@));
        }
        cmds
    }

    /// Sets the selected source to `level` steps, held within
    /// `0..=max_volume`, and unmutes it.
    pub fn set_volume_direct(&mut self, level: i32) -> (cmds: Vec<PlayerCommand>)
        requires
            old(self).wf(),
            old(self)@.sources.len() > 0 ==> old(self)@.max_volume >= 0,
        ensures
            final(self).wf(),
            final(self)@ == old(self)@.set_volume_direct(level as int),
            cmds@ == final(self)@.selected_volume_commands(),
    {
        let mut cmds: Vec<PlayerCommand> = Vec::new();
        if self.sources.len() == 0 {
            return cmds;
        }
        let max = self.max_volume;
        let level = if level < 0 { 0 } else if level > max { max } else { level };
        let c = self.current_index;
        let ghost old_sources = self.sources@;
        let src = &mut self.sources[c];
        src.muted = false;
        src.volume = level;
        self.dirty = true;
        proof {
            assert(sources_view(self.sources@) =~= sources_view(old_sources).update(c as int, self.sources@[c as int]@));
        }
        cmds.push(PlayerCommand::SetVolume { source: c, level });
        cmds
    }

    /// Turns the global mute on, saving the levels of every source and
    /// muting each, or off, giving every source its saved levels back.
    pub fn toggle_global_mute(&mut self) -> (cmds: Vec<PlayerCommand>)
        requires
            old(self).wf(),
        ensures
            final(self).wf(),
            final(self)@ == old(self)@.toggle_global_mute(),
            cmds@ == old(self)@.toggle_global_mute_commands(),
    {
        let mut cmds: Vec<PlayerCommand> = Vec::new();
        let n = self.sources.len();
        if n == 0 {
            return cmds;
        }
        let ghost old_view = self@;
        let ghost old_sources = self.sources@;
        if self.global_mute {
            let saved = self.saved_states.take();
            match saved {
                Some(states) => {
                    let k = if states.len() < n { states.len() } else { n };
                    let mut i: usize = 0;
                    while i < n
                        invariant
                            i <= n,
                            n == self.sources@.len(),
                            n == old_sources.len(),
                            self.current_index == old(self).current_index,
                            self.max_volume == old(self).max_volume,
                            self.volume_step == old(self).volume_step,
                            self.global_mute == old(self).global_mute,
                            self.dirty == old(self).dirty,
                            self.saved_states is None,
                            k == (if states@.len() < n { states@.len() as int } else { n as int }),
                            forall|j: int| 0 <= j < i ==> #[trigger] self.sources@[j]@ == (
                                if j < states@.len() { old_sources[j]@.with_levels(states@[j]@) } else { old_sources[j]@ }),
                            forall|j: int| i <= j < n ==> #[trigger] self.sources@[j] == old_sources[j],
                            cmds@.len() == (if i < k { i as int } else { k as int }),
                            forall|j: int| 0 <= j < cmds@.len() ==> #[trigger] cmds@[j] == level_command(j, states@[j]@),
                        decreases n - i,
                    {
                        if i < states.len() {
                            let st = &states[i];
                            let src = &mut self.sources[i];
                            src.volume = st.volume;
                            src.muted = st.muted;
                            src.previous_volume = st.previous_volume;
                            if src.muted {
                                cmds.push(PlayerCommand::Silence { source: i });
                            } else {
                                cmds.push(PlayerCommand::SetVolume { source: i, level: src.volume });
                            }
                        }
                        i = i + 1;
                    }
                    proof {
                        assert(sources_view(self.sources@) =~= MixerView::restored(old_view.sources, snapshots_view(states@)));
                        assert(cmds@ =~= old_view.toggle_global_mute_commands());
                    }
                },
                None => {},
            }
            self.global_mute = false;
        } else {
            let mut states: Vec<SourceSnapshot> = Vec::new();
            let mut i: usize = 0;
            while i < n
                invariant
                    i <= n,
                    n == self.sources@.len(),
                    n == old_sources.len(),
                    self.current_index == old(self).current_index,
                    self.max_volume == old(self).max_volume,
                    self.volume_step == old(self).volume_step,
                    self.global_mute == old(self).global_mute,
                    self.dirty == old(self).dirty,
                    self.saved_states == old(self).saved_states,
                    states@.len() == i,
                    forall|j: int| 0 <= j < i ==> #[trigger] states@[j]@ == old_sources[j]@.levels(),
                    forall|j: int| 0 <= j < i ==> #[trigger] self.sources@[j]@ == (SourceView {
                        previous_volume: old_sources[j]@.volume, volume: 0, muted: true, ..old_sources[j]@ }),
                    forall|j: int| i <= j < n ==> #[trigger] self.sources@[j] == old_sources[j],
                    cmds@.len() == i,
                    forall|j: int| 0 <= j < i ==> #[trigger] cmds@[j] == (PlayerCommand::Silence { source: j as usize }),
                decreases n - i,
            {
                let src = &mut self.sources[i];
                states.push(SourceSnapshot { volume: src.volume, muted: src.muted, previous_volume: src.previous_volume });
                src.previous_volume = src.volume;
                src.volume = 0;
                src.muted = true;
                cmds.push(PlayerCommand::Silence { source: i });
                i = i + 1;
            }
            proof {
                assert(sources_view(self.sources@) =~= MixerView::all_muted(old_view.sources));
                assert(snapshots_view(states@) =~= old_view.saved_levels());
                assert(cmds@ =~= old_view.toggle_global_mute_commands());
            }
            self.saved_states = Some(states);
            self.global_mute = true;
        }
        self.dirty = true;
        cmds
    }

    /// Builds the mixer of a configuration, the source numbered `i` local
    /// when all its addresses exist on disk (`url_exists[i][j]` tells it of
    /// address `j`), and gives it the levels and the selection of `saved`
    /// when there is one; the commands set up each source's player.
    pub fn new(config: &Config, url_exists: &Vec<Vec<bool>>, saved: Option<&State>) -> (r: (Mixer, Vec<PlayerCommand>))
        requires
            url_exists@.len() == config.sources@.len(),
            forall|i: int| 0 <= i < url_exists@.len() ==> #[trigger] url_exists@[i]@.len() == config.sources@[i].urls@.len(),
            can_configure(*config),
        ensures
            r.0.wf(),
            r.0@ == match saved {
                Some(st) => configured(*config, url_exists@).load_state(state_levels(st.sources@), st.current_index as int),
                None => configured(*config, url_exists@),
            },
            r.1@ == open_commands(config.sources@.len() as int) + match saved {
                Some(st) => restore_commands(config.sources@.len() as int, state_levels(st.sources@)),
                None => Seq::<PlayerCommand>::empty(),
            },
    {
        let mut mixer = Mixer {
            sources: Vec::new(),
            current_index: 0,
            max_volume: config.max_volume,
            volume_step: config.volume_step,
            global_mute: false,
            dirty: true,
            saved_states: None,
        };
        let mut cmds: Vec<PlayerCommand> = Vec::new();
        let n = config.sources.len();
        let mut i: usize = 0;
        while i < n
            invariant
                i <= n,
                n == config.sources@.len(),
                n == url_exists@.len(),
                forall|j: int| 0 <= j < n ==> #[trigger] url_exists@[j]@.len() == config.sources@[j].urls@.len(),
                can_configure(*config),
                mixer.wf(),
                mixer@.sources.len() == i,
                mixer@.current_index == 0,
                mixer@.max_volume == config.max_volume,
                mixer@.volume_step == config.volume_step,
                !mixer@.global_mute,
                mixer@.dirty,
                mixer@.saved is None,
                forall|j: int| 0 <= j < i ==> #[trigger] mixer@.sources[j] == fresh_source(config.sources@[j], all_exist(url_exists@[j]@)),
                cmds@ == open_commands(i as int),
            decreases n - i,
        {
            proof {
                assert(can_add(config.sources@[i as int]));
            }
            let mut step = mixer.add_source(&config.sources[i], &url_exists[i]);
            cmds.append(&mut step);
            proof {
                assert(cmds@ =~= open_commands(i as int + 1));
            }
            i = i + 1;
        }
        proof {
            assert(mixer@.sources =~= configured(*config, url_exists@).sources);
        }
        match saved {
            Some(st) => {
                let mut more = mixer.load_state(st);
                cmds.append(&mut more);
            },
            None => {
                assert(cmds@ =~= open_commands(n as int) + Seq::<PlayerCommand>::empty());
            },
        }
        (mixer, cmds)
    }

    /// Appends a source made from its configuration, local when all its
    /// addresses exist on disk (`url_exists[j]` tells it of address `j`),
    /// and tells its new player to load the first address and to play
    /// silently.
    pub fn add_source(&mut self, src: &ConfigSource, url_exists: &Vec<bool>) -> (cmds: Vec<PlayerCommand>)
        requires
            old(self).wf(),
            can_add(*src),
            url_exists@.len() == src.urls@.len(),
        ensures
            final(self).wf(),
            final(self)@ == old(self)@.add_source(fresh_source(*src, all_exist(url_exists@))),
            cmds@ == seq![
                PlayerCommand::LoadFile { source: old(self)@.sources.len() as usize, url_index: 0, replace: false },
                PlayerCommand::Silence { source: old(self)@.sources.len() as usize },
            ],
    {
        let is_local = is_local_source(url_exists);
        let name = source_name(src);
        let urls = src.urls.clone();
        proof {
            assert(urls@ =~= src.urls@);
            assert(urls.len() <= usize::MAX);
        }
        let source = Source {
            name,
            urls,
            url_index: 0,
            volume: 0,
            muted: false,
            previous_volume: 0,
            is_local,
            buffering: false,
            disconnected: false,
            seen_playback: false,
        };
        let index = self.sources.len();
        let ghost old_sources = self.sources@;
        self.sources.push(source);
        proof {
            assert(self.sources.len() <= usize::MAX);
            assert(sources_view(self.sources@) =~= sources_view(old_sources).push(fresh_source(*src, is_local)));
        }
        let mut cmds: Vec<PlayerCommand> = Vec::new();
        cmds.push(PlayerCommand::LoadFile { source: index, url_index: 0, replace: false });
        cmds.push(PlayerCommand::Silence { source: index });
        cmds
    }

    /// Gives each source that has saved levels those levels, selects the
    /// saved source or the last one, and tells the players.
    pub fn load_state(&mut self, state: &State) -> (cmds: Vec<PlayerCommand>)
        requires
            old(self).wf(),
        ensures
            final(self).wf(),
            final(self)@ == old(self)@.load_state(state_levels(state.sources@), state.current_index as int),
            cmds@ == restore_commands(old(self)@.sources.len() as int, state_levels(state.sources@)),
    {
        let mut cmds: Vec<PlayerCommand> = Vec::new();
        let n = self.sources.len();
        let ghost old_sources = self.sources@;
        let ghost levels = state_levels(state.sources@);
        let k = if state.sources.len() < n { state.sources.len() } else { n };
        let mut i: usize = 0;
        while i < n
            invariant
                i <= n,
                n == self.sources@.len(),
                n == old_sources.len(),
                levels == state_levels(state.sources@),
                self.current_index == old(self).current_index,
                self.max_volume == old(self).max_volume,
                self.volume_step == old(self).volume_step,
                self.global_mute == old(self).global_mute,
                self.dirty == old(self).dirty,
                self.saved_states == old(self).saved_states,
                k == (if state.sources@.len() < n { state.sources@.len() as int } else { n as int }),
                forall|j: int| 0 <= j < i ==> #[trigger] self.sources@[j]@ == (
                    if j < levels.len() { old_sources[j]@.with_levels(levels[j]) } else { old_sources[j]@ }),
                forall|j: int| i <= j < n ==> #[trigger] self.sources@[j] == old_sources[j],
                cmds@.len() == (if i < k { i as int } else { k as int }),
                forall|j: int| 0 <= j < cmds@.len() ==> #[trigger] cmds@[j] == level_command(j, levels[j]),
            decreases n - i,
        {
            if i < state.sources.len() {
                let saved = &state.sources[i];
                let src = &mut self.sources[i];
                src.volume = saved.volume;
                src.muted = saved.muted;
                src.previous_volume = saved.previous_volume;
                if src.muted {
                    cmds.push(PlayerCommand::Silence { source: i });
                } else {
                    cmds.push(PlayerCommand::SetVolume { source: i, level: src.volume });
                }
            }
            i = i + 1;
        }
        let last = if n == 0 { 0 } else { n - 1 };
        self.current_index = if state.current_index < last { state.current_index } else { last };
        self.dirty = true;
        proof {
            assert(sources_view(self.sources@) =~= MixerView::restored(sources_view(old_sources), levels));
            assert(cmds@ =~= restore_commands(n as int, levels));
        }
        cmds
    }

    /// The state to keep until the next run: the selection and, for each
    /// source, its first address and its levels.
    pub fn save_state(&self) -> (st: State)
        requires
            self.wf(),
        ensures
            st.current_index as int == self@.current_index,
            st.sources@.len() == self@.sources.len(),
            state_levels(st.sources@) == self@.saved_levels(),
            forall|i: int| 0 <= i < st.sources@.len() ==> #[trigger] st.sources@[i].url@ == self@.sources[i].urls[0],
    {
        let mut sources: Vec<SourceState> = Vec::new();
        let n = self.sources.len();
        let mut i: usize = 0;
        while i < n
            invariant
                i <= n,
                n == self.sources@.len(),
                self.wf(),
                sources@.len() == i,
                forall|j: int| 0 <= j < i ==> #[trigger] sources@[j].url@ == self@.sources[j].urls[0],
                forall|j: int| 0 <= j < i ==> #[trigger] state_levels(sources@)[j] == self@.sources[j].levels(),
            decreases n - i,
        {
            let src = &self.sources[i];
            proof {
                assert(self@.sources[i as int] == src@);
                assert(self@.sources[i as int].urls.len() > 0);
            }
            let url = src.urls[0].clone();
            let ghost before = sources@;
            sources.push(SourceState { url, volume: src.volume, muted: src.muted, previous_volume: src.previous_volume });
            proof {
                assert forall|j: int| 0 <= j < i + 1 implies #[trigger] state_levels(sources@)[j] == self@.sources[j].levels() by {
                    if j < i {
                        assert(sources@[j] == before[j]);
                        assert(state_levels(before)[j] == self@.sources[j].levels());
                    }
                }
            }
            i = i + 1;
        }
        proof {
            assert(state_levels(sources@) =~= self@.saved_levels());
        }
        State { current_index: self.current_index, sources }
    }

    /// Reads what each source's player reports, `probes[i]` for source `i`,
    /// marks streams as buffering or disconnected, moves an idle stream to
    /// its next address, and tells the players that must load one.
    pub fn check_connection_states(&mut self, probes: &Vec<Probe>) -> (cmds: Vec<PlayerCommand>)
        requires
            old(self).wf(),
            probes@.len() == old(self)@.sources.len(),
        ensures
            final(self).wf(),
            final(self)@ == old(self)@.check_connection_states(probes@),
            cmds@ == connection_commands(old(self)@.sources, probes@, probes@.len() as int),
    {
        let mut cmds: Vec<PlayerCommand> = Vec::new();
        let n = self.sources.len();
        let ghost old_view = self@;
        let ghost old_sources = self.sources@;
        let mut i: usize = 0;
        while i < n
            invariant
                i <= n,
                n == self.sources@.len(),
                n == old_sources.len(),
                n == probes@.len(),
                old_view.sources == sources_view(old_sources),
                old_view.wf(),
                self.current_index == old(self).current_index,
                self.max_volume == old(self).max_volume,
                self.volume_step == old(self).volume_step,
                self.global_mute == old(self).global_mute,
                self.saved_states == old(self).saved_states,
                self.dirty == (old(self).dirty || any_marks_dirty(old_view.sources, probes@, i as int)),
                forall|j: int| 0 <= j < i ==> #[trigger] self.sources@[j]@ == probed(old_sources[j]@, probes@[j]),
                forall|j: int| i <= j < n ==> #[trigger] self.sources@[j] == old_sources[j],
                cmds@ == connection_commands(old_view.sources, probes@, i as int),
            decreases n - i,
        {
            let probe = probes[i];
            proof {
                assert(old_view.sources[i as int] == old_sources[i as int]@);
            }
            let src = &mut self.sources[i];
            let (changed, loads) = probe_source(src, probe);
            if loads {
                cmds.push(PlayerCommand::LoadFile { source: i, url_index: src.url_index, replace: true });
            }
            if changed {
                self.dirty = true;
            }
            i = i + 1;
        }
        proof {
            assert(sources_view(self.sources@) =~= Seq::new(n as nat, |j: int| probed(old_view.sources[j], probes@[j])));
        }
        cmds
    }

    /// Sets every stream that dropped out or stalls back to its first
    /// address and tells its player to load it again.
    pub fn retry_disconnected(&mut self) -> (cmds: Vec<PlayerCommand>)
        requires
            old(self).wf(),
        ensures
            final(self).wf(),
            final(self)@ == old(self)@.retry_disconnected(),
            cmds@ == retry_commands(old(self)@.sources, old(self)@.sources.len() as int),
    {
        let mut cmds: Vec<PlayerCommand> = Vec::new();
        let n = self.sources.len();
        let ghost old_view = self@;
        let ghost old_sources = self.sources@;
        let mut i: usize = 0;
        while i < n
            invariant
                i <= n,
                n == self.sources@.len(),
                n == old_sources.len(),
                old_view.sources == sources_view(old_sources),
                old_view.wf(),
                self.current_index == old(self).current_index,
                self.max_volume == old(self).max_volume,
                self.volume_step == old(self).volume_step,
                self.global_mute == old(self).global_mute,
                self.dirty == old(self).dirty,
                self.saved_states == old(self).saved_states,
                forall|j: int| 0 <= j < i ==> #[trigger] self.sources@[j]@ == retried(old_sources[j]@),
                forall|j: int| i <= j < n ==> #[trigger] self.sources@[j] == old_sources[j],
                cmds@ == retry_commands(old_view.sources, i as int),
            decreases n - i,
        {
            proof {
                assert(old_view.sources[i as int] == old_sources[i as int]@);
            }
            let src = &mut self.sources[i];
            if src.disconnected || src.buffering {
                src.url_index = 0;
                cmds.push(PlayerCommand::LoadFile { source: i, url_index: 0, replace: true });
            }
            i = i + 1;
        }
        proof {
            assert(sources_view(self.sources@) =~= Seq::new(n as nat, |j: int| retried(old_view.sources[j])));
        }
        cmds
    }

    /// Retries the streams that dropped out once `RETRY_INTERVAL_MS` have
    /// passed since the last retry; the flag says whether it did, and so
    /// whether the time of the last retry is now.
    pub fn tick_retry(&mut self, elapsed_ms: u64) -> (r: (Vec<PlayerCommand>, bool))
        requires
            old(self).wf(),
        ensures
            final(self).wf(),
            r.1 == (elapsed_ms >= RETRY_INTERVAL_MS),
            r.1 ==> final(self)@ == old(self)@.retry_disconnected()
                && r.0@ == retry_commands(old(self)@.sources, old(self)@.sources.len() as int),
            !r.1 ==> final(self)@ == old(self)@ && r.0@ == Seq::<PlayerCommand>::empty(),
    {
        if elapsed_ms >= RETRY_INTERVAL_MS {
            let cmds = self.retry_disconnected();
            (cmds, true)
        } else {
            (Vec::new(), false)
        }
    }

    /// Carries out a key's action: scroll, move the volume by
    /// `volume_step`, mute, mute all, or set the volume.
    pub fn perform(&mut self, action: KeyAction) -> (cmds: Vec<PlayerCommand>)
        requires
            old(self).wf(),
            old(self)@.can_perform(action),
        ensures
            final(self).wf(),
            final(self)@ == old(self)@.perform(action),
            cmds@ == old(self)@.perform_commands(action),
    {
        match action {
            KeyAction::ScrollDown => {
                self.scroll_down();
                Vec::new()
            },
            KeyAction::ScrollUp => {
                self.scroll_up();
                Vec::new()
            },
            KeyAction::VolumeDown => {
                let step = self.volume_step;
                self.adjust_volume(-step)
            },
            KeyAction::VolumeUp => {
                let step = self.volume_step;
                self.adjust_volume(step)
            },
            KeyAction::ToggleMute => self.toggle_mute(),
            KeyAction::ToggleGlobalMute => self.toggle_global_mute(),
            KeyAction::SetVolume(v) => self.set_volume_direct(v),
            _ => Vec::new(),
        }
    }

    /// Whether every source can be drawn; see `MixerView::renderable`.
    pub fn can_render(&self) -> (r: bool)
        requires
            self.wf(),
        ensures
            r == self@.renderable(),
    {
        let n = self.sources.len();
        let mut i: usize = 0;
        while i < n
            invariant
                i <= n,
                n == self@.sources.len(),
                forall|j: int|
                    0 <= j < i ==> 0 <= #[trigger] shown_volume(self@.sources[j]) <= self@.max_volume
                        && name_can_be_shown(self@.sources[j].name),
            decreases n - i,
        {
            let src = &self.sources[i];
            proof {
                assert(self@.sources[i as int] == src@);
            }
            let shown = if src.muted { src.previous_volume } else { src.volume };
            if shown < 0 || shown > self.max_volume {
                assert(!(0 <= shown_volume(self@.sources[i as int]) <= self@.max_volume));
                return false;
            }
            let name = src.name.as_str();
            if name.as_bytes().len() > SHOWN_NAME_LIMIT && !name.is_char_boundary(SHOWN_NAME_LIMIT) {
                assert(!name_can_be_shown(self@.sources[i as int].name));
                return false;
            }
            proof {
                let k = i as int;
                assert(0 <= shown_volume(self@.sources[k]) <= self@.max_volume);
                assert(name_can_be_shown(self@.sources[k].name));
                assert forall|j: int| 0 <= j < k + 1 implies 0 <= #[trigger] shown_volume(self@.sources[j]) <= self@.max_volume
                    && name_can_be_shown(self@.sources[j].name) by {
                    if j < k {
                    }
                }
            }
            i = i + 1;
        }
        true
    }

    /// The lines of the screen, one for each source, in order.
    pub fn rows(&self) -> (rows: Vec<SourceRow>)
        requires
            self.wf(),
            self@.renderable(),
        ensures
            rows@.len() == self@.sources.len(),
            forall|i: int| 0 <= i < rows@.len() ==> #[trigger] row_matches(rows@[i], self@, i),
    {
        let mut rows: Vec<SourceRow> = Vec::new();
        let n = self.sources.len();
        let mut i: usize = 0;
        while i < n
            invariant
                i <= n,
                n == self@.sources.len(),
                self.wf(),
                self@.renderable(),
                rows@.len() == i,
                forall|j: int| 0 <= j < i ==> #[trigger] row_matches(rows@[j], self@, j),
            decreases n - i,
        {
            let src = &self.sources[i];
            proof {
                assert(self@.sources[i as int] == src@);
                assert(0 <= shown_volume(self@.sources[i as int]) <= self@.max_volume);
            }
            let name = src.name.as_str();
            let shown_label = if name.as_bytes().len() > SHOWN_NAME_LIMIT {
                let (head, _rest) = name.split_at(SHOWN_NAME_LIMIT);
                proof {
                    encode_utf8_decode_utf8(head@);
                }
                head.to_owned()
            } else {
                src.name.clone()
            };
            let url_count = src.urls.len();
            assert(src@.urls.len() == src.urls@.len());
            assert(self@.sources[i as int].url_index < self@.sources[i as int].urls.len());
            let url_position = if url_count > 1 { Some((src.url_index + 1, url_count)) } else { None };
            let status = if src.disconnected {
                LinkStatus::Disconnected
            } else if src.buffering {
                LinkStatus::Buffering
            } else {
                LinkStatus::Playing
            };
            let row = SourceRow {
                selected: i == self.current_index,
                name: shown_label,
                level: if src.muted { src.previous_volume } else { src.volume },
                max_volume: self.max_volume,
                muted: src.muted,
                url_position,
                status,
            };
            let ghost before = rows@;
            rows.push(row);
            proof {
                assert forall|j: int| 0 <= j < i + 1 implies #[trigger] row_matches(rows@[j], self@, j) by {
                    if j < i {
                        assert(rows@[j] == before[j]);
                    }
                }
            }
            i = i + 1;
        }
        rows
    }

    /// The text of the whole screen; see `screen_text`.
    pub fn screen(&self) -> (r: String)
        requires
            self.wf(),
            self@.renderable(),
        ensures
            r@ == screen_text(self@),
    {
        let rows = self.rows();
        let mut s = String::new();
        s.append("\x1b[2J\x1b[H");
        s.append("=== noize ===\n");
        let ghost head = s@;
        proof {
            assert(head =~= screen_head());
        }
        let n = rows.len();
        let mut i: usize = 0;
        while i < n
            invariant
                i <= n,
                n == rows@.len(),
                n == self@.sources.len(),
                self@.renderable(),
                forall|j: int| 0 <= j < rows@.len() ==> #[trigger] row_matches(rows@[j], self@, j),
                s@ == head + lines_text(self@, i as int),
            decreases n - i,
        {
            let row = &rows[i];
            proof {
                assert(row_matches(rows@[i as int], self@, i as int));
                assert(0 <= shown_volume(self@.sources[i as int]) <= self@.max_volume);
                assert(row_text(*row) == source_line(self@, i as int));
            }
            let line = row.line();
            s.append(line.as_str());
            s.append("\n");
            i = i + 1;
            proof {
                assert(s@ =~= head + lines_text(self@, i as int));
            }
        }
        s.append("\nControls: j/k=scroll, h/l=volume down/up, m=mute/unmute, space=global mute, 0-9=set volume, q=quit\n");
        let ghost body = s@;
        if self.global_mute {
            s.append("*** GLOBAL MUTE ACTIVE ***\n");
        }
        proof {
            if !self@.global_mute {
                assert(s@ =~= body + Seq::<char>::empty());
            }
        }
        s
    }

    /// Notes that the screen shows the current state.
    pub fn clear_dirty(&mut self)
        requires
            old(self).wf(),
        ensures
            final(self).wf(),
            final(self)@ == old(self)@.clear_dirty(),
    {
        self.dirty = false;
    }
}

} // verus!
