//! What holds of the mixer across its operations.
use vstd::prelude::*;

use crate::keys::{press_spec, KeyAction, KEY_DIGIT_0};
use crate::mixer::{name_can_be_cut, name_for, seen_after, shown_volume, MixerView, Probe, SourceView, NAME_LIMIT};
use vstd::utf8::{decode_utf8_encode_utf8, encode_utf8, encode_utf8_valid_utf8, valid_utf8_split};

verus! {

/// Selecting the next source and then the previous one, or the other way
/// round, selects the source selected before.
pub proof fn lemma_scroll_round_trip(m: MixerView)
    requires
        m.wf(),
    ensures
        m.scroll_down().scroll_up().current_index == m.current_index,
        m.scroll_up().scroll_down().current_index == m.current_index,
{
    let n = m.sources.len() as int;
    if n > 0 {
        let c = m.current_index;
        let d = m.scroll_down().current_index;
        assert(d == (c + 1) % n);
        if c + 1 == n {
            assert(d == 0) by {
                vstd::arithmetic::div_mod::lemma_mod_self_0(n);
            }
            assert((d + n - 1) % n == c) by {
                vstd::arithmetic::div_mod::lemma_small_mod((n - 1) as nat, n as nat);
            }
        } else {
            assert(d == c + 1) by {
                vstd::arithmetic::div_mod::lemma_small_mod((c + 1) as nat, n as nat);
            }
            assert((d + n - 1) % n == c) by {
                vstd::arithmetic::div_mod::lemma_mod_add_multiples_vanish(c, n);
                vstd::arithmetic::div_mod::lemma_small_mod(c as nat, n as nat);
            }
        }
        let u = m.scroll_up().current_index;
        assert(u == (c + n - 1) % n);
        if c == 0 {
            assert(u == n - 1) by {
                vstd::arithmetic::div_mod::lemma_small_mod((n - 1) as nat, n as nat);
            }
            assert((u + 1) % n == c) by {
                vstd::arithmetic::div_mod::lemma_mod_self_0(n);
            }
        } else {
            assert(u == c - 1) by {
                vstd::arithmetic::div_mod::lemma_mod_add_multiples_vanish(c - 1, n);
                vstd::arithmetic::div_mod::lemma_small_mod((c - 1) as nat, n as nat);
            }
            assert((u + 1) % n == c) by {
                vstd::arithmetic::div_mod::lemma_small_mod(c as nat, n as nat);
            }
        }
    }
}

/// Turning the global mute on mutes every source at volume zero; turning
/// it off again gives every source back the levels it had, and keeps the
/// selection.
pub proof fn lemma_global_mute_round_trip(m: MixerView)
    requires
        m.wf(),
        !m.global_mute,
    ensures
        m.sources.len() > 0 ==> m.toggle_global_mute().global_mute,
        forall|i: int|
            0 <= i < m.sources.len() ==> (#[trigger] m.toggle_global_mute().sources[i]).muted
                && m.toggle_global_mute().sources[i].volume == 0,
        m.toggle_global_mute().toggle_global_mute().sources == m.sources,
        !m.toggle_global_mute().toggle_global_mute().global_mute,
        m.toggle_global_mute().toggle_global_mute().current_index == m.current_index,
{
    if m.sources.len() > 0 {
        let on = m.toggle_global_mute();
        let off = on.toggle_global_mute();
        assert(off.sources =~= m.sources);
    }
}

/// The mixer after each of `actions` in turn.
pub open spec fn perform_all(m: MixerView, actions: Seq<KeyAction>) -> MixerView
    decreases actions.len(),
{
    if actions.len() == 0 {
        m
    } else {
        perform_all(m, actions.drop_last()).perform(actions.last())
    }
}

/// Whether two sources agree on all but their levels.
pub open spec fn same_but_levels(a: SourceView, b: SourceView) -> bool {
    a == b.with_levels(a.levels())
}

/// The selection is a source, or there is none.
pub open spec fn selection_ok(m: MixerView) -> bool {
    m.sources.len() == 0 || 0 <= m.current_index < m.sources.len()
}

proof fn lemma_perform_changes_only_levels(q: MixerView, a: KeyAction)
    requires
        a != KeyAction::ToggleGlobalMute,
        selection_ok(q),
    ensures
        selection_ok(q.perform(a)),
        q.perform(a).global_mute == q.global_mute,
        q.perform(a).saved == q.saved,
        q.perform(a).sources.len() == q.sources.len(),
        forall|i: int| 0 <= i < q.sources.len() ==> same_but_levels(#[trigger] q.perform(a).sources[i], q.sources[i]),
{
    let p = q.perform(a);
    assert forall|i: int| 0 <= i < q.sources.len() implies same_but_levels(#[trigger] p.sources[i], q.sources[i]) by {
        if q.sources.len() > 0 && i == q.current_index {
            match a {
                KeyAction::VolumeDown => {},
                KeyAction::VolumeUp => {},
                KeyAction::ToggleMute => {},
                KeyAction::SetVolume(_) => {},
                _ => {},
            }
        }
    }
}

proof fn lemma_muted_actions_keep_saved(on: MixerView, actions: Seq<KeyAction>)
    requires
        on.global_mute,
        on.sources.len() > 0,
        selection_ok(on),
        forall|k: int| 0 <= k < actions.len() ==> #[trigger] actions[k] != KeyAction::ToggleGlobalMute,
    ensures
        ({
            let p = perform_all(on, actions);
            &&& selection_ok(p)
            &&& p.global_mute
            &&& p.saved == on.saved
            &&& p.sources.len() == on.sources.len()
            &&& forall|i: int| 0 <= i < on.sources.len() ==> same_but_levels(#[trigger] p.sources[i], on.sources[i])
        }),
    decreases actions.len(),
{
    if actions.len() > 0 {
        let rest = actions.drop_last();
        assert forall|k: int| 0 <= k < rest.len() implies #[trigger] rest[k] != KeyAction::ToggleGlobalMute by {
            assert(rest[k] == actions[k]);
        }
        lemma_muted_actions_keep_saved(on, rest);
        let q = perform_all(on, rest);
        let a = actions.last();
        assert(a == actions[actions.len() - 1]);
        let p = q.perform(a);
        lemma_perform_changes_only_levels(q, a);
        assert forall|i: int| 0 <= i < on.sources.len() implies same_but_levels(#[trigger] p.sources[i], on.sources[i]) by {
            assert(same_but_levels(q.sources[i], on.sources[i]));
            assert(same_but_levels(p.sources[i], q.sources[i]));
        }
    }
}

/// While the global mute is on, any keys but the one that turns it off may
/// move volumes, mute or select: turning the global mute off then discards
/// all of it and gives every source back the levels it had before the
/// global mute, with nothing left saved.
pub proof fn lemma_global_mute_discards_changes(m: MixerView, actions: Seq<KeyAction>)
    requires
        m.wf(),
        m.sources.len() > 0,
        !m.global_mute,
        forall|k: int| 0 <= k < actions.len() ==> #[trigger] actions[k] != KeyAction::ToggleGlobalMute,
    ensures
        ({
            let off = perform_all(m.toggle_global_mute(), actions).toggle_global_mute();
            &&& off.sources == m.sources
            &&& !off.global_mute
            &&& off.saved is None
        }),
{
    let on = m.toggle_global_mute();
    lemma_muted_actions_keep_saved(on, actions);
    let p = perform_all(on, actions);
    let off = p.toggle_global_mute();
    assert forall|i: int| 0 <= i < m.sources.len() implies #[trigger] off.sources[i] == m.sources[i] by {
        assert(same_but_levels(p.sources[i], on.sources[i]));
        assert(same_but_levels(on.sources[i], m.sources[i]));
    }
    assert(off.sources =~= m.sources);
}

/// Muting an unmuted source and unmuting it again gives it back its volume;
/// the volume to return to is then that volume.
pub proof fn lemma_mute_round_trip(m: MixerView)
    requires
        m.wf(),
        m.sources.len() > 0,
        !m.sources[m.current_index].muted,
    ensures
        ({
            let c = m.current_index;
            let t = m.toggle_mute().toggle_mute();
            &&& t.sources[c] == (SourceView { previous_volume: m.sources[c].volume, ..m.sources[c] })
            &&& forall|i: int| 0 <= i < m.sources.len() && i != c ==> #[trigger] t.sources[i] == m.sources[i]
            &&& t.sources.len() == m.sources.len()
        }),
{
}

/// Loading the state that the mixer saves gives every source the levels it
/// has and keeps the selection: only the screen is to be drawn again.
pub proof fn lemma_load_after_save(m: MixerView)
    requires
        m.wf(),
    ensures
        m.load_state(m.saved_levels(), m.current_index) == (MixerView { dirty: true, ..m }),
{
    let r = m.load_state(m.saved_levels(), m.current_index);
    assert(r.sources =~= m.sources);
}

/// Every volume, and every volume to return to, lies within the scale,
/// those kept by the global mute included.
pub open spec fn levels_in_range(m: MixerView) -> bool {
    &&& forall|i: int|
        0 <= i < m.sources.len() ==> 0 <= #[trigger] m.sources[i].volume <= m.max_volume
            && 0 <= m.sources[i].previous_volume <= m.max_volume
    &&& m.saved matches Some(st) ==> forall|i: int|
        0 <= i < st.len() ==> 0 <= #[trigger] st[i].volume <= m.max_volume
            && 0 <= st[i].previous_volume <= m.max_volume
}

/// No key moves a volume out of the scale; so a mixer whose levels lie
/// within it can always be drawn, as far as its volumes go.
#[verifier::spinoff_prover]
#[verifier::rlimit(30)]
pub proof fn lemma_perform_keeps_levels_in_range(m: MixerView, a: KeyAction)
    requires
        m.wf(),
        m.max_volume >= 0,
        levels_in_range(m),
    ensures
        levels_in_range(m.perform(a)),
        forall|i: int|
            0 <= i < m.perform(a).sources.len() ==> 0 <= #[trigger] shown_volume(m.perform(a).sources[i])
                <= m.perform(a).max_volume,
{
    let r = m.perform(a);
    assert forall|i: int| 0 <= i < r.sources.len() implies 0 <= #[trigger] r.sources[i].volume <= r.max_volume
        && 0 <= r.sources[i].previous_volume <= r.max_volume by {
        match a {
            KeyAction::ToggleGlobalMute => {
                if m.sources.len() > 0 && m.global_mute {
                    if let Some(st) = m.saved {
                        if i < st.len() {
                            assert(0 <= st[i].volume <= m.max_volume);
                        }
                    }
                }
            },
            _ => {},
        }
    }
    match a {
        KeyAction::ToggleGlobalMute => {
            if m.sources.len() > 0 && !m.global_mute {
                assert(r.saved == Some(m.saved_levels()));
                assert forall|j: int| 0 <= j < m.saved_levels().len() implies 0 <= #[trigger] m.saved_levels()[j].volume
                    <= r.max_volume && 0 <= m.saved_levels()[j].previous_volume <= r.max_volume by {
                    assert(0 <= m.sources[j].volume <= m.max_volume);
                }
            }
        },
        _ => {
            assert(r.saved == m.saved);
        },
    }
    assert(levels_in_range(r));
    assert forall|i: int| 0 <= i < r.sources.len() implies 0 <= #[trigger] shown_volume(r.sources[i]) <= r.max_volume by {
        assert(0 <= r.sources[i].volume <= r.max_volume);
    }
}

/// An unnamed source is labelled by the first bytes of its first address,
/// at most `NAME_LIMIT` of them.
pub proof fn lemma_label_is_prefix(url: Seq<char>)
    requires
        name_can_be_cut(Seq::empty(), url),
    ensures
        encode_utf8(name_for(Seq::empty(), url)) == encode_utf8(url).subrange(
            0,
            if encode_utf8(url).len() < NAME_LIMIT { encode_utf8(url).len() as int } else { NAME_LIMIT as int },
        ),
        encode_utf8(name_for(Seq::empty(), url)).len() <= NAME_LIMIT,
{
    let bytes = encode_utf8(url);
    let k = if bytes.len() < NAME_LIMIT { bytes.len() as int } else { NAME_LIMIT as int };
    encode_utf8_valid_utf8(url);
    valid_utf8_split(bytes, k);
    decode_utf8_encode_utf8(bytes.subrange(0, k));
}

/// Probing leaves no local source disconnected, and no stream is judged
/// before it has been seen playing.
pub proof fn lemma_probe_local_never_disconnected(m: MixerView, probes: Seq<Probe>)
    requires
        m.wf(),
        probes.len() == m.sources.len(),
    ensures
        forall|i: int|
            0 <= i < m.sources.len() && m.sources[i].is_local ==> !(#[trigger] m.check_connection_states(probes).sources[i]).disconnected,
        forall|i: int|
            0 <= i < m.sources.len() && !m.sources[i].is_local && !seen_after(m.sources[i], probes[i])
                ==> #[trigger] m.check_connection_states(probes).sources[i] == m.sources[i],
{
}

/// Two digits typed in a row set the volume they spell when it lies within
/// the scale, except that `1` then `0` always sets ten.
pub proof fn lemma_two_digits(d1: u8, d2: u8, max_volume: int)
    requires
        1 <= d1 <= 9,
        d2 <= 9,
    ensures
        ({
            let first = press_spec(None, (KEY_DIGIT_0 + d1) as u8, max_volume);
            let second = press_spec(first.1, (KEY_DIGIT_0 + d2) as u8, max_volume);
            let v = 10 * d1 + d2;
            &&& first.0 == KeyAction::Nothing
            &&& second.1 is None
            &&& second.0 == (if v == 10 || v <= max_volume { KeyAction::SetVolume(v as i32) } else { KeyAction::Nothing })
        }),
{
}

} // verus!
