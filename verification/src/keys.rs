use vstd::prelude::*;


verus! {

/// `q`: quit.
pub const KEY_QUIT: u8 = 0x71;
/// `j`: select the next source.
pub const KEY_DOWN: u8 = 0x6a;
/// `k`: select the previous source.
pub const KEY_UP: u8 = 0x6b;
/// `h`: lower the volume.
pub const KEY_QUIETER: u8 = 0x68;
/// `l`: raise the volume.
pub const KEY_LOUDER: u8 = 0x6c;
/// `m`: mute or unmute the selected source.
pub const KEY_MUTE: u8 = 0x6d;
/// Space: mute or unmute every source.
pub const KEY_MUTE_ALL: u8 = 0x20;
/// The digit `0`.
pub const KEY_DIGIT_0: u8 = 0x30;
/// The digit `9`.
pub const KEY_DIGIT_9: u8 = 0x39;

/// How long a lone digit waits for a second one, in nanoseconds.
pub const DIGIT_TIMEOUT_NS: u64 = 300_000_000;

/// What a key press asks of the mixer.
#[derive(PartialEq, Eq, Structural, Debug, Clone, Copy)]
pub enum KeyAction {
    Quit,
    ScrollDown,
    ScrollUp,
    VolumeDown,
    VolumeUp,
    ToggleMute,
    ToggleGlobalMute,
    /// Set the selected source to this many steps.
    SetVolume(i32),
    Nothing,
}

/// The digits typed so far of a volume: at most one waits for a second.
pub struct DigitEntry {
    pending: Option<u8>,
}

impl View for DigitEntry {
    type V = Option<int>;

    closed spec fn view(&self) -> Option<int> {
        match self.pending {
            Some(d) => Some(d as int),
            None => None,
        }
    }
}

/// The action of a key, the digit left waiting, and whether the key was a
/// typed digit (which starts the wait for the next one again).
pub open spec fn press_spec(pending: Option<int>, key: u8, max_volume: int) -> (KeyAction, Option<int>, bool) {
    if key == KEY_QUIT {
        (KeyAction::Quit, pending, false)
    } else if key == KEY_DOWN {
        (KeyAction::ScrollDown, None, false)
    } else if key == KEY_UP {
        (KeyAction::ScrollUp, None, false)
    } else if key == KEY_QUIETER {
        (KeyAction::VolumeDown, None, false)
    } else if key == KEY_LOUDER {
        (KeyAction::VolumeUp, None, false)
    } else if key == KEY_MUTE {
        (KeyAction::ToggleMute, None, false)
    } else if key == KEY_MUTE_ALL {
        (KeyAction::ToggleGlobalMute, None, false)
    } else if key == KEY_DIGIT_0 && pending is None {
        (KeyAction::SetVolume(0), None, false)
    } else if KEY_DIGIT_0 <= key <= KEY_DIGIT_9 {
        let d = key - KEY_DIGIT_0;
        match pending {
            None => (KeyAction::Nothing, Some(d), true),
            Some(p) => if p == 1 && d == 0 {
                (KeyAction::SetVolume(10), None, true)
            } else {
                let v = 10 * p + d;
                (if v <= max_volume { KeyAction::SetVolume(v as i32) } else { KeyAction::Nothing }, None, true)
            },
        }
    } else {
        (KeyAction::Nothing, pending, false)
    }
}

/// The volume a lone waiting digit sets when no second digit comes in time.
pub open spec fn expire_spec(pending: Option<int>, max_volume: int) -> Option<i32> {
    match pending {
        Some(p) => if p <= max_volume { Some(p as i32) } else { None },
        None => None,
    }
}

impl DigitEntry {
    /// A waiting digit is a digit.
    pub open spec fn wf(&self) -> bool {
        match self@ {
            Some(d) => 0 <= d <= 9,
            None => true,
        }
    }

    /// No digit typed.
    pub fn new() -> (r: DigitEntry)
        ensures
            r.wf(),
            r@ is None,
    {
        DigitEntry { pending: None }
    }

    /// Whether no digit waits.
    pub fn is_empty(&self) -> (r: bool)
        ensures
            r == (self@ is None),
    {
        self.pending.is_none()
    }

    /// Reads one key: `q` quits, `j`/`k` scroll, `h`/`l` move the volume,
    /// `m` mutes, space mutes all; `0` alone silences; two digits set the
    /// volume they spell when it is within the scale (`10` always). Any key
    /// but `q` and a digit drops a waiting digit.
    pub fn press(&mut self, key: u8, max_volume: i32) -> (r: (KeyAction, bool))
        requires
            old(self).wf(),
        ensures
            final(self).wf(),
            (r.0, final(self)@, r.1) == press_spec(old(self)@, key, max_volume as int),
    {
        if key == KEY_QUIT {
            return (KeyAction::Quit, false);
        }
        let action = if key == KEY_DOWN {
            KeyAction::ScrollDown
        } else if key == KEY_UP {
            KeyAction::ScrollUp
        } else if key == KEY_QUIETER {
            KeyAction::VolumeDown
        } else if key == KEY_LOUDER {
            KeyAction::VolumeUp
        } else if key == KEY_MUTE {
            KeyAction::ToggleMute
        } else if key == KEY_MUTE_ALL {
            KeyAction::ToggleGlobalMute
        } else if key == KEY_DIGIT_0 && self.pending.is_none() {
            KeyAction::SetVolume(0)
        } else if KEY_DIGIT_0 <= key && key <= KEY_DIGIT_9 {
            let d = key - KEY_DIGIT_0;
            match self.pending {
                None => {
                    self.pending = Some(d);
                    return (KeyAction::Nothing, true);
                },
                Some(p) => {
                    self.pending = None;
                    if p == 1 && d == 0 {
                        return (KeyAction::SetVolume(10), true);
                    }
                    let v: i32 = 10 * (p as i32) + (d as i32);
                    if v <= max_volume {
                        return (KeyAction::SetVolume(v), true);
                    } else {
                        return (KeyAction::Nothing, true);
                    }
                },
            }
        } else {
            return (KeyAction::Nothing, false);
        };
        self.pending = None;
        (action, false)
    }

    /// Called with the time since the last digit was typed: once more than
    /// `DIGIT_TIMEOUT_NS` have passed, a waiting digit is dropped and sets its
    /// volume when that lies within the scale; before then, or with no digit
    /// waiting, nothing happens.
    pub fn tick(&mut self, elapsed_ns: u64, max_volume: i32) -> (r: Option<i32>)
        requires
            old(self).wf(),
        ensures
            final(self).wf(),
            old(self)@ is Some && elapsed_ns > DIGIT_TIMEOUT_NS ==> final(self)@ is None
                && r == expire_spec(old(self)@, max_volume as int),
            !(old(self)@ is Some && elapsed_ns > DIGIT_TIMEOUT_NS) ==> final(self)@ == old(self)@ && r is None,
    {
        if self.pending.is_some() && elapsed_ns > DIGIT_TIMEOUT_NS {
            self.expire(max_volume)
        } else {
            None
        }
    }

    /// The wait for a second digit ran out: a lone digit sets that volume
    /// when it is within the scale, and is dropped.
    pub fn expire(&mut self, max_volume: i32) -> (r: Option<i32>)
        requires
            old(self).wf(),
        ensures
            final(self).wf(),
            final(self)@ is None,
            r == expire_spec(old(self)@, max_volume as int),
    {
        let r = match self.pending {
            Some(p) => if (p as i32) <= max_volume { Some(p as i32) } else { None },
            None => None,
        };
        self.pending = None;
        r
    }
}

} // verus!
