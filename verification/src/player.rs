//! Playback bookkeeping: which file plays, in which mode, and how much of it
//! has been heard. Times are nanoseconds; `now` is a reading of a monotonic
//! clock taken by the caller, and the audio output itself is driven by the
//! caller as the returned actions say.

use vstd::prelude::*;
use crate::files::{file_name_of, name_for_path};

verus! {

/// The largest span that `std::time::Duration` holds, in nanoseconds.
pub const MAX_DURATION_NANOS: u128 = 18_446_744_073_709_551_615_999_999_999;

/// How a started track is played.
#[derive(Debug, Clone, Copy, PartialEq, Eq, Structural)]
pub enum PlaybackMode {
    /// Once, then the player shows no current file.
    Single,
    /// Over and over.
    Repeat,
    /// Once, keeping the file as current after it ends.
    Continuous,
}

/// What the caller does to the audio output after `toggle_pause`.
#[derive(Debug, Clone, Copy, PartialEq, Eq, Structural)]
pub enum SinkAction {
    Unchanged,
    Pause,
    Resume,
}

/// The playback state. While a file is loaded (`current_file` is some) the
/// caller holds an audio output for it.
pub struct Player {
    current_file: Option<String>,
    is_playing: bool,
    start_time: Option<u128>,
    file_duration: Option<u128>,
    elapsed_before_pause: u128,
    playback_mode: PlaybackMode,
}

/// The mathematical content of a `Player`.
pub struct PlayerView {
    pub current_file: Option<Seq<char>>,
    pub is_playing: bool,
    pub start_time: Option<nat>,
    pub file_duration: Option<nat>,
    pub elapsed_before_pause: nat,
    pub playback_mode: PlaybackMode,
}

impl View for Player {
    type V = PlayerView;

    closed spec fn view(&self) -> PlayerView {
        PlayerView {
            current_file: match self.current_file {
                Some(p) => Some(p@),
                None => None,
            },
            is_playing: self.is_playing,
            start_time: match self.start_time {
                Some(t) => Some(t as nat),
                None => None,
            },
            file_duration: match self.file_duration {
                Some(d) => Some(d as nat),
                None => None,
            },
            elapsed_before_pause: self.elapsed_before_pause as nat,
            playback_mode: self.playback_mode,
        }
    }
}

/// The name shown when no file is current.
pub open spec fn no_file_label() -> Seq<char> {
    seq!['な', 'し']
}

impl PlayerView {
    /// Time heard so far at clock reading `now`: the time before the last
    /// pause, plus the time since the last start while playing.
    pub open spec fn total_elapsed(self, now: nat) -> int {
        if self.is_playing {
            match self.start_time {
                Some(s) => self.elapsed_before_pause + (now - s),
                None => self.elapsed_before_pause as int,
            }
        } else {
            self.elapsed_before_pause as int
        }
    }

    /// `now` is not earlier than the last start, and the time heard fits a
    /// `Duration` (past that, `Duration` arithmetic panics).
    pub open spec fn clock_ok(self, now: nat) -> bool {
        &&& (self.is_playing && self.start_time is Some) ==> self.start_time->0 <= now
        &&& self.total_elapsed(now) <= MAX_DURATION_NANOS
    }

    /// The track length is known and has been reached.
    pub open spec fn finished(self, now: nat) -> bool {
        match self.file_duration {
            Some(d) => self.total_elapsed(now) >= d,
            None => false,
        }
    }

    /// Playing, where a track that ended (other than in repeat mode) counts as
    /// stopped.
    pub open spec fn playing(self, now: nat) -> bool {
        if self.playback_mode != PlaybackMode::Repeat && self.finished(now) {
            false
        } else {
            self.is_playing
        }
    }

    /// The file name shown as playing: none once a single play has ended.
    pub open spec fn shown_name(self, now: nat) -> Seq<char> {
        if self.playback_mode == PlaybackMode::Single && self.finished(now) {
            no_file_label()
        } else {
            match self.current_file {
                Some(p) => name_for_path(p),
                None => no_file_label(),
            }
        }
    }

    /// The playback position: the time heard, held at the track's end, or
    /// wrapped around the track length in repeat mode (narrowed to 64 bits as
    /// `Duration::from_nanos` takes it); zero when the length is unknown or 0.
    pub open spec fn position(self, now: nat) -> nat {
        match self.file_duration {
            Some(d) => {
                if d > 0 {
                    if self.playback_mode == PlaybackMode::Repeat {
                        ((self.total_elapsed(now) % (d as int)) as u64) as nat
                    } else if self.total_elapsed(now) >= d {
                        d
                    } else {
                        self.total_elapsed(now) as nat
                    }
                } else {
                    0
                }
            },
            None => 0,
        }
    }

    /// The track length, or zero when unknown.
    pub open spec fn duration(self) -> nat {
        match self.file_duration {
            Some(d) => d,
            None => 0,
        }
    }

    /// The state after a stop: nothing loaded, nothing heard.
    pub open spec fn stopped() -> PlayerView {
        PlayerView {
            current_file: None,
            is_playing: false,
            start_time: None,
            file_duration: None,
            elapsed_before_pause: 0,
            playback_mode: PlaybackMode::Single,
        }
    }

    /// The state after `toggle_pause` at `now`.
    pub open spec fn toggled(self, now: nat) -> PlayerView {
        if self.current_file is None {
            self
        } else if self.is_playing {
            PlayerView {
                elapsed_before_pause: match self.start_time {
                    Some(s) => (self.elapsed_before_pause + (now - s)) as nat,
                    None => self.elapsed_before_pause,
                },
                is_playing: false,
                start_time: None,
                ..self
            }
        } else {
            PlayerView { is_playing: true, start_time: Some(now), ..self }
        }
    }

    /// The action on the audio output that goes with `toggle_pause`.
    pub open spec fn toggle_action(self) -> SinkAction {
        if self.current_file is None {
            SinkAction::Unchanged
        } else if self.is_playing {
            SinkAction::Pause
        } else {
            SinkAction::Resume
        }
    }
}

impl Player {
    /// Lengths and times heard stay within what a `Duration` holds.
    #[verifier::type_invariant]
    closed spec fn bounded(self) -> bool {
        &&& (self.file_duration matches Some(d) ==> d <= MAX_DURATION_NANOS)
        &&& self.elapsed_before_pause <= MAX_DURATION_NANOS
        &&& self.is_playing ==> (self.current_file is Some && self.start_time is Some)
    }

    /// A player with nothing loaded.
    pub fn new() -> (r: Player)
        ensures
            r@ == PlayerView::stopped(),
    {
        Player {
            current_file: None,
            is_playing: false,
            start_time: None,
            file_duration: None,
            elapsed_before_pause: 0,
            playback_mode: PlaybackMode::Single,
        }
    }

    /// Unloads the current file (the caller stops its audio output).
    pub fn stop(&mut self)
        ensures
            final(self)@ == PlayerView::stopped(),
        no_unwind
    {
        proof {
            use_type_invariant(&*self);
        }
        self.is_playing = false;
        self.current_file = None;
        self.start_time = None;
        self.file_duration = None;
        self.elapsed_before_pause = 0;
        self.playback_mode = PlaybackMode::Single;
    }

    /// The first half of starting a file: stops, then records the new file's
    /// length as far as it is known. The caller then opens the audio.
    pub fn prepare_play(&mut self, file_duration: Option<u128>)
        requires
            file_duration matches Some(d) ==> d <= MAX_DURATION_NANOS,
        ensures
            final(self)@ == (PlayerView {
                file_duration: match file_duration {
                    Some(d) => Some(d as nat),
                    None => None,
                },
                ..PlayerView::stopped()
            }),
        no_unwind
    {
        self.stop();
        self.file_duration = file_duration;
    }

    /// The second half of starting a file, once its audio plays: the file is
    /// current, playing from `now`, with nothing heard yet.
    pub fn start_play(&mut self, file_path: String, mode: PlaybackMode, now: u128)
        ensures
            final(self)@ == (PlayerView {
                current_file: Some(file_path@),
                is_playing: true,
                start_time: Some(now as nat),
                elapsed_before_pause: 0,
                playback_mode: mode,
                ..old(self)@
            }),
        no_unwind
    {
        proof {
            use_type_invariant(&*self);
        }
        self.current_file = Some(file_path);
        self.start_time = Some(now);
        self.is_playing = true;
        self.elapsed_before_pause = 0;
        self.playback_mode = mode;
    }

    /// Pauses a playing file or resumes a paused one at `now`, keeping the
    /// time heard; with nothing loaded it does nothing.
    pub fn toggle_pause(&mut self, now: u128) -> (r: SinkAction)
        requires
            old(self)@.clock_ok(now as nat),
        ensures
            final(self)@ == old(self)@.toggled(now as nat),
            r == old(self)@.toggle_action(),
        no_unwind
    {
        proof {
            use_type_invariant(&*self);
        }
        if let Some(_) = &self.current_file {
            if self.is_playing {
                if let Some(start_time) = self.start_time {
                    self.elapsed_before_pause = self.elapsed_before_pause + (now - start_time);
                }
                self.is_playing = false;
                self.start_time = None;
                SinkAction::Pause
            } else {
                self.start_time = Some(now);
                self.is_playing = true;
                SinkAction::Resume
            }
        } else {
            SinkAction::Unchanged
        }
    }

    /// Whether `now` is a clock reading the player can work with: not before
    /// the last start, and with the time heard within a `Duration`.
    pub fn clock_valid(&self, now: u128) -> (r: bool)
        ensures
            r == self@.clock_ok(now as nat),
    {
        proof {
            use_type_invariant(self);
        }
        if self.is_playing {
            if let Some(start_time) = self.start_time {
                if now < start_time {
                    return false;
                }
                let since = now - start_time;
                if since > MAX_DURATION_NANOS {
                    return false;
                }
                return self.elapsed_before_pause + since <= MAX_DURATION_NANOS;
            }
        }
        self.elapsed_before_pause <= MAX_DURATION_NANOS
    }

    fn total_elapsed(&self, now: u128) -> (r: u128)
        requires
            self@.clock_ok(now as nat),
        ensures
            r as int == self@.total_elapsed(now as nat),
    {
        if self.is_playing {
            if let Some(start_time) = self.start_time {
                self.elapsed_before_pause + (now - start_time)
            } else {
                self.elapsed_before_pause
            }
        } else {
            self.elapsed_before_pause
        }
    }

    /// Whether the track is playing at `now`; a track that has ended counts
    /// as stopped unless it repeats.
    pub fn is_playing(&self, now: u128) -> (r: bool)
        requires
            self@.clock_ok(now as nat),
        ensures
            r == self@.playing(now as nat),
            r ==> self@.current_file is Some,
            (self@.playback_mode != PlaybackMode::Repeat && self@.finished(now as nat)) ==> !r,
    {
        proof {
            use_type_invariant(self);
        }
        if self.playback_mode != PlaybackMode::Repeat {
            if let Some(duration) = self.file_duration {
                if self.total_elapsed(now) >= duration {
                    return false;
                }
            }
        }
        self.is_playing
    }

    /// The file name of the current file, or "なし" when there is none or a
    /// single play has ended.
    pub fn current_file_name(&self, now: u128) -> (r: String)
        requires
            self@.clock_ok(now as nat),
        ensures
            r@ == self@.shown_name(now as nat),
    {
        let none_label = "なし";
        proof {
            reveal_strlit("なし");
            reveal_strlit("Unknown");
        }
        if self.playback_mode == PlaybackMode::Single {
            if let Some(duration) = self.file_duration {
                if self.total_elapsed(now) >= duration {
                    return none_label.to_owned();
                }
            }
        }
        match &self.current_file {
            Some(path) => match file_name_of(path.as_str()) {
                Some(name) => name,
                None => "Unknown".to_owned(),
            },
            None => none_label.to_owned(),
        }
    }

    /// The playback position at `now`, in nanoseconds.
    pub fn get_position(&self, now: u128) -> (r: u128)
        requires
            self@.clock_ok(now as nat),
        ensures
            r as nat == self@.position(now as nat),
            r <= MAX_DURATION_NANOS,
    {
        proof {
            use_type_invariant(self);
            law_position_within_duration(self@, now as nat);
        }
        if let Some(duration) = self.file_duration {
            let total_elapsed = self.total_elapsed(now);
            if duration > 0 {
                if self.playback_mode == PlaybackMode::Repeat {
                    let wrapped = total_elapsed % duration;
                    (wrapped as u64) as u128
                } else if total_elapsed >= duration {
                    duration
                } else {
                    total_elapsed
                }
            } else {
                0
            }
        } else {
            0
        }
    }

    /// The track length in nanoseconds, zero when unknown.
    pub fn get_duration(&self) -> (r: u128)
        ensures
            r as nat == self@.duration(),
            r <= MAX_DURATION_NANOS,
    {
        proof {
            use_type_invariant(self);
        }
        match self.file_duration {
            Some(d) => d,
            None => 0,
        }
    }

    /// The mode of the current play.
    pub fn playback_mode(&self) -> (r: PlaybackMode)
        ensures
            r == self@.playback_mode,
    {
        self.playback_mode
    }

    /// Whether the track's known length has been reached at `now`.
    pub fn is_track_finished(&self, now: u128) -> (r: bool)
        requires
            self@.clock_ok(now as nat),
        ensures
            r == self@.finished(now as nat),
    {
        match self.file_duration {
            Some(duration) => self.total_elapsed(now) >= duration,
            None => false,
        }
    }

    /// Whether a file is loaded.
    pub fn has_current_file(&self) -> (r: bool)
        ensures
            r == (self@.current_file is Some),
    {
        self.current_file.is_some()
    }
}

/// Pausing or resuming does not move the playback position: at the instant
/// of the toggle the time heard, the position and whether the track has ended
/// are what they were.
pub proof fn law_toggle_keeps_position(p: PlayerView, now: nat)
    requires
        p.clock_ok(now),
    ensures
        p.toggled(now).total_elapsed(now) == p.total_elapsed(now),
        p.toggled(now).position(now) == p.position(now),
        p.toggled(now).finished(now) == p.finished(now),
        p.toggled(now).clock_ok(now),
{
}

/// While paused, time passing does not move the playback position.
pub proof fn law_paused_position_frozen(p: PlayerView, t1: nat, t2: nat)
    requires
        !p.is_playing,
    ensures
        p.position(t1) == p.position(t2),
        p.finished(t1) == p.finished(t2),
{
}

/// The position never passes the track length, and in repeat mode it stays
/// below it.
pub proof fn law_position_within_duration(p: PlayerView, now: nat)
    requires
        p.clock_ok(now),
    ensures
        p.position(now) <= p.duration(),
        (p.playback_mode == PlaybackMode::Repeat && p.duration() > 0) ==> p.position(now)
            < p.duration(),
{
    if let Some(d) = p.file_duration {
        if d > 0 && p.playback_mode == PlaybackMode::Repeat {
            let x = p.total_elapsed(now) % (d as int);
            assert(0 <= x < d);
            assert((x as u64) as int <= x) by {
                if x >= 0x1_0000_0000_0000_0000 {
                    assert((x as u64) as int <= u64::MAX);
                }
            }
        }
    }
}

/// Once a single play has reached the track's end, the player shows no
/// current file and does not count as playing; a continuous play keeps
/// showing its file.
pub proof fn law_single_play_ends(p: PlayerView, now: nat)
    ensures
        (p.playback_mode == PlaybackMode::Single && p.finished(now)) ==> p.shown_name(now)
            == no_file_label() && !p.playing(now),
        (p.playback_mode == PlaybackMode::Continuous && p.current_file is Some) ==> p.shown_name(
            now,
        ) == name_for_path(p.current_file->0),
{
}

/// After a stop nothing is loaded: no name, no length, position zero, not
/// playing, whatever the clock reads.
pub proof fn law_stopped_is_empty(now: nat)
    ensures
        PlayerView::stopped().shown_name(now) == no_file_label(),
        PlayerView::stopped().duration() == 0,
        PlayerView::stopped().position(now) == 0,
        !PlayerView::stopped().playing(now),
        PlayerView::stopped().clock_ok(now),
{
}

} // verus!
