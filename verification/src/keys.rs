//! The meaning of each key.

use vstd::prelude::*;
use crate::player::PlaybackMode;

verus! {

/// A key press, as far as the player tells keys apart.
#[derive(Debug, Clone, Copy, PartialEq, Eq, Structural)]
pub enum Key {
    Char(char),
    Esc,
    Enter,
    Other,
}

/// What a key asks for.
#[derive(Debug, Clone, Copy, PartialEq, Eq, Structural)]
pub enum Command {
    Quit,
    NavigateUp,
    SelectPrev,
    SelectNext,
    PageUp,
    PageDown,
    PlaySelected(PlaybackMode),
    TogglePause,
    Enter,
    ToggleSpeedFilter,
    Nothing,
}

/// The key bindings: q quits, Esc goes up a directory, k/j move the
/// selection up/down, [ and ] move it a page up/down, Enter enters a
/// directory, p plays the selection and continues through tracks of the same
/// title (c does the same), s plays it once, r repeats it, n toggles the
/// natural-speed filter, Space pauses or resumes.
pub open spec fn command_spec(key: Key) -> Command {
    match key {
        Key::Char(c) => {
            if c == 'q' {
                Command::Quit
            } else if c == 'k' {
                Command::SelectPrev
            } else if c == 'j' {
                Command::SelectNext
            } else if c == '[' {
                Command::PageUp
            } else if c == ']' {
                Command::PageDown
            } else if c == 'p' || c == 'c' {
                Command::PlaySelected(PlaybackMode::Continuous)
            } else if c == 's' {
                Command::PlaySelected(PlaybackMode::Single)
            } else if c == 'r' {
                Command::PlaySelected(PlaybackMode::Repeat)
            } else if c == 'n' {
                Command::ToggleSpeedFilter
            } else if c == ' ' {
                Command::TogglePause
            } else {
                Command::Nothing
            }
        },
        Key::Esc => Command::NavigateUp,
        Key::Enter => Command::Enter,
        Key::Other => Command::Nothing,
    }
}

/// The command bound to `key`.
pub fn command_for_key(key: Key) -> (r: Command)
    ensures
        r == command_spec(key),
{
    match key {
        Key::Char(c) => {
            if c == 'q' {
                Command::Quit
            } else if c == 'k' {
                Command::SelectPrev
            } else if c == 'j' {
                Command::SelectNext
            } else if c == '[' {
                Command::PageUp
            } else if c == ']' {
                Command::PageDown
            } else if c == 'p' || c == 'c' {
                Command::PlaySelected(PlaybackMode::Continuous)
            } else if c == 's' {
                Command::PlaySelected(PlaybackMode::Single)
            } else if c == 'r' {
                Command::PlaySelected(PlaybackMode::Repeat)
            } else if c == 'n' {
                Command::ToggleSpeedFilter
            } else if c == ' ' {
                Command::TogglePause
            } else {
                Command::Nothing
            }
        },
        Key::Esc => Command::NavigateUp,
        Key::Enter => Command::Enter,
        Key::Other => Command::Nothing,
    }
}

/// Which keys do what, read backwards from the commands: continuous play is
/// on exactly `p` and `c`, single play on exactly `s`, repeat on exactly `r`;
/// every other command has exactly one key; and a character does nothing
/// exactly when it is none of the bound ones.
pub proof fn law_key_bindings(c: char)
    ensures
        command_spec(Key::Char(c)) == Command::PlaySelected(PlaybackMode::Continuous) <==> (c
            == 'p' || c == 'c'),
        command_spec(Key::Char(c)) == Command::PlaySelected(PlaybackMode::Single) <==> c == 's',
        command_spec(Key::Char(c)) == Command::PlaySelected(PlaybackMode::Repeat) <==> c == 'r',
        command_spec(Key::Char(c)) == Command::Quit <==> c == 'q',
        command_spec(Key::Char(c)) == Command::SelectPrev <==> c == 'k',
        command_spec(Key::Char(c)) == Command::SelectNext <==> c == 'j',
        command_spec(Key::Char(c)) == Command::PageUp <==> c == '[',
        command_spec(Key::Char(c)) == Command::PageDown <==> c == ']',
        command_spec(Key::Char(c)) == Command::ToggleSpeedFilter <==> c == 'n',
        command_spec(Key::Char(c)) == Command::TogglePause <==> c == ' ',
        command_spec(Key::Char(c)) != Command::NavigateUp,
        command_spec(Key::Char(c)) != Command::Enter,
        command_spec(Key::Char(c)) == Command::Nothing <==> !(c == 'q' || c == 'k' || c == 'j'
            || c == '[' || c == ']' || c == 'p' || c == 'c' || c == 's' || c == 'r' || c == 'n'
            || c == ' '),
        command_spec(Key::Esc) == Command::NavigateUp,
        command_spec(Key::Enter) == Command::Enter,
        command_spec(Key::Other) == Command::Nothing,
{
}

} // verus!
