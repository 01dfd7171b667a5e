//! Key events, as far as quitting is concerned.

use vstd::prelude::*;

verus! {

/// How a key event came about.
#[derive(Clone, Copy, Debug, PartialEq, Eq, Structural)]
pub enum KeyKind {
    Press,
    Repeat,
    Release,
}

/// The key of a key event.
#[derive(Clone, Copy, Debug, PartialEq, Eq, Structural)]
pub enum Key {
    Char(char),
    Other,
}

/// A terminal event.
#[derive(Clone, Copy, Debug, PartialEq, Eq, Structural)]
pub enum InputEvent {
    /// A key event; `ctrl` tells whether the control modifier was held.
    Key { kind: KeyKind, key: Key, ctrl: bool },
    /// Anything else: mouse, resize, focus, paste.
    Other,
}

/// Whether `ev` asks to quit: a press of `q`, or of `c` with control held.
pub open spec fn asks_to_quit(ev: InputEvent) -> bool {
    ev matches InputEvent::Key { kind, key, ctrl } && kind == KeyKind::Press && (key == Key::Char(
        'q',
    ) || (key == Key::Char('c') && ctrl))
}

/// Whether `ev` asks to quit; see [`asks_to_quit`].
pub fn is_quit_event(ev: &InputEvent) -> (quit: bool)
    ensures
        quit == asks_to_quit(*ev),
{
    match ev {
        InputEvent::Key { kind: KeyKind::Press, key: Key::Char(c), ctrl } => *c == 'q' || (*c == 'c'
            && *ctrl),
        _ => false,
    }
}

} // verus!
