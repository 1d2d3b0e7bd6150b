//! The keys that a user can press, and what to do with an error of reading
//! them.
use vstd::prelude::*;

verus! {

/// A key press.
#[derive(Copy, Clone, PartialEq, Eq, Structural, Debug)]
pub enum Key {
    Backspace,
    Left,
    Right,
    Up,
    Down,
    Home,
    End,
    PageUp,
    PageDown,
    BackTab,
    Delete,
    Insert,
    F(u8),
    Char(char),
    Alt(char),
    Ctrl(char),
    Null,
    Esc,
}

/// The keys that are held down together with a character.
#[derive(Copy, Clone, PartialEq, Eq, Structural, Debug)]
pub enum Modifiers {
    /// No key.
    Plain,
    /// The shift key.
    Shift,
    /// The control key.
    Control,
    /// The alt key.
    Alt,
    /// Any other key or several keys at once.
    Other,
}

impl Key {
    /// The key press of the character `c` while `modifiers` are held down:
    /// the character as it is with or without shift, with control or with
    /// alt, and nothing with any other keys.
    pub fn from_char(c: char, modifiers: Modifiers) -> (r: Option<Key>)
        ensures
            r == (match modifiers {
                Modifiers::Plain | Modifiers::Shift => Some(Key::Char(c)),
                Modifiers::Control => Some(Key::Ctrl(c)),
                Modifiers::Alt => Some(Key::Alt(c)),
                Modifiers::Other => None,
            }),
    {
        match modifiers {
            Modifiers::Plain | Modifiers::Shift => Some(Key::Char(c)),
            Modifiers::Control => Some(Key::Ctrl(c)),
            Modifiers::Alt => Some(Key::Alt(c)),
            Modifiers::Other => None,
        }
    }

    /// The key press of the enter key: a line feed.
    pub fn enter() -> (r: Key)
        ensures
            r == Key::Char('\n'),
    {
        Key::Char('\n')
    }

    /// The key press of the tabulator key: a tabulator.
    pub fn tab() -> (r: Key)
        ensures
            r == Key::Char('\t'),
    {
        Key::Char('\t')
    }
}

/// What to do with the result of a read.
#[derive(Debug)]
pub enum Action<T, E> {
    /// The read was interrupted and is tried again.
    Continue,
    /// The read is over, with a value or with an error that ends reading.
    Result(Result<T, E>),
}

/// What to do with the result of a read: go on after an error that says no
/// more than that the read was `interrupted`, and hand on everything else.
pub fn continue_on_interrupt<T, E>(result: Result<T, E>, interrupted: bool) -> (r: Action<T, E>)
    ensures
        r == (match result {
            Ok(v) => Action::Result(Ok(v)),
            Err(err) => if interrupted {
                Action::Continue
            } else {
                Action::Result(Err(err))
            },
        }),
{
    match result {
        Ok(v) => Action::Result(Ok(v)),
        Err(err) => if interrupted {
            Action::Continue
        } else {
            Action::Result(Err(err))
        },
    }
}

} // verus!
