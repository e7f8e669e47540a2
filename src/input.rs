use vstd::prelude::*;

verus! {

/// A key press as the library sees it.
#[derive(Clone, Copy, Debug, PartialEq, Eq, Structural)]
pub enum Key {
    Char(char),
    Esc,
    Other,
}

/// The keys that ask the program to end: `q` and Escape.
pub open spec fn requests_exit(k: Key) -> bool {
    k == Key::Char('q') || k == Key::Esc
}

/// Whether a key asks the program to end. Every other key is ignored.
pub fn is_exit_key(k: Key) -> (r: bool)
    ensures
        r == requests_exit(k),
{
    match k {
        Key::Char(c) => c == 'q',
        Key::Esc => true,
        Key::Other => false,
    }
}

/// Whether the outcome of a poll asks the program to end: a key came, and it
/// is an exit key. No key, or any other key, lets the loop go on.
pub fn exit_requested(key: Option<Key>) -> (r: bool)
    ensures
        r == (key matches Some(k) && requests_exit(k)),
{
    match key {
        Some(k) => is_exit_key(k),
        None => false,
    }
}

} // verus!
