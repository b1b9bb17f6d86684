//! Modal input: the finite-state machine that maps key events to mode
//! transitions and cursor movement.
//!
//! The dispatcher is a pure function of (current state, key): the whole
//! transition table is written down once as `dispatch_spec`, and the
//! executable dispatcher is proved to follow it exactly. Cursor movement is
//! deliberately not clamped to the grid: coordinates are signed and may go
//! negative or past the grid edge; they saturate only at the extreme values
//! of their integer type.

use vstd::prelude::*;

verus! {

/// The three input modes.
#[derive(Clone, Copy, PartialEq, Eq, Structural, Debug)]
pub enum Mode {
    Normal,
    Insert,
    Visual,
}

/// A key event, reduced to what the dispatcher reacts to: a character key,
/// the escape key, or anything else.
#[derive(Clone, Copy, PartialEq, Eq, Structural, Debug)]
pub enum Key {
    Char(char),
    Esc,
    Other,
}

/// An unclamped cursor position. Signed on purpose: movement keys may take
/// it outside the grid, and bounding it is the caller's policy.
#[derive(Clone, Copy, PartialEq, Eq, Structural, Debug)]
pub struct Cursor {
    pub x: i64,
    pub y: i64,
}

/// The modal state: cursor position and current mode.
#[derive(Clone, Copy, PartialEq, Eq, Structural, Debug)]
pub struct Client {
    pub cursor: Cursor,
    pub mode: Mode,
}

/// One step left, saturating at the smallest representable coordinate.
pub open spec fn coord_dec(x: i64) -> i64 {
    if x == i64::MIN {
        x
    } else {
        (x - 1) as i64
    }
}

/// One step right, saturating at the largest representable coordinate.
pub open spec fn coord_inc(x: i64) -> i64 {
    if x == i64::MAX {
        x
    } else {
        (x + 1) as i64
    }
}

/// The state a session starts in: cursor at the origin, Visual mode.
pub open spec fn initial_client() -> Client {
    Client { cursor: Cursor { x: 0, y: 0 }, mode: Mode::Visual }
}

/// The transition table. `i` and `v` enter Insert and Visual mode only from
/// Normal mode; escape returns to Normal from anywhere; `h`, `l`, `j`, `k`
/// move the cursor regardless of mode; every other key changes nothing.
/// The `:` key changes no state here — it only requests termination, which
/// `requests_quit` reports.
pub open spec fn dispatch_spec(c: Client, k: Key) -> Client {
    match k {
        Key::Char(ch) => if ch == 'i' {
            if c.mode == Mode::Normal {
                Client { cursor: c.cursor, mode: Mode::Insert }
            } else {
                c
            }
        } else if ch == 'v' {
            if c.mode == Mode::Normal {
                Client { cursor: c.cursor, mode: Mode::Visual }
            } else {
                c
            }
        } else if ch == 'h' {
            Client { cursor: Cursor { x: coord_dec(c.cursor.x), y: c.cursor.y }, mode: c.mode }
        } else if ch == 'l' {
            Client { cursor: Cursor { x: coord_inc(c.cursor.x), y: c.cursor.y }, mode: c.mode }
        } else if ch == 'j' {
            Client { cursor: Cursor { x: c.cursor.x, y: coord_inc(c.cursor.y) }, mode: c.mode }
        } else if ch == 'k' {
            Client { cursor: Cursor { x: c.cursor.x, y: coord_dec(c.cursor.y) }, mode: c.mode }
        } else {
            c
        },
        Key::Esc => Client { cursor: c.cursor, mode: Mode::Normal },
        Key::Other => c,
    }
}

/// Whether a key requests termination of the event loop: only `:` does.
pub open spec fn requests_quit(k: Key) -> bool {
    k == Key::Char(':')
}

impl Client {
    /// A fresh modal state: cursor at the origin, Visual mode.
    pub fn new() -> (c: Client)
        ensures
            c == initial_client(),
    {
        Client { cursor: Cursor { x: 0, y: 0 }, mode: Mode::Visual }
    }

    /// Dispatch one key: step the state by the transition table and report
    /// whether the key requested termination.
    pub fn dispatch(&mut self, key: Key) -> (quit: bool)
        ensures
            *final(self) == dispatch_spec(*old(self), key),
            quit == requests_quit(key),
    {
        match key {
            Key::Char(ch) => {
                if ch == 'i' {
                    if self.mode == Mode::Normal {
                        self.mode = Mode::Insert;
                    }
                } else if ch == 'v' {
                    if self.mode == Mode::Normal {
                        self.mode = Mode::Visual;
                    }
                } else if ch == 'h' {
                    if self.cursor.x != i64::MIN {
                        self.cursor.x = self.cursor.x - 1;
                    }
                } else if ch == 'l' {
                    if self.cursor.x != i64::MAX {
                        self.cursor.x = self.cursor.x + 1;
                    }
                } else if ch == 'j' {
                    if self.cursor.y != i64::MAX {
                        self.cursor.y = self.cursor.y + 1;
                    }
                } else if ch == 'k' {
                    if self.cursor.y != i64::MIN {
                        self.cursor.y = self.cursor.y - 1;
                    }
                }
                ch == ':'
            },
            Key::Esc => {
                self.mode = Mode::Normal;
                false
            },
            Key::Other => false,
        }
    }
}

/// Law: the mode transitions are exactly these. A session starts in Visual
/// mode; `i` in Visual mode changes nothing; escape reaches Normal from any
/// mode without touching the cursor; from Normal mode, `i` enters Insert and
/// `v` enters Visual, neither touching the cursor.
pub proof fn lemma_mode_transitions(c: Client)
    ensures
        initial_client().mode == Mode::Visual,
        c.mode == Mode::Visual ==> dispatch_spec(c, Key::Char('i')) == c,
        dispatch_spec(c, Key::Esc).mode == Mode::Normal,
        dispatch_spec(c, Key::Esc).cursor == c.cursor,
        c.mode == Mode::Normal ==> dispatch_spec(c, Key::Char('i')) == (Client {
            cursor: c.cursor,
            mode: Mode::Insert,
        }),
        c.mode == Mode::Normal ==> dispatch_spec(c, Key::Char('v')) == (Client {
            cursor: c.cursor,
            mode: Mode::Visual,
        }),
{
}

/// Law: `h` moves the cursor one column left, independent of the mode; the
/// row and the mode are untouched. The single excluded input is saturation
/// at the smallest representable coordinate.
pub proof fn lemma_cursor_left(c: Client)
    requires
        c.cursor.x > i64::MIN,
    ensures
        dispatch_spec(c, Key::Char('h')) == (Client {
            cursor: Cursor { x: (c.cursor.x - 1) as i64, y: c.cursor.y },
            mode: c.mode,
        }),
{
}

/// Law: `l` moves the cursor one column right, independent of the mode; the
/// row and the mode are untouched. The single excluded input is saturation
/// at the largest representable coordinate.
pub proof fn lemma_cursor_right(c: Client)
    requires
        c.cursor.x < i64::MAX,
    ensures
        dispatch_spec(c, Key::Char('l')) == (Client {
            cursor: Cursor { x: (c.cursor.x + 1) as i64, y: c.cursor.y },
            mode: c.mode,
        }),
{
}

/// Law: `j` moves the cursor one row down, independent of the mode; the
/// column and the mode are untouched. The single excluded input is
/// saturation at the largest representable coordinate.
pub proof fn lemma_cursor_down(c: Client)
    requires
        c.cursor.y < i64::MAX,
    ensures
        dispatch_spec(c, Key::Char('j')) == (Client {
            cursor: Cursor { x: c.cursor.x, y: (c.cursor.y + 1) as i64 },
            mode: c.mode,
        }),
{
}

/// Law: `k` moves the cursor one row up, independent of the mode; the
/// column and the mode are untouched. The single excluded input is
/// saturation at the smallest representable coordinate.
pub proof fn lemma_cursor_up(c: Client)
    requires
        c.cursor.y > i64::MIN,
    ensures
        dispatch_spec(c, Key::Char('k')) == (Client {
            cursor: Cursor { x: c.cursor.x, y: (c.cursor.y - 1) as i64 },
            mode: c.mode,
        }),
{
}

/// Law: `:` is the only key that requests termination, and it leaves the
/// modal state itself unchanged.
pub proof fn lemma_quit_request(c: Client, k: Key)
    ensures
        requests_quit(Key::Char(':')),
        dispatch_spec(c, Key::Char(':')) == c,
        requests_quit(k) <==> k == Key::Char(':'),
{
}

} // verus!
