//! The input latch: sixteen boolean key states, the identity of the most
//! recently transitioned key, a dirty flag marking an unconsumed transition
//! (the basis of the blocking wait-for-key instruction), and a close-request
//! flag the engine checks between instructions.
//!
//! A host polls its real key source, translates what it sees into
//! [`KeyEvent`] values, and feeds them to [`Input::handle_input`].

use vstd::prelude::*;

verus! {

/// One observation from the external key source.
#[derive(Clone, Copy, Debug, PartialEq, Eq, Structural)]
pub enum KeyEvent {
    /// The logical key `key` went down.
    Down { key: u8 },
    /// The logical key `key` went up.
    Up { key: u8 },
    /// The host asked the machine to halt (for example, a window close).
    Quit,
}

impl KeyEvent {
    /// Key ids are four bits wide.
    pub open spec fn wf(self) -> bool {
        match self {
            KeyEvent::Down { key } => key < 16,
            KeyEvent::Up { key } => key < 16,
            KeyEvent::Quit => true,
        }
    }
}

/// Ghost state of the input latch.
#[verifier::ext_equal]
pub struct InputView {
    /// Whether each of the sixteen logical keys is currently down.
    pub keys: Seq<bool>,
    /// Whether a key transition has arrived and not yet been consumed.
    pub dirty: bool,
    /// The most recently transitioned key; on simultaneous transitions the
    /// last observed one wins.
    pub last: u8,
    /// Whether the host has requested a halt.
    pub close: bool,
}

/// The latch state at boot: no key down, nothing pending.
pub open spec fn initial_input() -> InputView {
    InputView { keys: Seq::new(16, |k: int| false), dirty: false, last: 0, close: false }
}

/// The effect of one key event on the latch.
pub open spec fn apply_event(v: InputView, e: KeyEvent) -> InputView {
    match e {
        KeyEvent::Down { key } => InputView {
            keys: v.keys.update(key as int, true),
            dirty: true,
            last: key,
            close: v.close,
        },
        KeyEvent::Up { key } => InputView {
            keys: v.keys.update(key as int, false),
            dirty: true,
            last: key,
            close: v.close,
        },
        KeyEvent::Quit => InputView { keys: v.keys, dirty: v.dirty, last: v.last, close: true },
    }
}

/// The effect of the first `n` events of `evs`, applied in order.
pub open spec fn apply_events(v: InputView, evs: Seq<KeyEvent>, n: int) -> InputView
    decreases n,
{
    if n <= 0 {
        v
    } else {
        apply_event(apply_events(v, evs, n - 1), evs[n - 1])
    }
}

/// Whether `key` reads as pressed: ids outside the sixteen logical keys
/// always read as not pressed.
pub open spec fn key_pressed(v: InputView, key: u8) -> bool {
    key < 16 && v.keys[key as int]
}

/// The input latch.
pub struct Input {
    keys: Vec<bool>,
    dirty: bool,
    last: u8,
    close: bool,
}

impl View for Input {
    type V = InputView;

    closed spec fn view(&self) -> InputView {
        InputView { keys: self.keys@, dirty: self.dirty, last: self.last, close: self.close }
    }
}

impl Input {
    /// One state per logical key, and the latched key is a valid id.
    pub open spec fn wf(&self) -> bool {
        &&& self@.keys.len() == 16
        &&& self@.last < 16
    }

    /// A latch with no key down and nothing pending.
    pub fn new() -> (inp: Input)
        ensures
            inp.wf(),
            inp@ == initial_input(),
    {
        let inp = Input { keys: vec![false; 16], dirty: false, last: 0, close: false };
        proof {
            assert(inp@ =~= initial_input());
        }
        inp
    }

    /// Latch one key transition: record the new key state, remember the key,
    /// and mark the transition unconsumed.
    pub fn set_input(&mut self, key: u8, down: bool)
        requires
            old(self).wf(),
            key < 16,
        ensures
            final(self).wf(),
            final(self)@ == (InputView {
                keys: old(self)@.keys.update(key as int, down),
                dirty: true,
                last: key,
                close: old(self)@.close,
            }),
    {
        self.keys.set(key as usize, down);
        self.last = key;
        self.dirty = true;
    }

    /// Apply a batch of observed events to the latch, in order. A `Quit`
    /// event raises the close request; key events latch transitions, the
    /// most recent one winning.
    pub fn handle_input(&mut self, events: &Vec<KeyEvent>)
        requires
            old(self).wf(),
            forall|k: int| 0 <= k < events@.len() ==> events@[k].wf(),
        ensures
            final(self).wf(),
            final(self)@ == apply_events(old(self)@, events@, events@.len() as int),
    {
        let mut k: usize = 0;
        while k < events.len()
            invariant
                self.wf(),
                k <= events@.len(),
                forall|j: int| 0 <= j < events@.len() ==> events@[j].wf(),
                self@ == apply_events(old(self)@, events@, k as int),
            decreases events@.len() - k,
        {
            match events[k] {
                KeyEvent::Down { key } => self.set_input(key, true),
                KeyEvent::Up { key } => self.set_input(key, false),
                KeyEvent::Quit => self.close = true,
            }
            k += 1;
        }
    }

    /// Non-blocking query: whether `key` is currently down. Ids outside the
    /// sixteen logical keys read as not pressed.
    pub fn is_pressed(&self, key: u8) -> (r: bool)
        requires
            self.wf(),
        ensures
            r == key_pressed(self@, key),
    {
        if key < 16 {
            self.keys[key as usize]
        } else {
            false
        }
    }

    /// Mark any pending transition as consumed, so that a blocking wait only
    /// completes on a transition observed after the wait began.
    pub fn begin_wait(&mut self)
        requires
            old(self).wf(),
        ensures
            final(self).wf(),
            final(self)@ == (InputView {
                keys: old(self)@.keys,
                dirty: false,
                last: old(self)@.last,
                close: old(self)@.close,
            }),
    {
        self.dirty = false;
    }

    /// Whether an unconsumed key transition is pending.
    pub fn dirty(&self) -> (r: bool)
        ensures
            r == self@.dirty,
    {
        self.dirty
    }

    /// The most recently transitioned key.
    pub fn last_input(&self) -> (r: u8)
        ensures
            r == self@.last,
    {
        self.last
    }

    /// Whether the host has requested a halt.
    pub fn close_requested(&self) -> (r: bool)
        ensures
            r == self@.close,
    {
        self.close
    }
}

} // verus!
