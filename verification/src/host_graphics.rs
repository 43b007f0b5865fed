//! The sixteen keys: which of them count as held down, and which key of the
//! host keyboard stands for which of them.
//!
//! A host reports presses but no releases, so a key counts as down for a
//! fixed time after its last press. Time is a count of milliseconds that
//! the caller supplies with each call.

use vstd::prelude::*;

verus! {

/// For how many milliseconds after a press a key counts as down.
pub const MIN_MILLISEC_KEY_CONSIDERED_PRESSED: u64 = 100;

/// Whether `key` counts as down at `now`, given the time of the last press
/// of each key: it was pressed, and no more than the window lies between.
/// A press that is later than `now` counts as just made.
pub open spec fn key_down(presses: Seq<Option<u64>>, key: int, now: u64) -> bool {
    &&& 0 <= key < presses.len()
    &&& presses[key] matches Some(at)
    &&& now - at <= MIN_MILLISEC_KEY_CONSIDERED_PRESSED
}

/// The time of the last press of each key.
pub struct Input {
    time_last_pressed: [Option<u64>; 16],
}

impl View for Input {
    type V = Seq<Option<u64>>;

    closed spec fn view(&self) -> Seq<Option<u64>> {
        self.time_last_pressed@
    }
}

impl Input {
    /// No key was pressed yet.
    pub fn new() -> (input: Self)
        ensures
            input@ == Seq::new(16, |key: int| None::<u64>),
    {
        let input = Input { time_last_pressed: [None; 16] };
        assert(input@ =~= Seq::new(16, |key: int| None::<u64>));
        input
    }

    /// Notes that `key` was pressed at `at`.
    pub fn record_press(&mut self, key: usize, at: u64)
        requires
            key < 16,
        ensures
            final(self)@ == old(self)@.update(key as int, Some(at)),
            final(self)@.len() == 16,
    {
        self.time_last_pressed[key] = Some(at);
    }

    /// Whether `key` counts as down at `now`. A key that was never pressed
    /// is not down, nor is a key that does not exist.
    pub fn key_is_down(&self, key: usize, now: u64) -> (down: bool)
        ensures
            down == key_down(self@, key as int, now),
            self@.len() == 16,
    {
        if key >= 16 {
            return false;
        }
        if let Some(t) = self.time_last_pressed[key] {
            now <= t || now - t <= MIN_MILLISEC_KEY_CONSIDERED_PRESSED
        } else {
            false
        }
    }
}

/// A key counts as down from the moment it is pressed until the window has
/// passed, and not after; a key that was never pressed is not down.
pub proof fn lemma_debounce(presses: Seq<Option<u64>>, key: int, at: u64, now: u64)
    requires
        0 <= key < presses.len(),
    ensures
        key_down(presses.update(key, Some(at)), key, at),
        at <= now <= at + MIN_MILLISEC_KEY_CONSIDERED_PRESSED ==> key_down(
            presses.update(key, Some(at)),
            key,
            now,
        ),
        now > at + MIN_MILLISEC_KEY_CONSIDERED_PRESSED ==> !key_down(
            presses.update(key, Some(at)),
            key,
            now,
        ),
        presses[key] is None ==> !key_down(presses, key, now),
        forall|other: int|
            other != key ==> key_down(presses.update(key, Some(at)), other, now) == key_down(
                presses,
                other,
                now,
            ),
{
}

/// The key of the host keyboard that stands for each of the sixteen keys,
/// by the number of the key.
pub open spec fn key_bindings() -> Seq<char> {
    seq!['x', '1', '2', '3', 'q', 'w', 'e', 'a', 's', 'd', 'z', 'c', '4', 'r', 'f', 'v']
}

/// The key of the host keyboard that ends the run.
pub const QUIT_KEY: char = 'm';

/// What a key of the host keyboard meant.
#[derive(Copy, Clone, Debug, PartialEq, Eq, Structural)]
pub enum KeyEvent {
    /// The run is to end.
    Quit,
    /// The key with this number was pressed.
    Pressed(usize),
    /// The key stands for nothing.
    Ignored,
}

/// What `c` means: the quit key ends the run, a bound key is a press of the
/// key it stands for, and any other key is nothing.
pub open spec fn key_event(c: char) -> KeyEvent {
    if c == QUIT_KEY {
        KeyEvent::Quit
    } else if key_bindings().contains(c) {
        KeyEvent::Pressed(key_bindings().index_of(c) as usize)
    } else {
        KeyEvent::Ignored
    }
}

/// The host side of the keys: which keys were ever pressed.
pub struct Terminal {
    pub key_pressed: [bool; 16],
}

impl Terminal {
    /// No key was pressed yet.
    pub fn new() -> (terminal: Self)
        ensures
            terminal.key_pressed@ == Seq::new(16, |key: int| false),
    {
        let terminal = Self { key_pressed: [false; 16] };
        assert(terminal.key_pressed@ =~= Seq::new(16, |key: int| false));
        terminal
    }

    /// The number of the key that `c` stands for, if it stands for one.
    pub fn key_for(c: char) -> (key: Option<usize>)
        ensures
            match key {
                Some(k) => k < 16 && key_bindings()[k as int] == c,
                None => !key_bindings().contains(c),
            },
    {
        let key_bindings: [char; 16] = [
            'x',
            '1',
            '2',
            '3',
            'q',
            'w',
            'e',
            'a',
            's',
            'd',
            'z',
            'c',
            '4',
            'r',
            'f',
            'v',
        ];
        assert(key_bindings@ =~= self::key_bindings());
        let mut k: usize = 0;
        while k < 16
            invariant
                k <= 16,
                key_bindings@ == self::key_bindings(),
                forall|j: int| 0 <= j < k ==> self::key_bindings()[j] != c,
            decreases 16 - k,
        {
            if key_bindings[k] == c {
                return Some(k);
            }
            k += 1;
        }
        None
    }

    /// Takes one key of the host keyboard, read at `now`: a bound key is
    /// marked as pressed here and its press is recorded in `input`.
    pub fn handle_key(&mut self, input: &mut Input, c: char, now: u64) -> (event: KeyEvent)
        ensures
            event == key_event(c),
            match event {
                KeyEvent::Pressed(key) => {
                    &&& key < 16
                    &&& key_bindings()[key as int] == c
                    &&& final(self).key_pressed@ == old(self).key_pressed@.update(key as int, true)
                    &&& final(input)@ == old(input)@.update(key as int, Some(now))
                },
                _ => final(self).key_pressed@ == old(self).key_pressed@ && final(input)@ == old(
                    input,
                )@,
            },
    {
        if c == QUIT_KEY {
            return KeyEvent::Quit;
        }
        match Terminal::key_for(c) {
            Some(pos) => {
                proof {
                    lemma_bindings_differ();
                    assert(key_bindings().contains(c));
                    key_bindings().index_of_first_ensures(c);
                }
                self.key_pressed[pos] = true;
                input.record_press(pos, now);
                KeyEvent::Pressed(pos)
            },
            None => KeyEvent::Ignored,
        }
    }
}

/// No host key stands for two keys, and the quit key stands for none.
pub proof fn lemma_bindings_differ()
    ensures
        key_bindings().len() == 16,
        forall|j: int, k: int|
            0 <= j < 16 && 0 <= k < 16 && key_bindings()[j] == key_bindings()[k] ==> j == k,
        !key_bindings().contains(QUIT_KEY),
{
}

} // verus!
