use vstd::prelude::*;
use std::collections::VecDeque;

verus! {

/// The abstract state of the keyboard: the live keycode (0 = none) and the
/// queue of pending keypresses, oldest first.
pub struct KeyboardState {
    pub keycode: u8,
    pub queued: Seq<u8>,
}

/// The keycode a destructive read returns, and the keyboard afterwards: a
/// live keypress is returned first, then queued keys in order, then 0.
pub open spec fn key_read(k: KeyboardState) -> (u8, KeyboardState) {
    if k.keycode != 0 {
        (k.keycode, KeyboardState { keycode: 0, queued: k.queued })
    } else if k.queued.len() > 0 {
        (k.queued[0], KeyboardState { keycode: 0, queued: k.queued.drop_first() })
    } else {
        (0, k)
    }
}


/// Keyboard reads: a live key comes first and is consumed, leaving the queue
/// as it was; without one, the oldest queued key is consumed, whatever is
/// queued behind it (first in, first out); with neither, a read gives 0 and
/// changes nothing. Reading a live key twice gives 0 the second time when
/// nothing is queued.
pub proof fn lemma_key_order(k: u8, q: Seq<u8>, r: Seq<u8>)
    ensures
        k != 0 ==> key_read(KeyboardState { keycode: k, queued: q }) == (
            k,
            KeyboardState { keycode: 0, queued: q },
        ),
        q.len() > 0 ==> key_read(KeyboardState { keycode: 0, queued: q + r }) == (
            q[0],
            KeyboardState { keycode: 0, queued: q.drop_first() + r },
        ),
        key_read(KeyboardState { keycode: 0, queued: Seq::empty() }).0 == 0,
        key_read(key_read(KeyboardState { keycode: k, queued: Seq::empty() }).1).0 == 0,
{
    if q.len() > 0 {
        assert((q + r)[0] == q[0]);
        assert((q + r).drop_first() =~= q.drop_first() + r);
    }
}

pub struct Keyboard {
    keycode: u8,
    queued: VecDeque<u8>,
}

impl View for Keyboard {
    type V = KeyboardState;

    closed spec fn view(&self) -> KeyboardState {
        KeyboardState { keycode: self.keycode, queued: self.queued@ }
    }
}

impl Keyboard {
    pub fn new() -> (k: Self)
        ensures
            k@ == (KeyboardState { keycode: 0, queued: Seq::empty() }),
    {
        Keyboard { keycode: 0, queued: VecDeque::new() }
    }

    /// Destructive read: returns the current keycode and resets it to 0;
    /// without a live keypress, takes the oldest queued key (or 0).
    pub fn get_key(&mut self) -> (r: u8)
        ensures
            (r, final(self)@) == key_read(old(self)@),
    {
        if self.keycode != 0 {
            let k = self.keycode;
            self.keycode = 0;
            k
        } else {
            match self.queued.pop_front() {
                Some(k) => {
                    assert(self.queued@ =~= old(self)@.queued.drop_first());
                    k
                },
                None => 0,
            }
        }
    }

    /// Registers a live keypress, replacing any earlier live one.
    pub fn register_keypress(&mut self, key: u8)
        ensures
            final(self)@ == (KeyboardState { keycode: key, queued: old(self)@.queued }),
    {
        self.keycode = key;
    }

    /// Appends keypresses to the back of the queue, in order.
    pub fn queue_keypresses(&mut self, keys: &[u8])
        ensures
            final(self)@ == (KeyboardState {
                keycode: old(self)@.keycode,
                queued: old(self)@.queued + keys@,
            }),
    {
        let n = keys.len();
        let mut i: usize = 0;
        while i < n
            invariant
                n == keys@.len(),
                i <= n,
                self.keycode == old(self)@.keycode,
                self.queued@ == old(self)@.queued + keys@.subrange(0, i as int),
            decreases n - i,
        {
            self.queued.push_back(keys[i]);
            i = i + 1;
            assert(self.queued@ =~= old(self)@.queued + keys@.subrange(0, i as int));
        }
        assert(keys@.subrange(0, n as int) =~= keys@);
    }
}

/// A key of the host keyboard, as far as the emulator distinguishes keys.
pub enum HostKey {
    /// A letter key; the payload is its distance from `a` (0..=25).
    Letter(u8),
    /// A digit key; the payload is its digit (0..=9).
    Digit(u8),
    Return,
    Backspace,
    Tab,
    Space,
    Escape,
    Other,
}

/// The character code a host key produces, 0 for keys the emulator ignores.
pub open spec fn host_key_code(key: HostKey) -> u8 {
    match key {
        HostKey::Letter(d) => (97 + d) as u8,
        HostKey::Digit(d) => (48 + d) as u8,
        HostKey::Return => 10,
        HostKey::Backspace => 8,
        HostKey::Tab => 9,
        HostKey::Space => 32,
        HostKey::Escape => 27,
        HostKey::Other => 0,
    }
}

/// Maps a host key to the character code the emulated keyboard receives.
pub fn host_key_char(key: HostKey) -> (c: u8)
    requires
        key matches HostKey::Letter(d) ==> d < 26,
        key matches HostKey::Digit(d) ==> d < 10,
    ensures
        c == host_key_code(key),
{
    match key {
        HostKey::Letter(d) => 97 + d,
        HostKey::Digit(d) => 48 + d,
        HostKey::Return => 10,
        HostKey::Backspace => 8,
        HostKey::Tab => 9,
        HostKey::Space => 32,
        HostKey::Escape => 27,
        HostKey::Other => 0,
    }
}

} // verus!
