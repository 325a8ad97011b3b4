//! Input identifiers (keys and mouse buttons) and their pressed state.

use vstd::prelude::*;

verus! {

/// Key enumeration for input handling
#[derive(Debug, Clone, Copy, PartialEq, Eq, Structural, Hash)]
pub enum Key {
    A, B, C, D, E, F, G, H, I, J, K, L, M, N, O, P, Q, R, S, T, U, V, W, X, Y, Z,
    Digit0, Digit1, Digit2, Digit3, Digit4, Digit5, Digit6, Digit7, Digit8, Digit9,
    F1, F2, F3, F4, F5, F6, F7, F8, F9, F10, F11, F12,
    Enter, Escape, Space, Tab, Backspace, Delete, Insert, Home, End, PageUp, PageDown,
    ArrowUp, ArrowDown, ArrowLeft, ArrowRight,
    Shift, Control, Alt,
    /// Gamepad buttons
    GamepadA, GamepadB, GamepadX, GamepadY, GamepadStart, GamepadBack,
    GamepadLeftBumper, GamepadRightBumper, GamepadLeftTrigger, GamepadRightTrigger,
}

/// Mouse button enumeration
#[derive(Debug, Clone, Copy, PartialEq, Eq, Structural, Hash)]
pub enum MouseButton {
    Left,
    Right,
    Middle,
    X1,
    X2,
}

} // verus!

verus! {

/// The recorded state of `key`: the last value set for it, or "up" (false).
pub open spec fn recorded<K>(states: Seq<(K, bool)>, key: K) -> bool
    decreases states.len(),
{
    if states.len() == 0 {
        false
    } else if states.last().0 == key {
        states.last().1
    } else {
        recorded(states.drop_last(), key)
    }
}

/// Pressed/released state of keys and mouse buttons: the last value set for
/// each, with never-set ones up.
pub struct InputButtons {
    keys: Vec<(Key, bool)>,
    mouse_buttons: Vec<(MouseButton, bool)>,
}

impl InputButtons {
    /// Key states, in the order keys were first set.
    pub closed spec fn key_states(&self) -> Seq<(Key, bool)> {
        self.keys@
    }

    /// Mouse button states, in the order buttons were first set.
    pub closed spec fn button_states(&self) -> Seq<(MouseButton, bool)> {
        self.mouse_buttons@
    }

    /// Well-formedness: each key and each button recorded once.
    pub closed spec fn wf(&self) -> bool {
        &&& forall|a: int, b: int|
            #![trigger self.keys@[a], self.keys@[b]]
            0 <= a < b < self.keys@.len() ==> self.keys@[a].0 != self.keys@[b].0
        &&& forall|a: int, b: int|
            #![trigger self.mouse_buttons@[a], self.mouse_buttons@[b]]
            0 <= a < b < self.mouse_buttons@.len() ==> self.mouse_buttons@[a].0 != self.mouse_buttons@[b].0
    }

    /// Every key and button up.
    pub fn new() -> (s: InputButtons)
        ensures
            s.wf(),
            forall|k: Key| !recorded(s.key_states(), k),
            forall|b: MouseButton| !recorded(s.button_states(), b),
    {
        InputButtons { keys: Vec::new(), mouse_buttons: Vec::new() }
    }

    /// Record whether `key` is pressed.
    pub fn set_key(&mut self, key: Key, pressed: bool)
        requires
            old(self).wf(),
        ensures
            final(self).wf(),
            recorded(final(self).key_states(), key) == pressed,
            forall|k: Key| k != key ==> recorded(final(self).key_states(), k) == recorded(old(self).key_states(), k),
            final(self).button_states() == old(self).button_states(),
    {
        let n = self.keys.len();
        let mut k: usize = 0;
        while k < n
            invariant
                n == self.keys@.len(),
                k <= n,
                *self == *old(self),
                old(self).wf(),
                forall|j: int| 0 <= j < k ==> self.keys@[j].0 != key,
            decreases n - k,
        {
            if self.keys[k].0 == key {
                proof {
                    lemma_recorded_update(old(self).keys@, k as int, key, pressed);
                }
                self.keys.set(k, (key, pressed));
                proof {
                    assert forall|a: int, b: int|
                        #![trigger self.keys@[a], self.keys@[b]]
                        0 <= a < b < self.keys@.len() implies self.keys@[a].0 != self.keys@[b].0 by {
                        assert(self.keys@[a].0 == old(self).keys@[a].0);
                        assert(self.keys@[b].0 == old(self).keys@[b].0);
                    }
                }
                return;
            }
            k = k + 1;
        }
        self.keys.push((key, pressed));
        assert(self.keys@.drop_last() =~= old(self).keys@);
        assert forall|a: int, b: int|
            #![trigger self.keys@[a], self.keys@[b]]
            0 <= a < b < self.keys@.len() implies self.keys@[a].0 != self.keys@[b].0 by {
            if b == n {
                assert(self.keys@[a] == old(self).keys@[a]);
            }
        }
    }

    /// Record whether `button` is pressed.
    pub fn set_mouse_button(&mut self, button: MouseButton, pressed: bool)
        requires
            old(self).wf(),
        ensures
            final(self).wf(),
            recorded(final(self).button_states(), button) == pressed,
            forall|b: MouseButton| b != button ==> recorded(final(self).button_states(), b) == recorded(
                old(self).button_states(),
                b,
            ),
            final(self).key_states() == old(self).key_states(),
    {
        let n = self.mouse_buttons.len();
        let mut k: usize = 0;
        while k < n
            invariant
                n == self.mouse_buttons@.len(),
                k <= n,
                *self == *old(self),
                old(self).wf(),
                forall|j: int| 0 <= j < k ==> self.mouse_buttons@[j].0 != button,
            decreases n - k,
        {
            if self.mouse_buttons[k].0 == button {
                proof {
                    lemma_recorded_update(old(self).mouse_buttons@, k as int, button, pressed);
                }
                self.mouse_buttons.set(k, (button, pressed));
                proof {
                    assert forall|a: int, b: int|
                        #![trigger self.mouse_buttons@[a], self.mouse_buttons@[b]]
                        0 <= a < b < self.mouse_buttons@.len() implies self.mouse_buttons@[a].0
                            != self.mouse_buttons@[b].0 by {
                        assert(self.mouse_buttons@[a].0 == old(self).mouse_buttons@[a].0);
                        assert(self.mouse_buttons@[b].0 == old(self).mouse_buttons@[b].0);
                    }
                }
                return;
            }
            k = k + 1;
        }
        self.mouse_buttons.push((button, pressed));
        assert(self.mouse_buttons@.drop_last() =~= old(self).mouse_buttons@);
        assert forall|a: int, b: int|
            #![trigger self.mouse_buttons@[a], self.mouse_buttons@[b]]
            0 <= a < b < self.mouse_buttons@.len() implies self.mouse_buttons@[a].0 != self.mouse_buttons@[b].0 by {
            if b == n {
                assert(self.mouse_buttons@[a] == old(self).mouse_buttons@[a]);
            }
        }
    }

    /// Whether `key` is pressed.
    pub fn is_key_down(&self, key: Key) -> (b: bool)
        ensures
            b == recorded(self.key_states(), key),
    {
        let mut k = self.keys.len();
        assert(self.keys@.subrange(0, k as int) =~= self.keys@);
        while k > 0
            invariant
                k <= self.keys@.len(),
                recorded(self.keys@, key) == recorded(self.keys@.subrange(0, k as int), key),
            decreases k,
        {
            assert(self.keys@.subrange(0, k as int).drop_last() =~= self.keys@.subrange(0, k - 1));
            if self.keys[k - 1].0 == key {
                return self.keys[k - 1].1;
            }
            k = k - 1;
        }
        false
    }

    /// Whether `button` is pressed.
    pub fn is_mouse_button_down(&self, button: MouseButton) -> (b: bool)
        ensures
            b == recorded(self.button_states(), button),
    {
        let mut k = self.mouse_buttons.len();
        assert(self.mouse_buttons@.subrange(0, k as int) =~= self.mouse_buttons@);
        while k > 0
            invariant
                k <= self.mouse_buttons@.len(),
                recorded(self.mouse_buttons@, button) == recorded(self.mouse_buttons@.subrange(0, k as int), button),
            decreases k,
        {
            assert(self.mouse_buttons@.subrange(0, k as int).drop_last() =~= self.mouse_buttons@.subrange(0, k - 1));
            if self.mouse_buttons[k - 1].0 == button {
                return self.mouse_buttons[k - 1].1;
            }
            k = k - 1;
        }
        false
    }
}

/// Replacing the entry at position `k` (whose key is `key`) makes `key` read
/// as `v` and leaves other keys unchanged, when keys are distinct.
proof fn lemma_recorded_update<K>(states: Seq<(K, bool)>, k: int, key: K, v: bool)
    requires
        0 <= k < states.len(),
        states[k].0 == key,
        forall|a: int, b: int| 0 <= a < b < states.len() ==> states[a].0 != states[b].0,
    ensures
        recorded(states.update(k, (key, v)), key) == v,
        forall|q: K| q != key ==> recorded(states.update(k, (key, v)), q) == recorded(states, q),
    decreases states.len(),
{
    let u = states.update(k, (key, v));
    if k == states.len() - 1 {
        assert(u.drop_last() =~= states.drop_last());
    } else {
        assert(u.drop_last() =~= states.drop_last().update(k, (key, v)));
        assert(states.last().0 != key) by {
            assert(states[states.len() - 1] == states.last());
        }
        lemma_recorded_update(states.drop_last(), k, key, v);
        assert forall|q: K| q != key implies recorded(u, q) == recorded(states, q) by {
            assert(u.last() == states.last());
            if states.last().0 != q {
                assert(recorded(u.drop_last(), q) == recorded(states.drop_last(), q));
            }
        }
    }
}

/// Law: a key reads as last set, and never-set keys read as up.
pub proof fn law_key_reads_last_set(states: Seq<(Key, bool)>, key: Key, pressed: bool, other: Key)
    ensures
        recorded(states.push((key, pressed)), key) == pressed,
        other != key ==> recorded(states.push((key, pressed)), other) == recorded(states, other),
        !recorded(Seq::<(Key, bool)>::empty(), key),
{
    assert(states.push((key, pressed)).drop_last() =~= states);
}

/// Law: the recorded state of a key is the value of its last entry, and
/// "up" when it has none.
pub proof fn law_recorded_is_last_entry<K>(states: Seq<(K, bool)>, key: K)
    ensures
        (forall|k: int| 0 <= k < states.len() ==> (#[trigger] states[k]).0 != key) ==> !recorded(states, key),
        forall|k: int|
            0 <= k < states.len() && (#[trigger] states[k]).0 == key && (forall|j: int|
                k < j < states.len() ==> (#[trigger] states[j]).0 != key) ==> recorded(states, key) == states[k].1,
    decreases states.len(),
{
    if states.len() > 0 {
        let init = states.drop_last();
        law_recorded_is_last_entry(init, key);
        let last = states.len() - 1;
        assert forall|k: int| 0 <= k < init.len() implies states[k] == init[k] by {}
        assert forall|k: int|
            0 <= k < states.len() && (#[trigger] states[k]).0 == key && (forall|j: int|
                k < j < states.len() ==> (#[trigger] states[j]).0 != key) implies recorded(states, key)
                == states[k].1 by {
            if k < last {
                assert(states[last].0 != key);
                assert forall|j: int| k < j < init.len() implies (#[trigger] init[j]).0 != key by {
                    assert(states[j].0 != key);
                }
                assert(init[k].0 == key);
            }
        }
        if forall|k: int| 0 <= k < states.len() ==> (#[trigger] states[k]).0 != key {
            assert(states[last].0 != key);
            assert forall|k: int| 0 <= k < init.len() implies (#[trigger] init[k]).0 != key by {
                assert(states[k].0 != key);
            }
        }
    }
}

} // verus!
