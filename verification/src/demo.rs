//! The demo application of the stack: a chat room contract and its bot, a
//! wallet contract, hardware controls, and the switcher between them.

use vstd::prelude::*;

use crate::event::{Event, Key, KeyboardEvent, KeyboardState};

pub mod chatbot;
pub mod contract;
pub mod hardware;
pub mod ui;
pub mod wallet;

verus! {

/// Whether the event is a press of the left or the right arrow.
pub open spec fn is_switch(event: Event) -> bool {
    event matches Event::Keyboard(
        KeyboardEvent { key: Key::Left | Key::Right, state: KeyboardState::Pressed, .. },
    )
}

/// The switcher between the demo's apps: their names, and which one shows.
#[derive(Clone, Debug, PartialEq, Eq)]
pub struct App {
    pub names: Vec<String>,
    pub current: usize,
}

impl App {
    /// Takes an event: a pressed left or right arrow shows the next app,
    /// after the last the first; returns the index of the app to show.
    pub fn on_event(&mut self, event: &Event) -> (shown: Option<usize>)
        requires
            is_switch(*event) ==> old(self).names@.len() > 0 && old(self).current < usize::MAX,
        ensures
            is_switch(*event) ==> {
                &&& final(self).current == (old(self).current + 1) % (old(self).names@.len() as int)
                &&& final(self).names == old(self).names
                &&& shown == Some(final(self).current)
            },
            !is_switch(*event) ==> shown is None && *final(self) == *old(self),
    {
        match event {
            Event::Keyboard(
                KeyboardEvent { key: Key::Left | Key::Right, state: KeyboardState::Pressed, .. },
            ) => {
                self.current = (self.current + 1) % self.names.len();
                Some(self.current)
            },
            _ => None,
        }
    }
}

/// The app shown after `k` switches from app `i` of `n`.
pub open spec fn after_switches(i: int, n: int, k: nat) -> int
    decreases k,
{
    if k == 0 {
        i
    } else {
        (after_switches(i, n, (k - 1) as nat) + 1) % n
    }
}

/// After `k` switches from app `i`, the switcher shows app `(i + k) mod n`;
/// so after `n` switches it is back where it started.
pub proof fn lemma_switches_cycle(i: int, n: int, k: nat)
    requires
        0 <= i < n,
    ensures
        after_switches(i, n, k) == (i + k) % n,
        after_switches(i, n, n as nat) == i,
{
    lemma_after_n(i, n, k);
    lemma_after_n(i, n, n as nat);
    vstd::arithmetic::div_mod::lemma_mod_multiples_vanish(1, i, n);
    assert(n * 1 + i == i + n);
    vstd::arithmetic::div_mod::lemma_small_mod(i as nat, n as nat);
}

proof fn lemma_after_n(i: int, n: int, k: nat)
    requires
        0 <= i < n,
    ensures
        after_switches(i, n, k) == (i + k) % n,
    decreases k,
{
    if k > 0 {
        lemma_after_n(i, n, (k - 1) as nat);
        assert(((i + k - 1) % n + 1) % n == (i + k) % n) by {
            vstd::arithmetic::div_mod::lemma_add_mod_noop_right(1, i + k - 1, n);
        }
    } else {
        vstd::arithmetic::div_mod::lemma_small_mod(i as nat, n as nat);
    }
}

} // verus!
