//! The classifier: what becomes of each key event while an assistive
//! technology (AT) may be listening.
//!
//! [`State`] holds what the AT has asked for and what is currently held down.
//! [`State::process`] takes one event, a key and whether it was released,
//! picks the [`Rule`] that applies, updates the state and returns the
//! [`KeyEventType`] for the compositor to act on.
//!
//! The rules, first match wins:
//!
//! | when | rule | state | result |
//! |---|---|---|---|
//! | no client | `NoClient` | | process normally |
//! | full grab, a global modifier is released | `EndGrab` | grab off | to the AT |
//! | full grab | `Captured` | | to the AT |
//! | notify-all | `Notified` | | to the AT, and process |
//! | a global modifier is pressed | `ModifierDown` | grab on, modifier held | swallow |
//! | a global modifier is released | `ModifierUp` | modifier no longer held | swallow |
//! | a modifier is held, untracked key pressed | `KeyDown` | key tracked | to the AT |
//! | a modifier is held, tracked key released | `KeyUp` | key no longer tracked | to the AT |
//! | a modifier is held, any other event | `Mirrored` | | to the AT |
//! | no modifier is held, untracked key | `PassThrough` | | process normally |
//! | no modifier is held, tracked key | `Uncovered` | | process normally |
//!
//! The last row is a hole in the rules rather than a rule: a key is tracked
//! only if a modifier was held when it went down. The row is reached when the
//! last held modifier is cleared while the key is still tracked.
//! [`State::process`] then lets the event through and leaves the state alone;
//! [`State::try_process`] reports it instead.
//!
//! The rules are given once, as [`StateView::rule`], and their effects as
//! [`StateView::next`] and [`StateView::outcome`]; the executable code is proved
//! to compute exactly these.

use vstd::prelude::*;
use crate::key_list::{
    contains_key, lemma_push_no_duplicates, lemma_without_no_duplicates, remove_key, without,
};
use crate::keysym::{keysym_char, Keysym};
use crate::mask::ModMask;

verus! {

/// A hotkey that the AT has registered: `keysym` triggers while `modifiers`
/// are held.
#[derive(Debug, Clone, PartialEq, Eq)]
pub struct Keystroke {
    /// The keys that must be held together for `keysym` to trigger.
    pub modifiers: ModMask,
    /// The key that triggers.
    pub keysym: Keysym,
}

impl Keystroke {
    /// Whether adding `key` to the required mask leaves the mask as it is.
    pub open spec fn spec_absorbs(&self, key: Keysym) -> bool {
        self.modifiers.union(key) == self.modifiers
    }

    /// Whether the required mask already holds every bit of `key`.
    #[verifier::when_used_as_spec(spec_absorbs)]
    pub fn absorbs(&self, key: Keysym) -> (b: bool)
        ensures
            b == self.spec_absorbs(key),
    {
        self.modifiers.union(key) == self.modifiers
    }
}

/// What is handed to the AT about one key event.
#[derive(Debug, Clone, PartialEq, Eq)]
pub struct KeyEvent {
    /// Whether the key was released rather than pressed.
    pub release: bool,
    /// The held global modifiers when the event was classified.
    pub state: ModMask,
    /// The key.
    pub keysym: Keysym,
    /// The character the key would type, if it has one.
    pub unichar: Option<char>,
    /// The hardware key code. The classifier knows none and leaves it 0.
    pub keycode: u16,
}

impl KeyEvent {
    /// An event record with the given fields.
    #[must_use]
    pub fn new(
        release: bool,
        state: ModMask,
        keysym: Keysym,
        unichar: Option<char>,
        keycode: u16,
    ) -> (event: KeyEvent)
        ensures
            event.release == release,
            event.state == state,
            event.keysym == keysym,
            event.unichar == unichar,
            event.keycode == keycode,
    {
        KeyEvent { release, state, keysym, unichar, keycode }
    }
}

/// What the compositor is to do with a key event.
#[derive(Debug, PartialEq, Eq)]
pub enum KeyEventType {
    /// Drop the event: neither the AT nor the compositor sees it.
    Swallow,
    /// Handle the event as if no AT were there.
    ProcessNormally,
    /// Hand the event to the AT and keep it from the compositor.
    SendToAT(KeyEvent),
    /// Hand the event to the AT and handle it normally as well.
    SendToATAndProcess(KeyEvent),
}

/// The rule that decides an event. Exactly one applies to every state and
/// event; see [`StateView::rule`].
#[derive(Debug, Clone, Copy, PartialEq, Eq, Structural)]
pub enum Rule {
    /// No AT is attached.
    NoClient,
    /// A full grab is on and a global modifier is released: the grab ends.
    EndGrab,
    /// A full grab is on: the AT gets everything.
    Captured,
    /// Notify-all is on: the AT gets a copy of everything.
    Notified,
    /// A global modifier is pressed: a grab begins.
    ModifierDown,
    /// A global modifier is released outside a full grab.
    ModifierUp,
    /// Another key is pressed for the first time while a global modifier is
    /// held: it is tracked from now on.
    KeyDown,
    /// A tracked key is released while a global modifier is held: it is no
    /// longer tracked.
    KeyUp,
    /// While a global modifier is held, a tracked key is pressed again or an
    /// untracked key is released: the AT is told, nothing changes.
    Mirrored,
    /// No global modifier is held and the key is not tracked.
    PassThrough,
    /// No global modifier is held, yet the key is still tracked. No rule was
    /// made for this; the event passes through and the state is left alone.
    Uncovered,
}

/// An event that no rule covers: its key is tracked although no global
/// modifier is held.
#[derive(Debug, Clone, Copy, PartialEq, Eq, Structural)]
pub struct UncoveredEvent {
    /// The key of the event.
    pub key: Keysym,
    /// Whether the key was released.
    pub release: bool,
}

/// The classifier's state: what the AT asked for and what is held down.
#[derive(Debug)]
pub struct State {
    /// Whether an AT is attached. Without one every event is
    /// [`KeyEventType::ProcessNormally`] and nothing else is looked at.
    pub has_client: bool,
    /// Whether a full keyboard grab is on.
    pub grab_all: bool,
    /// Whether the AT is told of every event without grabbing any.
    pub notify_all: bool,
    /// The global modifiers: pressing one begins a grab.
    pub modifiers: Vec<Keysym>,
    /// The global modifiers that have been pressed.
    pub pressed_modifiers: ModMask,
    /// The hotkeys that the AT has registered.
    pub keystrokes: Vec<Keystroke>,
    /// The keys pressed while a global modifier was held, in the order of
    /// their presses. They are remembered so that their releases go to the AT
    /// too: nobody else saw them go down.
    pub pressed: Vec<Keysym>,
}

/// The mathematical value of a [`State`].
#[verifier::ext_equal]
pub struct StateView {
    pub has_client: bool,
    pub grab_all: bool,
    pub notify_all: bool,
    pub modifiers: Seq<Keysym>,
    pub pressed_modifiers: ModMask,
    pub keystrokes: Seq<Keystroke>,
    pub pressed: Seq<Keysym>,
}

impl StateView {
    /// The state of a fresh session: no client, nothing configured, nothing
    /// held.
    pub open spec fn initial() -> StateView {
        StateView {
            has_client: false,
            grab_all: false,
            notify_all: false,
            modifiers: Seq::empty(),
            pressed_modifiers: ModMask::empty(),
            keystrokes: Seq::empty(),
            pressed: Seq::empty(),
        }
    }

    /// What the classifier keeps true of its own bookkeeping: no key is
    /// tracked twice, and without a client nothing is held.
    pub open spec fn wf(self) -> bool {
        &&& self.pressed.no_duplicates()
        &&& !self.has_client ==> self.pressed_modifiers.is_empty() && self.pressed.len() == 0
    }

    /// Whether `key` is one of the global modifiers.
    pub open spec fn is_global(self, key: Keysym) -> bool {
        self.modifiers.contains(key)
    }

    /// Whether some global modifier counts as held.
    pub open spec fn any_mods_down(self) -> bool {
        !self.pressed_modifiers.is_empty()
    }

    /// Whether `key` was pressed while a global modifier was held and has not
    /// been released since.
    pub open spec fn is_tracked(self, key: Keysym) -> bool {
        self.pressed.contains(key)
    }

    /// Whether some registered hotkey's modifier mask absorbs `key`.
    pub open spec fn is_local_trigger(self, key: Keysym) -> bool {
        exists|i: int| 0 <= i < self.keystrokes.len() && (#[trigger] self.keystrokes[i]).absorbs(key)
    }

    /// The rule that decides the event `(key, release)` in this state.
    ///
    /// The client gate comes first, then the two modes, then the table over
    /// "is a global modifier", "a modifier is held" and "is tracked".
    pub open spec fn rule(self, key: Keysym, release: bool) -> Rule {
        if !self.has_client {
            Rule::NoClient
        } else if self.grab_all {
            if self.is_global(key) && release {
                Rule::EndGrab
            } else {
                Rule::Captured
            }
        } else if self.notify_all {
            Rule::Notified
        } else if self.is_global(key) {
            if release {
                Rule::ModifierUp
            } else {
                Rule::ModifierDown
            }
        } else if self.any_mods_down() {
            if !self.is_tracked(key) && !release {
                Rule::KeyDown
            } else if self.is_tracked(key) && release {
                Rule::KeyUp
            } else {
                Rule::Mirrored
            }
        } else if self.is_tracked(key) {
            Rule::Uncovered
        } else {
            Rule::PassThrough
        }
    }

    /// The record that the AT would get for the event: the held modifiers are
    /// those from before the event takes effect, and the key code is 0.
    pub open spec fn event(self, key: Keysym, release: bool, unichar: Option<char>) -> KeyEvent {
        KeyEvent { release, state: self.pressed_modifiers, keysym: key, unichar, keycode: 0 }
    }

    /// What the compositor is told to do with the event `(key, release)`, where
    /// `unichar` is the character of `key`.
    pub open spec fn outcome(self, key: Keysym, release: bool, unichar: Option<char>) -> KeyEventType {
        match self.rule(key, release) {
            Rule::NoClient | Rule::PassThrough | Rule::Uncovered => KeyEventType::ProcessNormally,
            Rule::ModifierDown | Rule::ModifierUp => KeyEventType::Swallow,
            Rule::Notified => KeyEventType::SendToATAndProcess(self.event(key, release, unichar)),
            Rule::EndGrab | Rule::Captured | Rule::KeyDown | Rule::KeyUp | Rule::Mirrored => {
                KeyEventType::SendToAT(self.event(key, release, unichar))
            },
        }
    }

    /// The state after the event `(key, release)`.
    pub open spec fn next(self, key: Keysym, release: bool) -> StateView {
        match self.rule(key, release) {
            Rule::EndGrab => StateView { grab_all: false, ..self },
            Rule::ModifierDown => StateView {
                grab_all: true,
                pressed_modifiers: self.pressed_modifiers.union(key),
                ..self
            },
            Rule::ModifierUp => StateView {
                pressed_modifiers: self.pressed_modifiers.without(key),
                ..self
            },
            Rule::KeyDown => StateView { pressed: self.pressed.push(key), ..self },
            Rule::KeyUp => StateView { pressed: without(self.pressed, key), ..self },
            _ => self,
        }
    }

    /// The state after the AT attaches (`true`) or detaches (`false`).
    /// Detaching forgets everything.
    pub open spec fn with_client(self, has_client: bool) -> StateView {
        if has_client {
            StateView { has_client: true, ..self }
        } else {
            StateView::initial()
        }
    }

    /// This state with other global modifiers.
    pub open spec fn with_global_modifiers(self, modifiers: Seq<Keysym>) -> StateView {
        StateView { modifiers, ..self }
    }

    /// This state with other registered hotkeys.
    pub open spec fn with_keystrokes(self, keystrokes: Seq<Keystroke>) -> StateView {
        StateView { keystrokes, ..self }
    }

    /// This state with other held modifiers.
    pub open spec fn with_pressed_modifiers(self, pressed_modifiers: ModMask) -> StateView {
        StateView { pressed_modifiers, ..self }
    }

    /// This state with other tracked keys.
    pub open spec fn with_pressed(self, pressed: Seq<Keysym>) -> StateView {
        StateView { pressed, ..self }
    }

    /// This state with the full grab switched on or off.
    pub open spec fn with_grab_all(self, grab_all: bool) -> StateView {
        StateView { grab_all, ..self }
    }

    /// This state with notify-all switched on or off.
    pub open spec fn with_notify_all(self, notify_all: bool) -> StateView {
        StateView { notify_all, ..self }
    }
}

impl View for State {
    type V = StateView;

    open spec fn view(&self) -> StateView {
        StateView {
            has_client: self.has_client,
            grab_all: self.grab_all,
            notify_all: self.notify_all,
            modifiers: self.modifiers@,
            pressed_modifiers: self.pressed_modifiers,
            keystrokes: self.keystrokes@,
            pressed: self.pressed@,
        }
    }
}

impl State {
    /// Whether the bookkeeping is consistent; see [`StateView::wf`].
    pub open spec fn wf(&self) -> bool {
        self@.wf()
    }

    /// Attaches or detaches the AT. Detaching resets every other field.
    pub fn set_client(&mut self, has_client: bool)
        ensures
            final(self)@ == old(self)@.with_client(has_client),
            old(self).wf() ==> final(self).wf(),
            !has_client ==> final(self).wf(),
    {
        if has_client {
            self.has_client = true;
        } else {
            self.has_client = false;
            self.grab_all = false;
            self.notify_all = false;
            self.modifiers = Vec::new();
            self.pressed_modifiers = ModMask::empty();
            self.keystrokes = Vec::new();
            self.pressed = Vec::new();
        }
    }

    /// Replaces the global modifiers.
    pub fn set_global_modifiers(&mut self, modifiers: Vec<Keysym>)
        ensures
            final(self)@ == old(self)@.with_global_modifiers(modifiers@),
            old(self).wf() ==> final(self).wf(),
    {
        self.modifiers = modifiers;
    }

    /// Replaces the registered hotkeys.
    pub fn set_keystrokes(&mut self, keystrokes: Vec<Keystroke>)
        ensures
            final(self)@ == old(self)@.with_keystrokes(keystrokes@),
            old(self).wf() ==> final(self).wf(),
    {
        self.keystrokes = keystrokes;
    }

    /// Switches the full grab on or off.
    pub fn set_grab_all(&mut self, grab_all: bool)
        ensures
            final(self)@ == old(self)@.with_grab_all(grab_all),
            old(self).wf() ==> final(self).wf(),
    {
        self.grab_all = grab_all;
    }

    /// Switches notify-all on or off.
    pub fn set_notify_all(&mut self, notify_all: bool)
        ensures
            final(self)@ == old(self)@.with_notify_all(notify_all),
            old(self).wf() ==> final(self).wf(),
    {
        self.notify_all = notify_all;
    }

    /// Whether some registered hotkey's modifier mask absorbs `key`. Defined
    /// for every key and every mask; no rule depends on it.
    pub fn is_local_trigger(&self, key: Keysym) -> (b: bool)
        ensures
            b == self@.is_local_trigger(key),
    {
        let mut i: usize = 0;
        while i < self.keystrokes.len()
            invariant
                i <= self.keystrokes.len(),
                forall|j: int| 0 <= j < i ==> !(#[trigger] self.keystrokes@[j]).absorbs(key),
            decreases self.keystrokes.len() - i,
        {
            if self.keystrokes[i].absorbs(key) {
                assert(self@.keystrokes[i as int].absorbs(key));
                return true;
            }
            i += 1;
        }
        false
    }

    /// The rule that decides the event `(key, release)` in this state.
    pub fn rule(&self, key: Keysym, release: bool) -> (rule: Rule)
        ensures
            rule == self@.rule(key, release),
    {
        if !self.has_client {
            return Rule::NoClient;
        }
        let is_global = contains_key(&self.modifiers, key);
        if self.grab_all {
            return if is_global && release {
                Rule::EndGrab
            } else {
                Rule::Captured
            };
        }
        if self.notify_all {
            return Rule::Notified;
        }
        if is_global {
            return if release {
                Rule::ModifierUp
            } else {
                Rule::ModifierDown
            };
        }
        let is_tracked = contains_key(&self.pressed, key);
        if self.pressed_modifiers.is_empty() {
            if is_tracked {
                Rule::Uncovered
            } else {
                Rule::PassThrough
            }
        } else if !is_tracked && !release {
            Rule::KeyDown
        } else if is_tracked && release {
            Rule::KeyUp
        } else {
            Rule::Mirrored
        }
    }

    /// Classifies the event `(key, release)`, given the character `unichar` of
    /// `key`, and updates the state.
    pub fn classify(&mut self, key: Keysym, release: bool, unichar: Option<char>) -> (outcome:
        KeyEventType)
        ensures
            outcome == old(self)@.outcome(key, release, unichar),
            final(self)@ == old(self)@.next(key, release),
            !old(self).has_client ==> outcome == KeyEventType::ProcessNormally && *final(self)
                == *old(self),
            old(self).wf() ==> final(self).wf(),
    {
        let rule = self.rule(key, release);
        proof {
            if self.wf() && rule == Rule::KeyDown {
                lemma_push_no_duplicates(self.pressed@, key);
            }
            if self.wf() && rule == Rule::KeyUp {
                lemma_without_no_duplicates(self.pressed@, key);
            }
        }
        let event = KeyEvent::new(release, self.pressed_modifiers, key, unichar, 0);
        match rule {
            Rule::NoClient | Rule::PassThrough | Rule::Uncovered => KeyEventType::ProcessNormally,
            Rule::Notified => KeyEventType::SendToATAndProcess(event),
            Rule::Captured | Rule::Mirrored => KeyEventType::SendToAT(event),
            Rule::EndGrab => {
                self.grab_all = false;
                KeyEventType::SendToAT(event)
            },
            Rule::ModifierDown => {
                self.grab_all = true;
                self.pressed_modifiers = self.pressed_modifiers.union(key);
                KeyEventType::Swallow
            },
            Rule::ModifierUp => {
                self.pressed_modifiers = self.pressed_modifiers.without(key);
                KeyEventType::Swallow
            },
            Rule::KeyDown => {
                self.pressed.push(key);
                KeyEventType::SendToAT(event)
            },
            Rule::KeyUp => {
                remove_key(&mut self.pressed, key);
                KeyEventType::SendToAT(event)
            },
        }
    }

    /// Classifies the event `(key, release)` and updates the state. The
    /// character handed to the AT is the one XKB gives for `key`.
    pub fn process(&mut self, key: Keysym, release: bool) -> (outcome: KeyEventType)
        ensures
            outcome == old(self)@.outcome(key, release, keysym_char(key.0)),
            final(self)@ == old(self)@.next(key, release),
            !old(self).has_client ==> outcome == KeyEventType::ProcessNormally && *final(self)
                == *old(self),
            old(self).wf() ==> final(self).wf(),
    {
        let unichar = key.key_char();
        self.classify(key, release, unichar)
    }

    /// As [`State::process`], but an event that no rule covers is reported and
    /// not classified: the result is an error exactly for such an event, and
    /// the state is then left alone.
    pub fn try_process(&mut self, key: Keysym, release: bool) -> (result: Result<
        KeyEventType,
        UncoveredEvent,
    >)
        ensures
            result is Err <==> old(self)@.rule(key, release) == Rule::Uncovered,
            result is Err ==> result->Err_0.key == key && result->Err_0.release == release
                && *final(self) == *old(self),
            result is Ok ==> result->Ok_0 == old(self)@.outcome(key, release, keysym_char(key.0))
                && final(self)@ == old(self)@.next(key, release),
            old(self).wf() ==> final(self).wf(),
    {
        match self.rule(key, release) {
            Rule::Uncovered => Err(UncoveredEvent { key, release }),
            _ => Ok(self.process(key, release)),
        }
    }
}

impl Default for State {
    /// The state of a fresh session.
    fn default() -> (state: State)
        ensures
            state@ == StateView::initial(),
            state.wf(),
    {
        State {
            has_client: false,
            grab_all: false,
            notify_all: false,
            modifiers: Vec::new(),
            pressed_modifiers: ModMask::empty(),
            keystrokes: Vec::new(),
            pressed: Vec::new(),
        }
    }
}

} // verus!
