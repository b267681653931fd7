//! What holds of the classifier, whatever the events.
//!
//! The statements are over [`StateView`], in which [`State::process`] and
//! [`State::classify`] are specified: `outcome` is what a call returns and
//! `next` is the state it leaves. A sequence of calls is a [`run`].
//!
//! [`State::process`]: crate::state_machine::State::process
//! [`State::classify`]: crate::state_machine::State::classify

use vstd::prelude::*;
use crate::key_list::{
    lemma_push_no_duplicates, lemma_without_contains, lemma_without_len,
    lemma_without_no_duplicates, lemma_without_shrinks, without,
};
use crate::mask::{lemma_union_commutes, lemma_union_then_without};
use crate::keysym::Keysym;
use crate::state_machine::{KeyEventType, Rule, StateView};

verus! {

/// The state after the events `events`, each a key and whether it was
/// released, have been classified in order, starting from `s`.
pub open spec fn run(s: StateView, events: Seq<(Keysym, bool)>) -> StateView
    decreases events.len(),
{
    if events.len() == 0 {
        s
    } else {
        run(s, events.drop_last()).next(events.last().0, events.last().1)
    }
}

/// In a run from `s`, event `j` is the press that put `k` among the tracked
/// keys, and `k` has stayed there up to the end of `events`.
pub open spec fn tracked_since(s: StateView, events: Seq<(Keysym, bool)>, k: Keysym, j: int) -> bool {
    &&& 0 <= j < events.len()
    &&& events[j] == (k, false)
    &&& run(s, events.take(j)).rule(k, false) == Rule::KeyDown
    &&& forall|t: int| j < t <= events.len() ==> (#[trigger] run(s, events.take(t))).is_tracked(k)
}

/// The state after `m` has been pressed and then released.
pub open spec fn tapped(s: StateView, m: Keysym) -> StateView {
    s.next(m, false).next(m, true)
}

/// Without a client every event is processed normally and the state stays as
/// it is.
pub proof fn lemma_no_client_is_inert(s: StateView, key: Keysym, release: bool, unichar: Option<char>)
    requires
        !s.has_client,
    ensures
        s.outcome(key, release, unichar) == KeyEventType::ProcessNormally,
        s.next(key, release) == s,
{
}

/// An event changes nothing but the grab flag, the held modifiers and the
/// tracked keys: what the AT configured is never touched.
pub proof fn lemma_next_keeps_configuration(s: StateView, key: Keysym, release: bool)
    ensures
        s.next(key, release).has_client == s.has_client,
        s.next(key, release).notify_all == s.notify_all,
        s.next(key, release).modifiers == s.modifiers,
        s.next(key, release).keystrokes == s.keystrokes,
{
}

/// An event keeps the bookkeeping consistent.
pub proof fn lemma_next_preserves_wf(s: StateView, key: Keysym, release: bool)
    requires
        s.wf(),
    ensures
        s.next(key, release).wf(),
{
    if s.rule(key, release) == Rule::KeyDown {
        lemma_push_no_duplicates(s.pressed, key);
    }
    if s.rule(key, release) == Rule::KeyUp {
        lemma_without_no_duplicates(s.pressed, key);
    }
}

/// A run keeps the bookkeeping consistent.
pub proof fn lemma_run_preserves_wf(s: StateView, events: Seq<(Keysym, bool)>)
    requires
        s.wf(),
    ensures
        run(s, events).wf(),
    decreases events.len(),
{
    if events.len() > 0 {
        lemma_run_preserves_wf(s, events.drop_last());
        lemma_next_preserves_wf(run(s, events.drop_last()), events.last().0, events.last().1);
    }
}

/// Tapping a global modifier, outside a full grab and outside notify-all.
///
/// The press is swallowed and begins a grab. The release ends that grab and
/// goes to the AT, with the modifier in the record's mask. Afterwards the grab
/// flag is as it was before the press, the modifier counts as held, and
/// nothing else has changed. A second tap changes nothing more, and neither
/// does the first if the modifier counted as held already.
pub proof fn lemma_modifier_tap(s: StateView, m: Keysym, unichar: Option<char>)
    requires
        s.has_client,
        !s.grab_all,
        !s.notify_all,
        s.is_global(m),
    ensures
        s.outcome(m, false, unichar) == KeyEventType::Swallow,
        s.next(m, false).grab_all,
        s.next(m, false).outcome(m, true, unichar) == KeyEventType::SendToAT(
            s.with_pressed_modifiers(s.pressed_modifiers.union(m)).event(m, true, unichar),
        ),
        tapped(s, m) == s.with_pressed_modifiers(s.pressed_modifiers.union(m)),
        tapped(s, m).grab_all == s.grab_all,
        tapped(tapped(s, m), m) == tapped(s, m),
        s.pressed_modifiers.union(m) == s.pressed_modifiers ==> tapped(s, m) == s,
{
    lemma_union_commutes(s.pressed_modifiers, m, m);
}

/// A global modifier pressed and released with the full grab switched off in
/// between: both events are swallowed, the grab flag ends as it began, and the
/// held modifiers end as they began exactly when the modifier shared no bit
/// with them.
pub proof fn lemma_modifier_tap_with_ungrab(s: StateView, m: Keysym, unichar: Option<char>)
    requires
        s.has_client,
        !s.grab_all,
        !s.notify_all,
        s.is_global(m),
    ensures
        s.outcome(m, false, unichar) == KeyEventType::Swallow,
        s.next(m, false).with_grab_all(false).outcome(m, true, unichar) == KeyEventType::Swallow,
        s.next(m, false).with_grab_all(false).next(m, true) == s.with_pressed_modifiers(
            s.pressed_modifiers.without(m),
        ),
        s.next(m, false).with_grab_all(false).next(m, true) == s
            <==> s.pressed_modifiers.intersect(m).is_empty(),
{
    lemma_union_then_without(s.pressed_modifiers, m);
}

/// The rules outside the two modes, one clause for each combination of "the
/// key is a global modifier", "a modifier is held", "the key is tracked" and
/// "the event is a release".
pub proof fn lemma_transition_table(s: StateView, key: Keysym, release: bool, unichar: Option<char>)
    requires
        s.has_client,
        !s.grab_all,
        !s.notify_all,
    ensures
        s.is_global(key) && !release ==> s.outcome(key, release, unichar) == KeyEventType::Swallow
            && s.next(key, release) == s.with_grab_all(true).with_pressed_modifiers(
            s.pressed_modifiers.union(key),
        ),
        s.is_global(key) && release ==> s.outcome(key, release, unichar) == KeyEventType::Swallow
            && s.next(key, release) == s.with_pressed_modifiers(s.pressed_modifiers.without(key)),
        !s.is_global(key) && s.any_mods_down() && !s.is_tracked(key) && !release ==> s.outcome(
            key,
            release,
            unichar,
        ) == KeyEventType::SendToAT(s.event(key, release, unichar)) && s.next(key, release)
            == s.with_pressed(s.pressed.push(key)),
        !s.is_global(key) && s.any_mods_down() && s.is_tracked(key) && release ==> s.outcome(
            key,
            release,
            unichar,
        ) == KeyEventType::SendToAT(s.event(key, release, unichar)) && s.next(key, release)
            == s.with_pressed(without(s.pressed, key)),
        !s.is_global(key) && s.any_mods_down() && s.is_tracked(key) != release ==> s.outcome(
            key,
            release,
            unichar,
        ) == KeyEventType::SendToAT(s.event(key, release, unichar)) && s.next(key, release) == s,
        !s.is_global(key) && !s.any_mods_down() ==> s.outcome(key, release, unichar)
            == KeyEventType::ProcessNormally && s.next(key, release) == s,
        !s.is_global(key) && !s.any_mods_down() ==> (s.rule(key, release) == Rule::Uncovered
            <==> s.is_tracked(key)),
{
}

/// One event moves at most its own key into or out of the tracked keys: in by
/// a first press, out by a release, both only while a global modifier is held.
pub proof fn lemma_tracking_step(s: StateView, key: Keysym, release: bool, k: Keysym)
    ensures
        !s.is_tracked(k) && s.next(key, release).is_tracked(k) ==> key == k && !release && s.rule(
            key,
            release,
        ) == Rule::KeyDown,
        s.is_tracked(k) && !s.next(key, release).is_tracked(k) ==> key == k && release && s.rule(
            key,
            release,
        ) == Rule::KeyUp,
        s.rule(key, release) == Rule::KeyDown ==> s.any_mods_down() && !s.is_tracked(key)
            && s.next(key, release).is_tracked(key),
        s.rule(key, release) == Rule::KeyUp ==> s.any_mods_down() && s.is_tracked(key)
            && !s.next(key, release).is_tracked(key),
{
    match s.rule(key, release) {
        Rule::KeyDown => {
            let after = s.pressed.push(key);
            assert(after[s.pressed.len() as int] == key);
            if after.contains(k) && k != key {
                let i = choose|i: int| 0 <= i < after.len() && after[i] == k;
                assert(s.pressed[i] == k);
            }
            if s.pressed.contains(k) {
                let i = choose|i: int| 0 <= i < s.pressed.len() && s.pressed[i] == k;
                assert(after[i] == k);
            }
        },
        Rule::KeyUp => {
            lemma_without_contains(s.pressed, key, k);
            lemma_without_contains(s.pressed, key, key);
        },
        _ => {},
    }
}

/// The number of tracked keys. A first press adds one. A release takes keys
/// away only from a list that holds one, and exactly one if no key is tracked
/// twice. Nothing else changes the list.
pub proof fn lemma_tracked_count_step(s: StateView, key: Keysym, release: bool)
    ensures
        s.rule(key, release) == Rule::KeyDown ==> s.next(key, release).pressed.len()
            == s.pressed.len() + 1,
        s.rule(key, release) == Rule::KeyUp ==> 1 <= s.pressed.len() && s.next(
            key,
            release,
        ).pressed.len() < s.pressed.len(),
        s.rule(key, release) == Rule::KeyUp && s.pressed.no_duplicates() ==> s.next(
            key,
            release,
        ).pressed.len() == s.pressed.len() - 1,
        s.rule(key, release) != Rule::KeyDown && s.rule(key, release) != Rule::KeyUp ==> s.next(
            key,
            release,
        ).pressed == s.pressed,
        s.pressed.no_duplicates() ==> s.next(key, release).pressed.no_duplicates(),
{
    if s.rule(key, release) == Rule::KeyDown && s.pressed.no_duplicates() {
        lemma_push_no_duplicates(s.pressed, key);
    }
    if s.rule(key, release) == Rule::KeyUp {
        lemma_without_shrinks(s.pressed, key);
        if s.pressed.no_duplicates() {
            lemma_without_no_duplicates(s.pressed, key);
            lemma_without_len(s.pressed, key);
        }
    }
}

/// A key that is tracked after a run, and was not before it, was pressed in
/// the run while a global modifier was held, and has been tracked ever since.
/// The result is the index of that press.
pub proof fn lemma_tracked_key_was_pressed(s: StateView, events: Seq<(Keysym, bool)>, k: Keysym) -> (j:
    int)
    requires
        !s.is_tracked(k),
        run(s, events).is_tracked(k),
    ensures
        tracked_since(s, events, k, j),
    decreases events.len(),
{
    let front = events.drop_last();
    let before = run(s, front);
    assert(events.take(events.len() as int) == events);
    if before.is_tracked(k) {
        let j = lemma_tracked_key_was_pressed(s, front, k);
        assert(front.take(j) == events.take(j));
        assert forall|t: int| j < t <= events.len() implies (#[trigger] run(
            s,
            events.take(t),
        )).is_tracked(k) by {
            if t < events.len() {
                assert(front.take(t) == events.take(t));
            }
        }
        j
    } else {
        lemma_tracking_step(before, events.last().0, events.last().1, k);
        let j = events.len() - 1;
        assert(events.take(j) == front);
        j
    }
}

/// A key leaves the tracked keys only by its own release, made while a global
/// modifier is held, and only after a press of that key put it there: for a
/// key that was not tracked when the run began, that press is an earlier event
/// of the same run, and the key was tracked from that press to this release.
/// The result is the index of the press.
pub proof fn lemma_release_follows_press(
    s: StateView,
    events: Seq<(Keysym, bool)>,
    i: int,
    k: Keysym,
) -> (j: int)
    requires
        0 <= i < events.len(),
        !s.is_tracked(k),
        run(s, events.take(i)).is_tracked(k),
        !run(s, events.take(i + 1)).is_tracked(k),
    ensures
        events[i] == (k, true),
        run(s, events.take(i)).rule(k, true) == Rule::KeyUp,
        run(s, events.take(i)).any_mods_down(),
        0 <= j < i,
        tracked_since(s, events.take(i), k, j),
{
    let upto = events.take(i);
    let before = run(s, upto);
    assert(events.take(i + 1).drop_last() == upto);
    assert(events.take(i + 1).last() == events[i]);
    lemma_tracking_step(before, events[i].0, events[i].1, k);
    lemma_tracked_key_was_pressed(s, upto, k)
}

/// With no global modifiers configured, no mode switched on and no modifier
/// counting as held, an event is processed normally and changes nothing.
pub proof fn lemma_pass_through_step(s: StateView, key: Keysym, release: bool, unichar: Option<char>)
    requires
        s.modifiers.len() == 0,
        !s.grab_all,
        !s.notify_all,
        !s.any_mods_down(),
    ensures
        s.outcome(key, release, unichar) == KeyEventType::ProcessNormally,
        s.next(key, release) == s,
{
}

/// With no global modifiers configured, no mode switched on and no modifier
/// counting as held, every event of every run is processed normally, and the
/// state never changes.
pub proof fn lemma_pass_through_default(
    s: StateView,
    events: Seq<(Keysym, bool)>,
    i: int,
    unichar: Option<char>,
)
    requires
        s.modifiers.len() == 0,
        !s.grab_all,
        !s.notify_all,
        !s.any_mods_down(),
        0 <= i < events.len(),
    ensures
        run(s, events) == s,
        run(s, events.take(i)) == s,
        run(s, events.take(i)).outcome(events[i].0, events[i].1, unichar)
            == KeyEventType::ProcessNormally,
{
    lemma_pass_through_run(s, events);
    lemma_pass_through_run(s, events.take(i));
    lemma_pass_through_step(s, events[i].0, events[i].1, unichar);
}

/// With no global modifiers configured, no mode switched on and no modifier
/// counting as held, a run leaves the state as it is.
pub proof fn lemma_pass_through_run(s: StateView, events: Seq<(Keysym, bool)>)
    requires
        s.modifiers.len() == 0,
        !s.grab_all,
        !s.notify_all,
        !s.any_mods_down(),
    ensures
        run(s, events) == s,
    decreases events.len(),
{
    if events.len() > 0 {
        lemma_pass_through_run(s, events.drop_last());
        lemma_pass_through_step(s, events.last().0, events.last().1, None);
    }
}

/// In notify-all mode, with a client and no full grab, every event goes to the
/// AT and is processed as well, and the state stays as it is.
pub proof fn lemma_notify_all_copies(s: StateView, key: Keysym, release: bool, unichar: Option<char>)
    requires
        s.has_client,
        !s.grab_all,
        s.notify_all,
    ensures
        s.outcome(key, release, unichar) == KeyEventType::SendToATAndProcess(
            s.event(key, release, unichar),
        ),
        s.next(key, release) == s,
{
}

/// During a full grab every event goes to the AT only. The grab ends with the
/// release of a global modifier and with nothing else; no other field changes.
pub proof fn lemma_full_grab(s: StateView, key: Keysym, release: bool, unichar: Option<char>)
    requires
        s.has_client,
        s.grab_all,
    ensures
        s.outcome(key, release, unichar) == KeyEventType::SendToAT(s.event(key, release, unichar)),
        s.next(key, release).grab_all == !(s.is_global(key) && release),
        s.next(key, release) == s.with_grab_all(s.next(key, release).grab_all),
{
}

} // verus!
