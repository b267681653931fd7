use keyboard_monitor::state_machine::{
    KeyEvent, KeyEventType, Keystroke, Rule, State, UncoveredEvent,
};
use keyboard_monitor::{Keysym, ModMask};
use xkeysym::Keysym as XKeysym;

fn key(k: XKeysym) -> Keysym {
    Keysym(k.raw())
}

fn held(k: XKeysym) -> ModMask {
    ModMask::empty().union(key(k))
}

fn attached(modifiers: Vec<Keysym>) -> State {
    let mut state = State::default();
    state.set_client(true);
    state.set_global_modifiers(modifiers);
    state
}

fn same_fields(a: &State, b: &State) -> bool {
    a.has_client == b.has_client
        && a.grab_all == b.grab_all
        && a.notify_all == b.notify_all
        && a.modifiers == b.modifiers
        && a.pressed_modifiers == b.pressed_modifiers
        && a.keystrokes == b.keystrokes
        && a.pressed == b.pressed
}

fn copy_of(s: &State) -> State {
    State {
        has_client: s.has_client,
        grab_all: s.grab_all,
        notify_all: s.notify_all,
        modifiers: s.modifiers.clone(),
        pressed_modifiers: s.pressed_modifiers,
        keystrokes: s.keystrokes.clone(),
        pressed: s.pressed.clone(),
    }
}

#[test]
fn test_global_standard_keybind() {
    let mut state = State::default();
    let global_mods = vec![Keysym(XKeysym::Caps_Lock.raw())];
    state.modifiers = global_mods;
    state.has_client = true;
    let events = vec![
        (XKeysym::H, false),
        (XKeysym::H, true),
        (XKeysym::Caps_Lock, false),
        (XKeysym::H, false),
        (XKeysym::H, true),
        (XKeysym::Caps_Lock, true),
        (XKeysym::H, false),
        (XKeysym::H, true),
    ];
    // The press of the modifier is swallowed and counts the modifier as held;
    // from then on the records carry it in their mask, and since nothing
    // clears it, the keys after the grab are tracked and go to the AT.
    let expected_results: Vec<KeyEventType> = vec![
        KeyEventType::ProcessNormally,
        KeyEventType::ProcessNormally,
        KeyEventType::Swallow,
        KeyEventType::SendToAT(KeyEvent::new(
            false,
            held(XKeysym::Caps_Lock),
            key(XKeysym::H),
            Some('H'),
            0,
        )),
        KeyEventType::SendToAT(KeyEvent::new(
            true,
            held(XKeysym::Caps_Lock),
            key(XKeysym::H),
            Some('H'),
            0,
        )),
        KeyEventType::SendToAT(KeyEvent::new(
            true,
            held(XKeysym::Caps_Lock),
            key(XKeysym::Caps_Lock),
            None,
            0,
        )),
        KeyEventType::SendToAT(KeyEvent::new(
            false,
            held(XKeysym::Caps_Lock),
            key(XKeysym::H),
            Some('H'),
            0,
        )),
        KeyEventType::SendToAT(KeyEvent::new(
            true,
            held(XKeysym::Caps_Lock),
            key(XKeysym::H),
            Some('H'),
            0,
        )),
    ];
    let mut results = Vec::new();
    for ev in events {
        results.push(state.process(Keysym(ev.0.raw()), ev.1));
    }
    assert_eq!(
        results, expected_results,
        "Expected results do not match the running of the state machine!"
    );
}

#[test]
fn test_global_non_standard_keybind() {
    let mut state = State::default();
    let global_mods = vec![Keysym(XKeysym::H.raw())];
    state.modifiers = global_mods;
    state.has_client = true;
    let local_keys = vec![Keystroke {
        modifiers: ModMask::empty(),
        keysym: key(XKeysym::F),
    }];
    state.keystrokes = local_keys;
    let events = vec![
        (XKeysym::F, false),
        (XKeysym::F, true),
        (XKeysym::H, false),
        (XKeysym::F, false),
        (XKeysym::F, true),
        (XKeysym::H, true),
        (XKeysym::F, false),
        (XKeysym::F, true),
    ];
    let expected_results: Vec<KeyEventType> = vec![
        KeyEventType::ProcessNormally,
        KeyEventType::ProcessNormally,
        KeyEventType::Swallow,
        KeyEventType::SendToAT(KeyEvent::new(
            false,
            held(XKeysym::H),
            key(XKeysym::F),
            Some('F'),
            0,
        )),
        KeyEventType::SendToAT(KeyEvent::new(
            true,
            held(XKeysym::H),
            key(XKeysym::F),
            Some('F'),
            0,
        )),
        KeyEventType::SendToAT(KeyEvent::new(
            true,
            held(XKeysym::H),
            key(XKeysym::H),
            Some('H'),
            0,
        )),
        KeyEventType::SendToAT(KeyEvent::new(
            false,
            held(XKeysym::H),
            key(XKeysym::F),
            Some('F'),
            0,
        )),
        KeyEventType::SendToAT(KeyEvent::new(
            true,
            held(XKeysym::H),
            key(XKeysym::F),
            Some('F'),
            0,
        )),
    ];
    let mut results = Vec::new();
    for ev in events {
        results.push(state.process(Keysym(ev.0.raw()), ev.1));
    }
    assert_eq!(
        expected_results, results,
        "Expected results do not match the running of the state machine!"
    );
}

#[test]
fn fresh_state_is_empty() {
    let state = State::default();
    assert!(!state.has_client);
    assert!(!state.grab_all);
    assert!(!state.notify_all);
    assert!(state.modifiers.is_empty());
    assert!(state.pressed_modifiers.is_empty());
    assert!(state.keystrokes.is_empty());
    assert!(state.pressed.is_empty());
}

#[test]
fn without_client_everything_passes_and_nothing_changes() {
    let mut state = State::default();
    state.set_global_modifiers(vec![key(XKeysym::Caps_Lock)]);
    state.set_grab_all(true);
    state.set_notify_all(true);
    let before = copy_of(&state);
    for (k, release) in [
        (XKeysym::Caps_Lock, false),
        (XKeysym::Caps_Lock, true),
        (XKeysym::H, false),
        (XKeysym::H, true),
    ] {
        assert_eq!(state.rule(key(k), release), Rule::NoClient);
        assert_eq!(state.process(key(k), release), KeyEventType::ProcessNormally);
        assert!(same_fields(&state, &before));
    }
}

#[test]
fn global_hotkey_round() {
    let mut state = attached(vec![key(XKeysym::Caps_Lock)]);
    let caps = held(XKeysym::Caps_Lock);

    assert_eq!(state.process(key(XKeysym::Caps_Lock), false), KeyEventType::Swallow);
    assert!(state.grab_all);
    assert_eq!(state.pressed_modifiers, caps);

    assert_eq!(
        state.process(key(XKeysym::H), false),
        KeyEventType::SendToAT(KeyEvent::new(false, caps, key(XKeysym::H), Some('H'), 0))
    );
    assert_eq!(
        state.process(key(XKeysym::H), true),
        KeyEventType::SendToAT(KeyEvent::new(true, caps, key(XKeysym::H), Some('H'), 0))
    );
    assert!(state.grab_all);
    assert!(state.pressed.is_empty());

    // The release that ends the grab is handed on, not swallowed.
    assert_eq!(
        state.process(key(XKeysym::Caps_Lock), true),
        KeyEventType::SendToAT(KeyEvent::new(true, caps, key(XKeysym::Caps_Lock), None, 0))
    );
    assert!(!state.grab_all);
    assert_eq!(state.pressed_modifiers, caps);
}

#[test]
fn modifier_tap_restores_grab_flag() {
    let mut state = attached(vec![key(XKeysym::Shift_L), key(XKeysym::Caps_Lock)]);
    let before = copy_of(&state);
    assert_eq!(state.rule(key(XKeysym::Caps_Lock), false), Rule::ModifierDown);
    assert_eq!(state.process(key(XKeysym::Caps_Lock), false), KeyEventType::Swallow);
    assert_eq!(state.rule(key(XKeysym::Caps_Lock), true), Rule::EndGrab);
    assert_eq!(
        state.process(key(XKeysym::Caps_Lock), true),
        KeyEventType::SendToAT(KeyEvent::new(
            true,
            held(XKeysym::Caps_Lock),
            key(XKeysym::Caps_Lock),
            None,
            0
        ))
    );
    assert_eq!(state.grab_all, before.grab_all);
    assert_eq!(state.pressed_modifiers, ModMask(0xffe5));
    assert_eq!(state.pressed, before.pressed);
    assert_eq!(state.modifiers, before.modifiers);

    // A second tap finds the modifier held already and leaves the state as it is.
    let again = copy_of(&state);
    assert_eq!(state.process(key(XKeysym::Caps_Lock), false), KeyEventType::Swallow);
    assert!(matches!(
        state.process(key(XKeysym::Caps_Lock), true),
        KeyEventType::SendToAT(_)
    ));
    assert!(same_fields(&state, &again));
}

#[test]
fn modifier_release_outside_grab_is_swallowed_and_cleared() {
    let mut state = attached(vec![key(XKeysym::Caps_Lock)]);
    state.pressed_modifiers = ModMask(0xffe5 | 0x1_0000);
    assert_eq!(state.rule(key(XKeysym::Caps_Lock), true), Rule::ModifierUp);
    assert_eq!(state.process(key(XKeysym::Caps_Lock), true), KeyEventType::Swallow);
    assert_eq!(state.pressed_modifiers, ModMask(0x1_0000));
    assert!(!state.grab_all);

    assert_eq!(state.process(key(XKeysym::Caps_Lock), false), KeyEventType::Swallow);
    state.set_grab_all(false);
    assert_eq!(state.process(key(XKeysym::Caps_Lock), true), KeyEventType::Swallow);
    assert_eq!(state.pressed_modifiers, ModMask(0x1_0000));
}

#[test]
fn plain_key_passes_without_modifiers() {
    let mut state = attached(vec![]);
    let before = copy_of(&state);
    assert_eq!(state.rule(key(XKeysym::A), false), Rule::PassThrough);
    assert_eq!(state.process(key(XKeysym::A), false), KeyEventType::ProcessNormally);
    assert!(same_fields(&state, &before));
}

#[test]
fn unconfigured_state_passes_every_event() {
    for has_client in [false, true] {
        let mut state = State::default();
        state.set_client(has_client);
        let before = copy_of(&state);
        for raw in [0u32, 0x20, 0x41, 0x48, 0xffe1, 0xffe5, 0xffff_ffff] {
            for release in [false, true] {
                assert_eq!(state.process(Keysym(raw), release), KeyEventType::ProcessNormally);
                assert!(same_fields(&state, &before));
            }
        }
    }
}

#[test]
fn unconfigured_state_with_a_held_modifier_does_not_pass() {
    let mut state = attached(vec![]);
    state.pressed_modifiers = ModMask(1);
    assert_eq!(
        state.process(key(XKeysym::A), false),
        KeyEventType::SendToAT(KeyEvent::new(false, ModMask(1), key(XKeysym::A), Some('A'), 0))
    );
    assert_eq!(state.pressed, vec![key(XKeysym::A)]);
}

#[test]
fn notify_all_copies_every_event() {
    let mut state = attached(vec![key(XKeysym::Caps_Lock)]);
    state.set_notify_all(true);
    let before = copy_of(&state);
    assert_eq!(state.rule(key(XKeysym::H), false), Rule::Notified);
    assert_eq!(
        state.process(key(XKeysym::H), false),
        KeyEventType::SendToATAndProcess(KeyEvent::new(
            false,
            ModMask::empty(),
            key(XKeysym::H),
            Some('H'),
            0
        ))
    );
    assert!(same_fields(&state, &before));
    assert_eq!(
        state.process(key(XKeysym::Caps_Lock), false),
        KeyEventType::SendToATAndProcess(KeyEvent::new(
            false,
            ModMask::empty(),
            key(XKeysym::Caps_Lock),
            None,
            0
        ))
    );
    assert_eq!(
        state.process(key(XKeysym::Caps_Lock), true),
        KeyEventType::SendToATAndProcess(KeyEvent::new(
            true,
            ModMask::empty(),
            key(XKeysym::Caps_Lock),
            None,
            0
        ))
    );
    assert!(same_fields(&state, &before));
}

#[test]
fn full_grab_takes_precedence_over_notify_all() {
    let mut state = attached(vec![key(XKeysym::Caps_Lock)]);
    state.set_notify_all(true);
    state.set_grab_all(true);
    assert_eq!(
        state.process(key(XKeysym::H), false),
        KeyEventType::SendToAT(KeyEvent::new(
            false,
            ModMask::empty(),
            key(XKeysym::H),
            Some('H'),
            0
        ))
    );
}

#[test]
fn full_grab_survives_other_releases() {
    let mut state = attached(vec![key(XKeysym::Caps_Lock)]);
    state.set_grab_all(true);
    let before = copy_of(&state);
    assert_eq!(state.rule(key(XKeysym::X), true), Rule::Captured);
    assert_eq!(
        state.process(key(XKeysym::X), true),
        KeyEventType::SendToAT(KeyEvent::new(
            true,
            ModMask::empty(),
            key(XKeysym::X),
            Some('X'),
            0
        ))
    );
    assert!(state.grab_all);
    assert!(same_fields(&state, &before));

    // Nor does a press of the modifier end it.
    assert!(matches!(
        state.process(key(XKeysym::Caps_Lock), false),
        KeyEventType::SendToAT(_)
    ));
    assert!(state.grab_all);
    assert!(same_fields(&state, &before));

    // Its release does.
    assert_eq!(
        state.process(key(XKeysym::Caps_Lock), true),
        KeyEventType::SendToAT(KeyEvent::new(
            true,
            ModMask::empty(),
            key(XKeysym::Caps_Lock),
            None,
            0
        ))
    );
    assert!(!state.grab_all);
    assert_eq!(state.pressed_modifiers, before.pressed_modifiers);
    assert_eq!(state.pressed, before.pressed);
}

#[test]
fn keys_are_tracked_while_a_modifier_is_held() {
    let mut state = attached(vec![key(XKeysym::Caps_Lock)]);
    state.pressed_modifiers = held(XKeysym::Caps_Lock);
    let caps = held(XKeysym::Caps_Lock);
    let h = key(XKeysym::H);
    let f = key(XKeysym::F);
    let to_at = |release: bool, k: Keysym, c: char| {
        KeyEventType::SendToAT(KeyEvent::new(release, caps, k, Some(c), 0))
    };

    // A release with no press before it: mirrored, nothing tracked.
    assert_eq!(state.rule(h, true), Rule::Mirrored);
    assert_eq!(state.process(h, true), to_at(true, h, 'H'));
    assert_eq!(state.pressed, Vec::<Keysym>::new());

    assert_eq!(state.rule(h, false), Rule::KeyDown);
    assert_eq!(state.process(h, false), to_at(false, h, 'H'));
    assert_eq!(state.pressed, vec![h]);

    // A repeat: mirrored, not tracked twice.
    assert_eq!(state.rule(h, false), Rule::Mirrored);
    assert_eq!(state.process(h, false), to_at(false, h, 'H'));
    assert_eq!(state.pressed, vec![h]);

    assert_eq!(state.process(f, false), to_at(false, f, 'F'));
    assert_eq!(state.pressed, vec![h, f]);

    assert_eq!(state.rule(h, true), Rule::KeyUp);
    assert_eq!(state.process(h, true), to_at(true, h, 'H'));
    assert_eq!(state.pressed, vec![f]);

    assert_eq!(state.process(f, true), to_at(true, f, 'F'));
    assert_eq!(state.pressed, Vec::<Keysym>::new());

    assert_eq!(state.process(f, true), to_at(true, f, 'F'));
    assert_eq!(state.pressed, Vec::<Keysym>::new());
    assert_eq!(state.pressed_modifiers, caps);
    assert!(!state.grab_all);
}

#[test]
fn release_takes_out_every_copy_of_a_key() {
    let mut state = attached(vec![]);
    state.pressed_modifiers = ModMask(4);
    let h = key(XKeysym::H);
    let f = key(XKeysym::F);
    state.pressed = vec![h, f, h, h, f];
    assert!(matches!(state.process(h, true), KeyEventType::SendToAT(_)));
    assert_eq!(state.pressed, vec![f, f]);
}

#[test]
fn tracked_key_without_a_held_modifier_passes_through() {
    let mut state = attached(vec![key(XKeysym::Caps_Lock)]);
    state.pressed_modifiers = held(XKeysym::Caps_Lock);
    let h = key(XKeysym::H);
    assert!(matches!(state.process(h, false), KeyEventType::SendToAT(_)));
    assert_eq!(state.process(key(XKeysym::Caps_Lock), true), KeyEventType::Swallow);
    assert!(state.pressed_modifiers.is_empty());
    assert_eq!(state.pressed, vec![h]);

    let before = copy_of(&state);
    for release in [false, true] {
        assert_eq!(state.rule(h, release), Rule::Uncovered);
        assert_eq!(state.process(h, release), KeyEventType::ProcessNormally);
        assert!(same_fields(&state, &before));
    }
    assert_eq!(state.rule(key(XKeysym::F), true), Rule::PassThrough);
}

#[test]
fn detaching_resets_everything() {
    let mut state = attached(vec![key(XKeysym::Caps_Lock)]);
    state.set_keystrokes(vec![Keystroke { modifiers: ModMask(3), keysym: key(XKeysym::F) }]);
    state.set_notify_all(true);
    state.process(key(XKeysym::Caps_Lock), false);
    state.set_notify_all(false);
    state.set_grab_all(false);
    state.process(key(XKeysym::Caps_Lock), false);
    state.set_grab_all(false);
    state.process(key(XKeysym::H), false);
    assert!(!state.pressed.is_empty());
    assert!(!state.pressed_modifiers.is_empty());

    state.set_client(false);
    assert!(same_fields(&state, &State::default()));
}

#[test]
fn attaching_changes_only_the_client_flag() {
    let mut state = State::default();
    state.set_global_modifiers(vec![key(XKeysym::Caps_Lock)]);
    state.set_grab_all(true);
    let mut expected = copy_of(&state);
    expected.has_client = true;
    state.set_client(true);
    assert!(same_fields(&state, &expected));
    state.set_client(true);
    assert!(same_fields(&state, &expected));
}

#[test]
fn setters_replace_one_field() {
    let mut state = attached(vec![key(XKeysym::Caps_Lock)]);
    let before = copy_of(&state);

    state.set_global_modifiers(vec![key(XKeysym::Shift_L), key(XKeysym::H)]);
    assert_eq!(state.modifiers, vec![Keysym(0xffe1), Keysym(0x48)]);
    state.set_global_modifiers(before.modifiers.clone());
    assert!(same_fields(&state, &before));

    let strokes = vec![
        Keystroke { modifiers: ModMask(1), keysym: key(XKeysym::F) },
        Keystroke { modifiers: ModMask(2), keysym: key(XKeysym::H) },
    ];
    state.set_keystrokes(strokes.clone());
    assert_eq!(state.keystrokes, strokes);
    state.set_keystrokes(vec![]);
    assert!(same_fields(&state, &before));

    state.set_grab_all(true);
    assert!(state.grab_all);
    state.set_grab_all(false);
    state.set_notify_all(true);
    assert!(state.notify_all);
    state.set_notify_all(false);
    assert!(same_fields(&state, &before));
}

#[test]
fn local_trigger_needs_a_mask_that_holds_the_key() {
    let mut state = State::default();
    assert!(!state.is_local_trigger(key(XKeysym::F)));
    assert!(!state.is_local_trigger(Keysym(0)));

    state.set_keystrokes(vec![Keystroke { modifiers: ModMask::empty(), keysym: key(XKeysym::F) }]);
    assert!(!state.is_local_trigger(key(XKeysym::F)));
    assert!(state.is_local_trigger(Keysym(0)));

    state.set_keystrokes(vec![
        Keystroke { modifiers: ModMask(0x01), keysym: key(XKeysym::F) },
        Keystroke { modifiers: ModMask(0x4e), keysym: key(XKeysym::H) },
    ]);
    // F is 0x46: every bit of it is in 0x4e.
    assert!(state.is_local_trigger(key(XKeysym::F)));
    // H is 0x48: so is every bit of it.
    assert!(state.is_local_trigger(key(XKeysym::H)));
    // A is 0x41: bit 0 is in the first mask only, bit 6 in the second only.
    assert!(!state.is_local_trigger(key(XKeysym::A)));
    assert!(!state.is_local_trigger(Keysym(0xffff_ffff)));
}

#[test]
fn local_trigger_decides_nothing() {
    let mut state = attached(vec![]);
    state.set_keystrokes(vec![Keystroke { modifiers: ModMask(0x4e), keysym: key(XKeysym::H) }]);
    assert!(state.is_local_trigger(key(XKeysym::F)));
    assert_eq!(state.process(key(XKeysym::F), false), KeyEventType::ProcessNormally);
    assert_eq!(state.process(key(XKeysym::F), true), KeyEventType::ProcessNormally);
}

#[test]
fn keystroke_absorbs() {
    let stroke = Keystroke { modifiers: ModMask(0b1100), keysym: key(XKeysym::F) };
    assert!(stroke.absorbs(Keysym(0b0100)));
    assert!(stroke.absorbs(Keysym(0b1100)));
    assert!(stroke.absorbs(Keysym(0)));
    assert!(!stroke.absorbs(Keysym(0b0110)));
}

#[test]
fn classify_hands_on_the_character_it_is_given() {
    let mut state = attached(vec![]);
    state.set_grab_all(true);
    assert_eq!(
        state.classify(key(XKeysym::H), false, Some('x')),
        KeyEventType::SendToAT(KeyEvent::new(false, ModMask::empty(), key(XKeysym::H), Some('x'), 0))
    );
    assert_eq!(
        state.classify(key(XKeysym::H), true, None),
        KeyEventType::SendToAT(KeyEvent::new(true, ModMask::empty(), key(XKeysym::H), None, 0))
    );
}

#[test]
fn process_looks_the_character_up() {
    let mut state = attached(vec![]);
    state.set_grab_all(true);
    for (k, c) in [
        (XKeysym::a, Some('a')),
        (XKeysym::space, Some(' ')),
        (XKeysym::Return, Some('\r')),
        (XKeysym::Shift_L, None),
        (XKeysym::Caps_Lock, None),
    ] {
        for release in [false, true] {
            assert_eq!(
                state.process(key(k), release),
                KeyEventType::SendToAT(KeyEvent::new(release, ModMask::empty(), key(k), c, 0))
            );
        }
    }
}

#[test]
fn key_event_new_keeps_its_arguments() {
    let event = KeyEvent::new(true, ModMask(7), Keysym(0x48), Some('H'), 35);
    assert!(event.release);
    assert_eq!(event.state, ModMask(7));
    assert_eq!(event.keysym, Keysym(0x48));
    assert_eq!(event.unichar, Some('H'));
    assert_eq!(event.keycode, 35);
    assert_eq!(
        event,
        KeyEvent { release: true, state: ModMask(7), keysym: Keysym(0x48), unichar: Some('H'), keycode: 35 }
    );
}

#[test]
fn try_process_reports_what_no_rule_covers() {
    let mut state = attached(vec![key(XKeysym::Caps_Lock)]);
    let h = key(XKeysym::H);
    state.pressed = vec![h];
    let before = copy_of(&state);
    assert_eq!(state.try_process(h, true), Err(UncoveredEvent { key: h, release: true }));
    assert!(same_fields(&state, &before));
    assert_eq!(state.try_process(h, false), Err(UncoveredEvent { key: h, release: false }));
    assert!(same_fields(&state, &before));
}

#[test]
fn try_process_agrees_with_process_elsewhere() {
    let events = [
        (XKeysym::H, false),
        (XKeysym::H, true),
        (XKeysym::Caps_Lock, false),
        (XKeysym::H, false),
        (XKeysym::Caps_Lock, true),
        (XKeysym::F, false),
        (XKeysym::H, true),
        (XKeysym::F, true),
        (XKeysym::F, true),
    ];
    let mut tried = attached(vec![key(XKeysym::Caps_Lock)]);
    let mut plain = attached(vec![key(XKeysym::Caps_Lock)]);
    for (k, release) in events {
        assert_ne!(plain.rule(key(k), release), Rule::Uncovered);
        assert_eq!(tried.try_process(key(k), release), Ok(plain.process(key(k), release)));
        assert!(same_fields(&tried, &plain));
    }
    assert_eq!(plain.pressed, Vec::<Keysym>::new());
    assert_eq!(plain.pressed_modifiers, held(XKeysym::Caps_Lock));
}
