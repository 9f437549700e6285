use murmur::capture::{CANCEL, FINISH};
use murmur::insertion::Target;
use murmur::platform::macos::{
    check_insertion, check_paste, label_for, may_restore, target, Effect, Field, Input, Keyboard,
    PasteFailure, Press, Shell, CONTROL_FLAG, ESCAPE, FLAGS_CHANGED, KEY_DOWN, LIMIT_MS,
    MESSAGE_MS, OTHER_FLAGS, TAP_DISABLED, TAP_TIMED_OUT,
};
use murmur::space_hotkey::{Command, Key};

fn words(effects: &[Effect]) -> Vec<String> {
    effects.iter().map(|e| format!("{e:?}")).collect()
}

fn recording() -> (Shell, u64) {
    let mut shell = Shell::new(false, 0);
    assert_eq!(words(&shell.input(Input::Flags(true, false), 10)), ["Begin"]);
    shell.start(Field::Open, true, 10);
    let id = shell.generation();
    (shell, id)
}

fn processing() -> (Shell, u64) {
    let (mut shell, id) = recording();
    shell.input(Input::Flags(false, false), 500);
    assert!(shell.busy());
    (shell, id)
}

#[test]
fn control_is_followed_by_its_flag() {
    let mut keyboard = Keyboard { control_down: false };
    let mut flags = |flags| keyboard.press(FLAGS_CHANGED, 59, flags, false);
    assert_eq!(flags(CONTROL_FLAG), Press::Key(Key::Down));
    assert_eq!(flags(CONTROL_FLAG), Press::Ignored);
    assert_eq!(flags(CONTROL_FLAG | 1 << 17), Press::Key(Key::Other));
    assert_eq!(flags(0), Press::Key(Key::Up));
    assert_eq!(flags(0), Press::Ignored);
    for bit in [17, 19, 20, 23] {
        assert!(OTHER_FLAGS & (1 << bit) != 0);
        assert_eq!(flags(CONTROL_FLAG | 1 << bit), Press::Key(Key::ModifiedDown));
        assert_eq!(flags(1 << bit), Press::Key(Key::Up));
    }
}

#[test]
fn a_busy_shell_takes_control_for_a_shortcut() {
    let mut keyboard = Keyboard { control_down: false };
    assert_eq!(
        keyboard.press(FLAGS_CHANGED, 62, CONTROL_FLAG, true),
        Press::Key(Key::ModifiedDown)
    );
}

#[test]
fn typing_matters_only_while_control_is_down() {
    let mut up = Keyboard { control_down: false };
    assert_eq!(up.press(KEY_DOWN, 0, 0, false), Press::Ignored);
    assert_eq!(up.press(KEY_DOWN, ESCAPE, 0, false), Press::Key(Key::Escape));
    assert_eq!(up.press(11, 0, 0, false), Press::Ignored);
    let mut down = Keyboard { control_down: true };
    assert_eq!(down.press(KEY_DOWN, 0, 0, false), Press::Key(Key::Other));
    assert!(down.control_down);
    for kind in [TAP_TIMED_OUT, TAP_DISABLED] {
        assert_eq!(down.press(kind, ESCAPE, 0, false), Press::Disabled);
    }
}

#[test]
fn commands_of_the_held_key_reach_the_shell() {
    assert_eq!(Input::of(Command::Start), Input::Flags(true, false));
    assert_eq!(Input::of(Command::Finish), Input::Flags(false, false));
    assert_eq!(Input::of(Command::Cancel), Input::Cancel);
}

#[test]
fn fields_are_judged_by_their_roles() {
    let open = target(42, 7, "AXTextArea", "");
    assert!(open.editable && !open.secure);
    assert_eq!(Field::of(Some(&open)), Field::Open);
    let secret = target(42, 7, "AXTextField", "AXSecureTextField");
    assert!(secret.secure);
    assert_eq!(Field::of(Some(&secret)), Field::Secure);
    assert_eq!(Field::of(Some(&target(42, 7, "AXButton", ""))), Field::Unusable);
    assert_eq!(Field::of(None), Field::Unusable);
}

#[test]
fn a_changed_field_blocks_the_insertion() {
    let before = target(42, 7, "AXTextArea", "");
    let moved = Target { element: 8, ..before.clone() };
    assert!(check_insertion(&before, &before, true, "hello").is_ok());
    for refused in [
        check_insertion(&before, &before, false, "hello"),
        check_insertion(&before, &moved, true, "hello"),
        check_insertion(&before, &before, true, "hello\n"),
    ] {
        assert_eq!(
            refused.unwrap_err(),
            "Insertion blocked: focus changed or field unsupported. Use Copy Last Transcript."
        );
    }
}

#[test]
fn a_paste_needs_a_clipboard_that_can_be_kept() {
    assert_eq!(check_paste(1, &[Some(1), Some(2)], true), Ok(()));
    assert_eq!(check_paste::<u8>(0, &[], true), Ok(()));
    assert_eq!(check_paste(2, &[Some(1)], true), Err(PasteFailure::MultipleItems));
    assert_eq!(
        check_paste(1, &[Some(1), None], false),
        Err(PasteFailure::CannotPreserve)
    );
    assert_eq!(check_paste(1, &[Some(1)], false), Err(PasteFailure::NoShortcut));
    assert_eq!(
        PasteFailure::MultipleItems.message(),
        "Use Copy Last Transcript (clipboard has multiple items)"
    );
    assert_eq!(
        PasteFailure::CannotPreserve.message(),
        "Cannot preserve clipboard; use Copy Last Transcript"
    );
    assert_eq!(PasteFailure::NoShortcut.message(), "Cannot create paste shortcut");
    assert!(may_restore(5, 5));
    assert!(!may_restore(5, 6));
}

#[test]
fn long_messages_are_left_to_the_menu() {
    let fits = "x".repeat(42);
    assert_eq!(label_for(&fits), fits);
    assert_eq!(label_for(&"x".repeat(43)), "⚠ Check Control menu for details");
}

#[test]
fn a_held_key_starts_and_its_release_finishes() {
    let mut shell = Shell::new(false, 0);
    assert_eq!(words(&shell.input(Input::Flags(true, false), 10)), ["Begin"]);
    assert_eq!(
        words(&shell.start(Field::Open, true, 10)),
        ["Attempt(true)", "Show(\"◌ Starting microphone…\")", "Spawn(1)"]
    );
    assert!(shell.input(Input::Flags(true, false), 20).is_empty());
    assert_eq!(
        words(&shell.input(Input::Flags(false, false), 900)),
        [format!("Control({FINISH})"), "Show(\"Finishing… · Esc to cancel\")".into()]
    );
    assert!(shell.busy());
}

#[test]
fn a_transcript_is_inserted_once() {
    let (mut shell, id) = processing();
    assert_eq!(
        words(&shell.complete(id, Ok("Café 👋".into()), 600)),
        ["Insert(\"Café 👋\")", "DropFocus"]
    );
    assert_eq!(
        words(&[shell.inserted(&Ok(()), 600)]),
        ["Show(\"Text inserted\")"]
    );
    assert!(shell.complete(id, Ok("late".into()), 700).is_empty());
    assert!(shell.complete(id, Err("late".into()), 700).is_empty());
    assert_eq!(
        words(&shell.menu("copy", 800)),
        ["Copy(\"Café 👋\")", "Show(\"Transcript copied\")"]
    );
}

#[test]
fn a_refused_insertion_says_why() {
    let (mut shell, id) = processing();
    shell.complete(id, Ok("text".into()), 600);
    assert_eq!(
        words(&[shell.inserted(&Err("why".into()), 600)]),
        ["Show(\"why\")"]
    );
}

#[test]
fn without_a_field_the_transcript_waits_to_be_copied() {
    let mut shell = Shell::new(false, 0);
    shell.menu("start", 0);
    assert_eq!(words(&shell.start(Field::Unusable, true, 0))[0], "Attempt(false)");
    shell.menu("stop", 100);
    assert_eq!(
        words(&shell.complete(1, Ok("text".into()), 200)),
        ["Show(\"Transcript ready — choose Copy Last Transcript\")", "DropFocus"]
    );
}

#[test]
fn silence_and_failures_insert_nothing() {
    let (mut shell, id) = processing();
    assert_eq!(
        words(&shell.complete(id, Ok("  ".into()), 600)),
        ["Show(\"No speech detected\")", "DropFocus"]
    );
    let (mut shell, id) = processing();
    assert_eq!(
        words(&shell.complete(id, Err("Audio connection lost".into()), 600)),
        ["Show(\"Audio connection lost\")", "DropFocus"]
    );
    let (mut shell, id) = recording();
    assert_eq!(
        words(&shell.complete(id, Ok("too early".into()), 20)),
        ["Show(\"No speech detected\")", "DropFocus"]
    );
}

#[test]
fn a_cancelled_attempt_is_never_inserted() {
    let (mut shell, id) = processing();
    assert_eq!(
        words(&shell.cancel(600)),
        [format!("Control({CANCEL})"), "DropFocus".into(), "Show(\"Cancelled\")".into()]
    );
    assert!(shell.complete(id, Ok("late".into()), 700).is_empty());
    shell.menu("start", 800);
    shell.start(Field::Open, true, 800);
    shell.menu("stop", 900);
    assert!(shell.complete(id, Ok("late".into()), 950).is_empty());
    assert_eq!(words(&shell.cancel(1_000)).len(), 3);
    assert_eq!(words(&shell.cancel(1_001)), [format!("Control({CANCEL})")]);
}

#[test]
fn refused_starts_run_no_attempt() {
    let mut shell = Shell::new(false, 0);
    shell.menu("start", 0);
    let refused = words(&shell.start(Field::Secure, true, 0));
    assert_eq!(refused.last().unwrap(), "Show(\"Choose a supported text field. Password fields are blocked.\")");
    assert!(refused.iter().all(|e| !e.starts_with("Spawn")));
    shell.menu("start", 0);
    let refused = words(&shell.start(Field::Open, false, 0));
    assert_eq!(refused[0], "RequestMicrophone");
    assert_eq!(refused.last().unwrap(), "Show(\"Use Set up permissions in the Control menu, then try again.\")");
    assert!(refused.iter().all(|e| !e.starts_with("Spawn")));
    assert_eq!(words(&shell.menu("start", 0)), ["Begin"]);
}

#[test]
fn a_modifier_a_lost_tap_or_an_overflow_cancels() {
    let (mut shell, _) = recording();
    assert_eq!(
        words(&shell.input(Input::Flags(true, true), 20)).last().unwrap(),
        "Show(\"Cancelled Control shortcut\")"
    );
    let (mut shell, _) = recording();
    assert_eq!(words(&shell.input(Input::TapDisabled, 20)).last().unwrap(), "EnableTap");
    let (mut shell, _) = recording();
    assert_eq!(
        words(&shell.overflow(20)).last().unwrap(),
        "Show(\"Input queue overflow; dictation cancelled\")"
    );
    let (mut shell, _) = recording();
    assert_eq!(words(&shell.input(Input::Cancel, 20)).len(), 3);
    assert_eq!(
        words(&shell.input(Input::HotkeyDown, 30)),
        ["Show(\"◌ Control held — keep holding\")"]
    );
}

#[test]
fn the_menu_does_what_it_says() {
    let mut shell = Shell::new(false, 0);
    assert!(shell.menu("copy", 0).is_empty());
    assert!(shell.menu("stop", 0).is_empty());
    assert!(shell.menu("nothing", 0).is_empty());
    assert_eq!(words(&shell.menu("quit", 0)), [format!("Control({CANCEL})"), "Quit".into()]);
    assert_eq!(
        words(&shell.menu("setup", 0)),
        [
            format!("Control({CANCEL})"),
            "RequestMicrophone".into(),
            "OpenSettings".into(),
            "Show(\"Enable Accessibility. Keep Wispr Flow on Fn; hold Control here.\")".into()
        ]
    );
    shell.menu("start", 0);
    assert!(shell.menu("start", 0).is_empty());
}

#[test]
fn a_dictation_ends_at_its_longest_duration() {
    let (mut shell, _) = recording();
    assert!(shell.limit(10 + LIMIT_MS - 1).is_empty());
    assert_eq!(shell.limit(10 + LIMIT_MS).len(), 2);
    assert!(shell.busy());
    assert!(shell.limit(20 + LIMIT_MS).is_empty());
}

#[test]
fn a_trial_run_dictates_once() {
    let mut shell = Shell::new(true, 0);
    assert!(shell.try_start(2_000).is_empty());
    assert_eq!(words(&shell.try_start(2_001)), ["Begin"]);
    shell.start(Field::Unusable, true, 2_001);
    assert!(shell.try_stop(12_001).is_empty());
    assert_eq!(shell.try_stop(12_002).len(), 2);
    assert!(shell.try_start(20_000).is_empty());
    assert!(Shell::new(false, 0).try_start(20_000).is_empty());
}

#[test]
fn passing_messages_give_way() {
    let mut shell = Shell::new(false, 0);
    shell.show("● Ready · hold Control", true, 100);
    assert!(shell.pass(true, 100 + MESSAGE_MS - 1).is_empty());
    assert_eq!(
        words(&shell.pass(false, 100 + MESSAGE_MS)),
        ["Show(\"⚠ Keyboard permission needed\")"]
    );
    assert!(shell.pass(true, 100 + 2 * MESSAGE_MS).is_empty());
    shell.show("Text inserted", true, 0);
    assert_eq!(words(&shell.pass(true, MESSAGE_MS)), ["Show(\"● Ready · hold Control\")"]);
}

#[test]
fn the_keyboard_is_asked_for_again() {
    let mut shell = Shell::new(false, 0);
    assert!(!shell.wants_tap(false, 3_000));
    assert!(shell.wants_tap(false, 3_001));
    assert!(!shell.wants_tap(true, 3_001));
    assert!(shell.tap_tried(false, 3_001).is_empty());
    assert!(!shell.wants_tap(false, 3_002));
    shell.show("Hold Control to dictate", false, 3_002);
    assert!(shell.tap_tried(true, 7_000).is_empty());
    assert_eq!(
        words(&shell.tap_tried(false, 11_000)),
        ["Show(\"Keyboard access unavailable — use Start dictation in the Control menu\")"]
    );
}

#[test]
fn the_meter_moves_while_audio_arrives() {
    let (shell, _) = recording();
    assert_eq!(shell.meter(false, 10), None);
    let at = |ms: u64| shell.meter(true, 10 + ms).unwrap();
    assert_eq!(at(0), "● Listening  ▁ ▃ ▆ ▃ ▁");
    assert_eq!(at(159), at(0));
    assert_eq!(at(160), "● Listening  ▃ ▆ █ ▆ ▃");
    assert_eq!(at(320), "● Listening  ▆ ▃ ▁ ▃ ▆");
    assert_eq!(at(480), "● Listening  ▃ ▁ ▃ ▆ █");
    assert_eq!(at(640), at(0));
    let (shell, _) = processing();
    assert_eq!(shell.meter(true, 600), None);
}
