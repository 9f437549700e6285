//! The laws of the library on concrete values.
use murmur::dictation::{CompletionEffect, Dictation, Phase};
use murmur::indicator::{classify, shorten, Indicator, Kind, Look, NOTICE_CHARS, NOTICE_MS};
use murmur::insertion::{native_paste_surface, secure_field};
use murmur::local_clipboard::{within_bounds, Format, Item};
use murmur::local_delivery::{copy_transcript, CopyBoard, CopyFailure, Failure};
use murmur::remote::{valid_text, Controller, Destination, Profile, Session, State};
use murmur::remote_review::{Error, Foreground, Review, Selection, Window};
use murmur::space_hotkey::{Command, HoldSpace, Key, HOLD_MS};
use murmur::transcript::{Latest, Transcript};

#[test]
fn attempts_are_numbered_upwards() {
    let mut d = Dictation::default();
    let mut last = d.generation();
    for _ in 0..3 {
        assert!(d.start_manual());
        assert!(d.generation() > last);
        last = d.generation();
        assert!(d.cancel());
        assert!(d.generation() > last);
        last = d.generation();
    }
    d.flags(true, false);
    d.flags(false, false);
    assert!(d.accepts(d.generation()));
    assert_eq!(
        d.complete(d.generation(), Ok("x".into())),
        Some(CompletionEffect::Transcript("x".into()))
    );
    assert!(!d.accepts(d.generation()));
}

#[test]
fn a_result_that_comes_before_the_audio_ends_is_empty() {
    let mut d = Dictation::default();
    d.start_manual();
    assert_eq!(
        d.complete(d.generation(), Ok("early".into())),
        Some(CompletionEffect::Empty)
    );
    assert_eq!(d.phase(), Phase::Idle);
}

#[test]
fn one_press_is_one_start() {
    let mut h = HoldSpace::default();
    let mut starts = 0;
    h.key(Key::Down, 0);
    for now in (0..2_000).step_by(50) {
        if h.tick(now).command == Some(Command::Start) {
            starts += 1;
        }
        if h.key(Key::Repeat, now).command == Some(Command::Start) {
            starts += 1;
        }
    }
    assert_eq!(starts, 1);
    assert_eq!(h.key(Key::Up, 2_000).command, Some(Command::Finish));
    assert_eq!(h.tick(3_000).command, None);
}

#[test]
fn a_tap_shorter_than_the_hold_is_typed() {
    for up in [1, HOLD_MS - 1] {
        let mut h = HoldSpace::default();
        h.key(Key::Down, 0);
        h.tick(up);
        assert!(h.key(Key::Up, up).replay);
    }
}

#[test]
fn another_key_or_escape_cancels_a_dictation() {
    for key in [Key::Other, Key::Escape] {
        let mut h = HoldSpace::default();
        h.key(Key::Down, 0);
        h.tick(HOLD_MS);
        assert_eq!(h.key(key, 400).command, Some(Command::Cancel));
        assert_eq!(h.tick(2_000).command, None);
        assert_eq!(h.key(Key::Down, 2_100).command, None);
        assert_eq!(h.tick(4_000).command, None);
    }
    let mut idle = HoldSpace::default();
    assert_eq!(idle.key(Key::Escape, 0).command, Some(Command::Cancel));
    assert_eq!(idle.key(Key::Other, 0).command, None);
    let mut pending = HoldSpace::default();
    pending.key(Key::Down, 0);
    assert_eq!(pending.key(Key::Escape, 10).command, None);
    assert_eq!(pending.tick(1_000).command, None);
}

#[test]
fn news_of_an_utterance_is_taken_once_and_in_order() {
    let mut t = Transcript::default();
    t.accept("b", 0, "second", true);
    t.accept("a", 0, "first", true);
    t.accept("b", 1, "  Second.  ", true);
    t.accept("b", 1, "again", true);
    t.accept("b", 0, "stale", true);
    t.accept("c", 0, " \t ", true);
    t.accept("d", 5, "interim", false);
    t.accept("d", 5, "made final", true);
    assert_eq!(t.text(), "Second. first made final");
}

#[test]
fn the_latest_transcript_is_forgotten_when_an_attempt_begins() {
    let mut latest = Latest::default();
    assert!(latest.is_empty());
    latest.set("text".into());
    assert_eq!(latest.as_str(), "text");
    latest.begin();
    assert!(latest.is_empty());
    assert_eq!(&*Latest::from("x"), "x");
    let text: &str = latest.as_ref();
    assert_eq!(text, "");
}

#[test]
fn secret_fields_take_nothing_whatever_the_application() {
    for bundle in ["com.apple.Terminal", "com.apple.Notes", ""] {
        for (role, subrole) in [
            ("AXSecureTextField", ""),
            ("AXTextField", "AXSecureTextField"),
            ("AXTextArea", "AXPasswordField"),
        ] {
            assert!(secure_field(role, subrole));
            assert!(!native_paste_surface(bundle, role, subrole));
        }
    }
}

#[test]
fn no_delivery_failure_is_long() {
    assert!(Failure::PasteDispatchFailed.message().chars().count() < 110);
    assert!(CopyFailure::PendingRestore.message().contains("Restore"));
    assert!(CopyFailure::WriteFailedAfterClear.message().contains("retained"));
}

struct Copies(Vec<String>, Result<(), CopyFailure>);

impl CopyBoard for Copies {
    fn overwrite_with_text(&mut self, text: &str) -> Result<(), CopyFailure> {
        self.0.push(text.into());
        self.1
    }
}

#[test]
fn a_clipboard_that_waits_for_its_contents_is_not_overwritten() {
    let mut board = Copies(vec![], Ok(()));
    assert_eq!(
        copy_transcript(&mut board, true, "x"),
        Err(CopyFailure::PendingRestore)
    );
    assert!(board.0.is_empty());
    assert_eq!(copy_transcript(&mut board, false, "x"), Ok(()));
    assert_eq!(board.0, ["x"]);
    board.1 = Err(CopyFailure::WriteFailedAfterClear);
    assert_eq!(
        copy_transcript(&mut board, false, "y"),
        Err(CopyFailure::WriteFailedAfterClear)
    );
}

fn session() -> Session {
    Session {
        destination: Destination {
            session: 1,
            connection_generation: 1,
            window: 1,
        },
        foreground: true,
        connected: true,
        unlocked: true,
        isolated: true,
        clipboard_enabled: true,
        keyboard_enabled: true,
    }
}

#[test]
fn a_chord_is_asked_for_once_and_ended_attempts_stay_ended() {
    let mut c = Controller::new(100, 50);
    let id = c.begin(true, "text", session(), Profile::Mac, 0).unwrap();
    c.shared(id, session(), 1);
    let asked = (2..20).filter(|t| c.received(id, session(), *t).is_some()).count();
    assert_eq!(asked, 1);
    assert!(c.dispatched(id, true, 20));
    c.observe(session(), 1_000);
    assert_eq!(c.state(), State::Inserted);
    c.cancel();
    assert_eq!(c.received(id, session(), 1_001), None);
    c.observe(session(), 1_002);
    assert_eq!(c.state(), State::Cancelled);
    for profile in [Profile::Mac, Profile::Linux, Profile::LinuxTerminal] {
        assert_eq!(profile.shortcut().key, 'v');
    }
}

#[test]
fn a_line_of_text_is_valid_and_a_line_break_is_not() {
    assert!(valid_text("Café 👋  spaced"));
    for text in ["", "\u{a0}", "a\u{2029}", "a\u{85}", "a\u{1b}"] {
        assert!(!valid_text(text));
    }
}

#[test]
fn the_review_window_keeps_the_selection_and_text_is_released_once() {
    let window = Window { process: 1, element: 2 };
    let mut selection = Selection::default();
    selection.observe(Foreground::Destination(window));
    selection.observe(Foreground::ReviewUi);
    assert_eq!(selection.take(), Some(window));
    assert_eq!(selection.take(), None);
    let mut review = Review::default();
    let id = review.prepare("text", Some(window)).unwrap();
    assert_eq!(
        review.confirm(id, Some(window), false),
        Err(Error::ConfirmationNeeded)
    );
    assert_eq!(review.confirm(id, Some(window), true), Ok("text".into()));
    assert_eq!(review.confirm(id, Some(window), true), Err(Error::Stale));
}

#[test]
fn notices_fit_and_keep_their_hint() {
    for clauses in 1..6 {
        let long = "A clause that takes its room; ".repeat(clauses) + "use Copy Last Transcript";
        let short = shorten(&long);
        assert!(short.chars().count() <= NOTICE_CHARS, "{short}");
        assert!(short.contains("Copy Last Transcript"), "{short}");
    }
}

#[test]
fn a_hint_that_the_clause_lacks_goes_before_one_that_the_cut_loses() {
    let both = "x".repeat(50) + " Copy Last Transcript; use Restore previous clipboard";
    assert!(shorten(&both).ends_with(" · Restore previous clipboard"));
}

#[test]
fn a_hint_in_a_clause_that_is_cut_is_kept() {
    let only = "A single clause without any end that goes on up to Copy Last Transcript";
    let short = shorten(only);
    assert!(short.chars().count() <= NOTICE_CHARS);
    assert!(short.ends_with("… · Copy Last Transcript"), "{short}");
    for hint in ["Copy Last Transcript", "Restore previous clipboard"] {
        for before in [0, 1, 27, 28, 29, 47, 48, 49, 200] {
            for after in ["", ".", "; and more", " and more of the same clause behind it"] {
                let message = format!("{} {hint}{after}", "a".repeat(before));
                let short = shorten(&message);
                assert!(short.contains(hint), "{message} -> {short}");
                assert!(short.chars().count() <= NOTICE_CHARS, "{short}");
            }
        }
    }
}

#[test]
fn flashes_end_and_only_notices_hide_a_dictation() {
    let mut i = Indicator::default();
    assert_eq!(classify("No speech detected"), Kind::Notice);
    i.message("No speech detected", 0);
    assert_eq!(i.look(NOTICE_MS, Phase::Idle, false, false), Look::Idle);
    i.message("Text inserted", 0);
    assert_eq!(i.look(1, Phase::Recording, true, false), Look::Listening);
    assert_eq!(i.look(1, Phase::Processing, true, false), Look::Processing);
    let idle = Look::Idle.size(500);
    for look in [Look::Armed, Look::Starting, Look::Listening, Look::Processing, Look::Notice] {
        let size = look.size(500);
        assert!(size.0 > idle.0 && size.1 > idle.1 && size.0 <= 300);
    }
}

#[test]
fn clipboards_are_bounded_in_every_way() {
    let item = |kinds: usize, name: usize, size: usize| Item {
        formats: (0..kinds)
            .map(|_| Format { kind: "k".repeat(name), data: vec![0; size] })
            .collect(),
    };
    let m = 1024 * 1024;
    assert!(within_bounds(&[]));
    assert!(within_bounds(&[item(32, 256, 1)]));
    assert!(within_bounds(&[item(1, 1, 8 * m), item(1, 1, 8 * m)]));
    for bad in [
        vec![item(0, 1, 1)],
        vec![item(33, 1, 1)],
        vec![item(1, 0, 1)],
        vec![item(1, 257, 1)],
        vec![item(1, 1, 8 * m + 1)],
        vec![item(1, 1, 8 * m), item(1, 1, 8 * m), item(1, 1, 1)],
        (0..33).map(|_| item(1, 1, 1)).collect(),
    ] {
        assert!(!within_bounds(&bad));
    }
}
