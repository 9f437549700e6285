use murmur::local_clipboard::{Failure, Revision, WriteFailure};
use murmur::local_delivery::CopyFailure;
use murmur::platform::macos_clipboard;
use murmur::platform::macos_local_clipboard::{
    after_clear, after_overwrite, after_write, is_promise, is_promised, may_ask, may_clear, Cleared,
    Draft,
};
use murmur::remote_clipboard;

const PLAIN: &str = "public.utf8-plain-text";

fn draft(items: usize) -> Draft {
    Draft::begin(Revision(3), Some(items), true).ok().unwrap()
}

#[test]
fn every_item_and_format_is_copied() {
    let mut draft = draft(2);
    draft.open(2).unwrap();
    draft.keep(PLAIN.into(), b"one".to_vec()).unwrap();
    draft.keep("public.rtf".into(), b"{\\rtf1 one}".to_vec()).unwrap();
    draft.close().unwrap();
    draft.open(1).unwrap();
    draft.keep(PLAIN.into(), b"two".to_vec()).unwrap();
    draft.close().unwrap();
    let snapshot = draft.finish(Revision(3)).ok().unwrap();
    assert_eq!(snapshot.revision, Revision(3));
    assert_eq!(snapshot.items.len(), 2);
    assert_eq!(snapshot.items[0].formats.len(), 2);
    assert_eq!(snapshot.items[0].formats[1].kind, "public.rtf");
    assert_eq!(snapshot.items[1].formats[0].data, b"two");
}

#[test]
fn an_empty_clipboard_is_copied_and_a_newer_one_is_not() {
    let empty = Draft::begin(Revision(1), None, false).ok().unwrap();
    assert!(empty.finish(Revision(1)).ok().unwrap().items.is_empty());
    assert!(matches!(
        Draft::begin(Revision(1), None, true),
        Err(Failure::UnsupportedClipboard)
    ));
    assert!(matches!(draft(0).finish(Revision(4)), Err(Failure::Changed)));
}

#[test]
fn a_clipboard_out_of_bounds_is_refused() {
    let refused = Err(Failure::UnsupportedClipboard);
    assert!(Draft::begin(Revision(0), Some(32), true).is_ok());
    assert!(Draft::begin(Revision(0), Some(33), true).is_err());
    let mut draft = draft(1);
    assert_eq!(draft.open(0), refused);
    assert_eq!(draft.open(33), refused);
    assert_eq!(draft.open(32), Ok(()));
    assert_eq!(draft.close(), refused);
    assert_eq!(draft.fits(None), refused);
    assert_eq!(draft.fits(Some(8 * 1024 * 1024)), Ok(()));
    assert_eq!(draft.fits(Some(8 * 1024 * 1024 + 1)), refused);
    assert_eq!(draft.keep("k".repeat(257), vec![]), refused);
    assert_eq!(draft.keep("com.apple.NSPromiseContents".into(), vec![]), refused);
    for _ in 0..32 {
        assert_eq!(draft.keep("k".repeat(256), vec![0; 10]), Ok(()));
    }
    assert_eq!(draft.keep("k".into(), vec![]), refused);
    assert_eq!(draft.fits(Some(8 * 1024 * 1024 - 320)), Ok(()));
    assert_eq!(draft.fits(Some(8 * 1024 * 1024 - 319)), refused);
}

#[test]
fn the_total_of_all_items_is_bounded() {
    let mut draft = draft(3);
    for _ in 0..2 {
        draft.open(1).unwrap();
        draft.keep(PLAIN.into(), vec![0; 6 * 1024 * 1024]).unwrap();
        draft.close().unwrap();
    }
    draft.open(1).unwrap();
    assert_eq!(draft.fits(Some(4 * 1024 * 1024)), Ok(()));
    assert_eq!(
        draft.keep(PLAIN.into(), vec![0; 4 * 1024 * 1024 + 1]),
        Err(Failure::UnsupportedClipboard)
    );
}

#[test]
fn promised_data_is_not_asked_for() {
    assert!(is_promised("com.apple.pasteboard.PROMISED-file-url"));
    assert!(is_promised("dyn.Promise"));
    assert!(!is_promised(PLAIN));
    assert!(is_promise("a promise"));
    assert!(!is_promise("a Promise"));
    assert!(may_ask(PLAIN));
    assert!(!may_ask("Promise"));
    assert!(may_ask(&"é".repeat(128)));
    assert!(!may_ask(&"é".repeat(129)));
}

#[test]
fn a_write_checks_the_owner_at_each_step() {
    assert_eq!(may_clear(true, Revision(3), Revision(3)), Ok(()));
    assert_eq!(
        may_clear(false, Revision(4), Revision(3)),
        Err(WriteFailure::Unchanged)
    );
    assert_eq!(
        may_clear(true, Revision(4), Revision(3)),
        Err(WriteFailure::Changed)
    );
    assert_eq!(after_clear(0, Revision(4), Revision(5)), Cleared::Done(Revision(4)));
    assert_eq!(after_clear(1, Revision(4), Revision(4)), Cleared::Write);
    assert_eq!(after_clear(1, Revision(4), Revision(5)), Cleared::Lost);
    assert_eq!(after_write(true, Revision(4)), Ok(Revision(4)));
    assert_eq!(
        after_write(false, Revision(4)),
        Err(WriteFailure::Owned(Revision(4)))
    );
    assert_eq!(after_overwrite(true), Ok(()));
    assert_eq!(after_overwrite(false), Err(CopyFailure::WriteFailedAfterClear));
}

#[test]
fn the_shared_clipboard_keeps_one_item_at_most() {
    assert_eq!(macos_clipboard::single_item(Some(1), true), Ok(()));
    assert_eq!(macos_clipboard::single_item(None, false), Ok(()));
    assert_eq!(macos_clipboard::single_item(Some(2), true), Err(remote_clipboard::Error::Unsupported));
    assert_eq!(macos_clipboard::single_item(None, true), Err(remote_clipboard::Error::Unsupported));
    assert_eq!(macos_clipboard::keepable(PLAIN), Ok(()));
    assert_eq!(macos_clipboard::keepable("Promise"), Err(remote_clipboard::Error::Unsupported));
    let formats = vec![remote_clipboard::Format { name: PLAIN.into(), bytes: b"one".to_vec() }];
    let kept = macos_clipboard::finish(remote_clipboard::Revision(1), remote_clipboard::Revision(1), formats).ok().unwrap();
    assert_eq!((kept.revision, kept.formats.len()), (remote_clipboard::Revision(1), 1));
    assert!(matches!(
        macos_clipboard::finish(remote_clipboard::Revision(1), remote_clipboard::Revision(2), vec![]),
        Err(remote_clipboard::Error::Changed)
    ));
    assert_eq!(macos_clipboard::may_clear(remote_clipboard::Revision(1), remote_clipboard::Revision(1)), Ok(()));
    assert_eq!(
        macos_clipboard::may_clear(remote_clipboard::Revision(2), remote_clipboard::Revision(1)),
        Err(remote_clipboard::WriteFailure::OwnershipLost)
    );
    let after = |written, now| macos_clipboard::after_write(written, remote_clipboard::Revision(5), remote_clipboard::Revision(now));
    assert_eq!(after(true, 5), Ok(remote_clipboard::Revision(5)));
    assert_eq!(after(false, 5), Err(remote_clipboard::WriteFailure::Owned(remote_clipboard::Revision(5))));
    assert_eq!(after(true, 6), Err(remote_clipboard::WriteFailure::OwnershipLost));
}
