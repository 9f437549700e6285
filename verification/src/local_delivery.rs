//! Local insertion outcomes. Messages contain no clipboard or transcript data.
use crate::text::{
    found, lemma_bytes, lemma_found, lemma_not_found, never_followed, wide,
};
use vstd::prelude::*;
use vstd::utf8::encode_utf8;

verus! {

#[derive(Clone, Copy, Debug, PartialEq, Eq, Structural)]
pub enum Outcome {
    AxWrite,
    PasteSent,
}

impl Outcome {
    /// What the user reads.
    pub open spec fn words(self) -> Seq<char> {
        match self {
            Outcome::AxWrite => "Text inserted"@,
            Outcome::PasteSent => "Paste sent · verify text in target"@,
        }
    }

    /// What the user reads.
    pub fn message(self) -> (r: &'static str)
        ensures
            r@ == self.words(),
    {
        match self {
            Outcome::AxWrite => "Text inserted",
            Outcome::PasteSent => "Paste sent · verify text in target",
        }
    }
}

#[derive(Clone, Copy, Debug, PartialEq, Eq, Structural)]
pub enum Failure {
    MissingTarget,
    TargetChanged,
    SecureTarget,
    UnsupportedTarget,
    UnsupportedClipboard,
    ClipboardChanged,
    ClipboardWriteFailed,
    PendingRestore,
    PasteDispatchFailed,
}

impl Failure {
    /// What the user reads.
    pub open spec fn words(self) -> Seq<char> {
        match self {
            Failure::MissingTarget => "Transcript ready · choose Copy Last Transcript"@,
            Failure::TargetChanged =>
                "Transcript ready · focus changed. Use Copy Last Transcript"@,
            Failure::SecureTarget =>
                "Choose a supported text field. Password fields are blocked"@,
            Failure::UnsupportedTarget =>
                "Transcript ready · field unsupported. Use Copy Last Transcript"@,
            Failure::UnsupportedClipboard =>
                "Transcript ready · clipboard format unsupported. Use Copy Last Transcript"@,
            Failure::ClipboardChanged =>
                "Transcript ready · clipboard changed. Use Copy Last Transcript"@,
            Failure::ClipboardWriteFailed =>
                "Transcript ready · clipboard write failed. Restore previous clipboard"@,
            Failure::PendingRestore =>
                "Transcript ready · Restore previous clipboard before another paste"@,
            Failure::PasteDispatchFailed =>
                "Transcript ready · paste not sent. Check focus; restore previous clipboard"@,
        }
    }

    /// What the user reads.
    pub fn message(self) -> (r: &'static str)
        ensures
            r@ == self.words(),
    {
        match self {
            Failure::MissingTarget => "Transcript ready · choose Copy Last Transcript",
            Failure::TargetChanged =>
                "Transcript ready · focus changed. Use Copy Last Transcript",
            Failure::SecureTarget =>
                "Choose a supported text field. Password fields are blocked",
            Failure::UnsupportedTarget =>
                "Transcript ready · field unsupported. Use Copy Last Transcript",
            Failure::UnsupportedClipboard =>
                "Transcript ready · clipboard format unsupported. Use Copy Last Transcript",
            Failure::ClipboardChanged =>
                "Transcript ready · clipboard changed. Use Copy Last Transcript",
            Failure::ClipboardWriteFailed =>
                "Transcript ready · clipboard write failed. Restore previous clipboard",
            Failure::PendingRestore =>
                "Transcript ready · Restore previous clipboard before another paste",
            Failure::PasteDispatchFailed =>
                "Transcript ready · paste not sent. Check focus; restore previous clipboard",
        }
    }
}

#[derive(Clone, Copy, Debug, PartialEq, Eq, Structural)]
pub enum CopyFailure {
    PendingRestore,
    WriteFailedAfterClear,
}

impl CopyFailure {
    /// What the user reads.
    pub open spec fn words(self) -> Seq<char> {
        match self {
            CopyFailure::PendingRestore =>
                "Restore previous clipboard before copying transcript"@,
            CopyFailure::WriteFailedAfterClear =>
                "Clipboard write failed; clipboard may have changed · transcript retained"@,
        }
    }

    /// What the user reads.
    pub fn message(self) -> (r: &'static str)
        ensures
            r@ == self.words(),
    {
        match self {
            CopyFailure::PendingRestore => "Restore previous clipboard before copying transcript",
            CopyFailure::WriteFailedAfterClear =>
                "Clipboard write failed; clipboard may have changed · transcript retained",
        }
    }
}

/// One overwrite that a board was asked for, and its answer.
pub struct Overwrite {
    pub text: Seq<char>,
    pub answer: Result<(), CopyFailure>,
}

/// A clipboard that can be overwritten.
pub trait CopyBoard: Sized {
    /// The overwrites asked for so far, as a record for proofs. The default is for adapters outside
    /// verified code, which store nothing for it; a verified one keeps a record of its own, since
    /// no implementation meets the clauses below with the default.
    closed spec fn overwrites(&self) -> Seq<Overwrite> {
        Seq::empty()
    }

    /// User explicitly requested replacement; failure may leave modified contents.
    fn overwrite_with_text(&mut self, text: &str) -> (r: Result<(), CopyFailure>)
        ensures
            final(self).overwrites() == old(self).overwrites().push(
                Overwrite { text: text@, answer: r },
            ),
    ;
}

/// Copies the transcript, unless the clipboard still waits for its previous contents.
pub fn copy_transcript(board: &mut impl CopyBoard, pending_restore: bool, text: &str) -> (r: Result<
    (),
    CopyFailure,
>)
    ensures
        pending_restore ==> r == Err::<(), CopyFailure>(CopyFailure::PendingRestore)
            && final(board).overwrites() == old(board).overwrites(),
        !pending_restore ==> final(board).overwrites() == old(board).overwrites().push(
            Overwrite { text: text@, answer: r },
        ),
        final(board).overwrites() == old(board).overwrites() + copied(pending_restore, text@, r).0,
        r == copied(pending_restore, text@, r).1,
{
    if pending_restore {
        assert(board.overwrites() + copied(pending_restore, text@, Ok(())).0
            =~= board.overwrites());
        return Err(CopyFailure::PendingRestore);
    }
    board.overwrite_with_text(text)
}

/// A short text with one wide character at most that nowhere claims an insertion.
spec fn modest(s: Seq<char>) -> bool {
    &&& 0 < s.len() < 80
    &&& wide(s, s.len()) <= 1
    &&& never_followed(s, 'T', 'e', (s.len() - 1) as nat)
}

#[verifier::spinoff_prover]
proof fn lemma_missing_target()
    ensures
        modest(Failure::MissingTarget.words()),
{
    reveal_strlit("Transcript ready · choose Copy Last Transcript");
    let s = Failure::MissingTarget.words();
    assert(wide(s, 20) == 1 && never_followed(s, 'T', 'e', 20)) by {
        reveal_with_fuel(wide, 21);
        reveal_with_fuel(never_followed, 21);
    }
    assert(wide(s, 40) == 1 && never_followed(s, 'T', 'e', 40)) by {
        reveal_with_fuel(wide, 21);
        reveal_with_fuel(never_followed, 21);
    }
    assert(wide(s, 46) == 1 && never_followed(s, 'T', 'e', 45)) by {
        reveal_with_fuel(wide, 7);
        reveal_with_fuel(never_followed, 6);
    }
}

#[verifier::spinoff_prover]
proof fn lemma_target_changed()
    ensures
        modest(Failure::TargetChanged.words()),
{
    reveal_strlit("Transcript ready · focus changed. Use Copy Last Transcript");
    let s = Failure::TargetChanged.words();
    assert(wide(s, 20) == 1 && never_followed(s, 'T', 'e', 20)) by {
        reveal_with_fuel(wide, 21);
        reveal_with_fuel(never_followed, 21);
    }
    assert(wide(s, 40) == 1 && never_followed(s, 'T', 'e', 40)) by {
        reveal_with_fuel(wide, 21);
        reveal_with_fuel(never_followed, 21);
    }
    assert(wide(s, 58) == 1 && never_followed(s, 'T', 'e', 57)) by {
        reveal_with_fuel(wide, 19);
        reveal_with_fuel(never_followed, 18);
    }
}

#[verifier::spinoff_prover]
proof fn lemma_secure_target()
    ensures
        modest(Failure::SecureTarget.words()),
{
    reveal_strlit("Choose a supported text field. Password fields are blocked");
    let s = Failure::SecureTarget.words();
    assert(wide(s, 20) == 0 && never_followed(s, 'T', 'e', 20)) by {
        reveal_with_fuel(wide, 21);
        reveal_with_fuel(never_followed, 21);
    }
    assert(wide(s, 40) == 0 && never_followed(s, 'T', 'e', 40)) by {
        reveal_with_fuel(wide, 21);
        reveal_with_fuel(never_followed, 21);
    }
    assert(wide(s, 58) == 0 && never_followed(s, 'T', 'e', 57)) by {
        reveal_with_fuel(wide, 19);
        reveal_with_fuel(never_followed, 18);
    }
}

#[verifier::spinoff_prover]
proof fn lemma_unsupported_target()
    ensures
        modest(Failure::UnsupportedTarget.words()),
{
    reveal_strlit("Transcript ready · field unsupported. Use Copy Last Transcript");
    let s = Failure::UnsupportedTarget.words();
    assert(wide(s, 20) == 1 && never_followed(s, 'T', 'e', 20)) by {
        reveal_with_fuel(wide, 21);
        reveal_with_fuel(never_followed, 21);
    }
    assert(wide(s, 40) == 1 && never_followed(s, 'T', 'e', 40)) by {
        reveal_with_fuel(wide, 21);
        reveal_with_fuel(never_followed, 21);
    }
    assert(wide(s, 60) == 1 && never_followed(s, 'T', 'e', 60)) by {
        reveal_with_fuel(wide, 21);
        reveal_with_fuel(never_followed, 21);
    }
    assert(wide(s, 62) == 1 && never_followed(s, 'T', 'e', 61)) by {
        reveal_with_fuel(wide, 3);
        reveal_with_fuel(never_followed, 2);
    }
}

#[verifier::spinoff_prover]
proof fn lemma_unsupported_clipboard()
    ensures
        modest(Failure::UnsupportedClipboard.words()),
{
    reveal_strlit("Transcript ready · clipboard format unsupported. Use Copy Last Transcript");
    let s = Failure::UnsupportedClipboard.words();
    assert(wide(s, 20) == 1 && never_followed(s, 'T', 'e', 20)) by {
        reveal_with_fuel(wide, 21);
        reveal_with_fuel(never_followed, 21);
    }
    assert(wide(s, 40) == 1 && never_followed(s, 'T', 'e', 40)) by {
        reveal_with_fuel(wide, 21);
        reveal_with_fuel(never_followed, 21);
    }
    assert(wide(s, 60) == 1 && never_followed(s, 'T', 'e', 60)) by {
        reveal_with_fuel(wide, 21);
        reveal_with_fuel(never_followed, 21);
    }
    assert(wide(s, 73) == 1 && never_followed(s, 'T', 'e', 72)) by {
        reveal_with_fuel(wide, 14);
        reveal_with_fuel(never_followed, 13);
    }
}

#[verifier::spinoff_prover]
proof fn lemma_clipboard_changed()
    ensures
        modest(Failure::ClipboardChanged.words()),
{
    reveal_strlit("Transcript ready · clipboard changed. Use Copy Last Transcript");
    let s = Failure::ClipboardChanged.words();
    assert(wide(s, 20) == 1 && never_followed(s, 'T', 'e', 20)) by {
        reveal_with_fuel(wide, 21);
        reveal_with_fuel(never_followed, 21);
    }
    assert(wide(s, 40) == 1 && never_followed(s, 'T', 'e', 40)) by {
        reveal_with_fuel(wide, 21);
        reveal_with_fuel(never_followed, 21);
    }
    assert(wide(s, 60) == 1 && never_followed(s, 'T', 'e', 60)) by {
        reveal_with_fuel(wide, 21);
        reveal_with_fuel(never_followed, 21);
    }
    assert(wide(s, 62) == 1 && never_followed(s, 'T', 'e', 61)) by {
        reveal_with_fuel(wide, 3);
        reveal_with_fuel(never_followed, 2);
    }
}

#[verifier::spinoff_prover]
proof fn lemma_clipboard_write_failed()
    ensures
        modest(Failure::ClipboardWriteFailed.words()),
{
    reveal_strlit("Transcript ready · clipboard write failed. Restore previous clipboard");
    let s = Failure::ClipboardWriteFailed.words();
    assert(wide(s, 20) == 1 && never_followed(s, 'T', 'e', 20)) by {
        reveal_with_fuel(wide, 21);
        reveal_with_fuel(never_followed, 21);
    }
    assert(wide(s, 40) == 1 && never_followed(s, 'T', 'e', 40)) by {
        reveal_with_fuel(wide, 21);
        reveal_with_fuel(never_followed, 21);
    }
    assert(wide(s, 60) == 1 && never_followed(s, 'T', 'e', 60)) by {
        reveal_with_fuel(wide, 21);
        reveal_with_fuel(never_followed, 21);
    }
    assert(wide(s, 69) == 1 && never_followed(s, 'T', 'e', 68)) by {
        reveal_with_fuel(wide, 10);
        reveal_with_fuel(never_followed, 9);
    }
}

#[verifier::spinoff_prover]
proof fn lemma_pending_restore()
    ensures
        modest(Failure::PendingRestore.words()),
{
    reveal_strlit("Transcript ready · Restore previous clipboard before another paste");
    let s = Failure::PendingRestore.words();
    assert(wide(s, 20) == 1 && never_followed(s, 'T', 'e', 20)) by {
        reveal_with_fuel(wide, 21);
        reveal_with_fuel(never_followed, 21);
    }
    assert(wide(s, 40) == 1 && never_followed(s, 'T', 'e', 40)) by {
        reveal_with_fuel(wide, 21);
        reveal_with_fuel(never_followed, 21);
    }
    assert(wide(s, 60) == 1 && never_followed(s, 'T', 'e', 60)) by {
        reveal_with_fuel(wide, 21);
        reveal_with_fuel(never_followed, 21);
    }
    assert(wide(s, 66) == 1 && never_followed(s, 'T', 'e', 65)) by {
        reveal_with_fuel(wide, 7);
        reveal_with_fuel(never_followed, 6);
    }
}

#[verifier::spinoff_prover]
proof fn lemma_paste_dispatch_failed()
    ensures
        modest(Failure::PasteDispatchFailed.words()),
{
    reveal_strlit("Transcript ready · paste not sent. Check focus; restore previous clipboard");
    let s = Failure::PasteDispatchFailed.words();
    assert(wide(s, 20) == 1 && never_followed(s, 'T', 'e', 20)) by {
        reveal_with_fuel(wide, 21);
        reveal_with_fuel(never_followed, 21);
    }
    assert(wide(s, 40) == 1 && never_followed(s, 'T', 'e', 40)) by {
        reveal_with_fuel(wide, 21);
        reveal_with_fuel(never_followed, 21);
    }
    assert(wide(s, 60) == 1 && never_followed(s, 'T', 'e', 60)) by {
        reveal_with_fuel(wide, 21);
        reveal_with_fuel(never_followed, 21);
    }
    assert(wide(s, 74) == 1 && never_followed(s, 'T', 'e', 73)) by {
        reveal_with_fuel(wide, 15);
        reveal_with_fuel(never_followed, 14);
    }
}

proof fn lemma_modest(failure: Failure)
    ensures
        modest(failure.words()),
{
    lemma_missing_target();
    lemma_target_changed();
    lemma_secure_target();
    lemma_unsupported_target();
    lemma_unsupported_clipboard();
    lemma_clipboard_changed();
    lemma_clipboard_write_failed();
    lemma_pending_restore();
    lemma_paste_dispatch_failed();
}

/// Every failure leaves the transcript within reach and says so, except that a password
/// field is refused before there is one. No failure claims that text was inserted, and every
/// message is short.
#[verifier::spinoff_prover]
pub proof fn failures_say_where_the_transcript_is(failure: Failure)
    ensures
        encode_utf8(failure.words()).len() < 110,
        failure != Failure::SecureTarget ==> found(failure.words(), "Transcript"@),
        !found(failure.words(), "Text inserted"@),
{
    lemma_modest(failure);
    lemma_bytes(failure.words());
    reveal_strlit("Text inserted");
    lemma_not_found(failure.words(), "Text inserted"@, 0);
    reveal_strlit("Transcript");
    reveal_strlit("Transcript ready · choose Copy Last Transcript");
    reveal_strlit("Transcript ready · focus changed. Use Copy Last Transcript");
    reveal_strlit("Choose a supported text field. Password fields are blocked");
    reveal_strlit("Transcript ready · field unsupported. Use Copy Last Transcript");
    reveal_strlit("Transcript ready · clipboard format unsupported. Use Copy Last Transcript");
    reveal_strlit("Transcript ready · clipboard changed. Use Copy Last Transcript");
    reveal_strlit("Transcript ready · clipboard write failed. Restore previous clipboard");
    reveal_strlit("Transcript ready · Restore previous clipboard before another paste");
    reveal_strlit("Transcript ready · paste not sent. Check focus; restore previous clipboard");
    if failure != Failure::SecureTarget {
        let pattern = "Transcript"@;
        assert(failure.words().subrange(0, pattern.len() as int) =~= pattern);
        lemma_found(failure.words(), pattern, 0);
    }
}

/// Failures of the clipboard say which one it was: its format, a change, or contents that
/// wait to be restored.
#[verifier::spinoff_prover]
pub proof fn clipboard_failures_say_what_is_wrong()
    ensures
        found(Failure::UnsupportedClipboard.words(), "format"@),
        found(Failure::ClipboardChanged.words(), "changed"@),
        found(Failure::PendingRestore.words(), "Restore"@),
{
    reveal_strlit("format");
    reveal_strlit("changed");
    reveal_strlit("Restore");
    reveal_strlit("Transcript ready · clipboard format unsupported. Use Copy Last Transcript");
    reveal_strlit("Transcript ready · clipboard changed. Use Copy Last Transcript");
    reveal_strlit("Transcript ready · Restore previous clipboard before another paste");
    let unsupported = Failure::UnsupportedClipboard.words();
    let changed = Failure::ClipboardChanged.words();
    let pending = Failure::PendingRestore.words();
    assert(unsupported.subrange(29, 35) =~= "format"@);
    assert(changed.subrange(29, 36) =~= "changed"@);
    assert(pending.subrange(19, 26) =~= "Restore"@);
    lemma_found(unsupported, "format"@, 29);
    lemma_found(changed, "changed"@, 29);
    lemma_found(pending, "Restore"@, 19);
}

/// No two failures share a message.
#[verifier::spinoff_prover]
pub proof fn failures_are_told_apart(a: Failure, b: Failure)
    requires
        a != b,
    ensures
        a.words() != b.words(),
{
    reveal_strlit("Transcript ready · choose Copy Last Transcript");
    reveal_strlit("Transcript ready · focus changed. Use Copy Last Transcript");
    reveal_strlit("Choose a supported text field. Password fields are blocked");
    reveal_strlit("Transcript ready · field unsupported. Use Copy Last Transcript");
    reveal_strlit("Transcript ready · clipboard format unsupported. Use Copy Last Transcript");
    reveal_strlit("Transcript ready · clipboard changed. Use Copy Last Transcript");
    reveal_strlit("Transcript ready · clipboard write failed. Restore previous clipboard");
    reveal_strlit("Transcript ready · Restore previous clipboard before another paste");
    reveal_strlit("Transcript ready · paste not sent. Check focus; restore previous clipboard");
    assert(a.words().len() == b.words().len() && a.words()[19] == b.words()[19] ==> a == b);
}

/// What copying `text` comes to, by the answer of a board to an overwrite: the overwrites that
/// are asked for, and what is returned.
pub open spec fn copied(
    pending_restore: bool,
    text: Seq<char>,
    answer: Result<(), CopyFailure>,
) -> (Seq<Overwrite>, Result<(), CopyFailure>) {
    if pending_restore {
        (Seq::empty(), Err(CopyFailure::PendingRestore))
    } else {
        (seq![Overwrite { text, answer }], answer)
    }
}

/// A copy overwrites the clipboard once, with the whole text, and tells how that went; a
/// clipboard that waits for its previous contents is left alone.
pub proof fn copies_hold_the_whole_text(text: Seq<char>, answer: Result<(), CopyFailure>)
    ensures
        copied(false, text, answer).0.len() == 1,
        copied(false, text, answer).0[0].text == text,
        copied(false, text, answer).0[0].answer == answer,
        copied(false, text, answer).1 == answer,
        copied(true, text, answer).0.len() == 0,
        copied(true, text, answer).1 == Err::<(), CopyFailure>(CopyFailure::PendingRestore),
{
}

} // verus!
