//! Attempt-scoped clipboard recovery. Payloads deliberately do not implement Debug.
use crate::remote::{single_line, valid_text, Attempt};
use crate::text::{found, lemma_bytes, lemma_not_found, never_followed, wide};
use vstd::prelude::*;
use vstd::utf8::encode_utf8;

verus! {

/// A state of the clipboard; every change gives it another.
#[derive(Clone, Copy, Debug, PartialEq, Eq, Structural)]
pub struct Revision(pub u64);

pub struct Format {
    pub name: String,
    pub bytes: Vec<u8>,
}

pub struct Snapshot {
    pub revision: Revision,
    /// Only fully materialized formats from a single item may be represented.
    /// Adapters reject multi-item, promised, or otherwise unsupported content.
    pub formats: Vec<Format>,
}

#[derive(Clone, Copy, Debug, PartialEq, Eq, Structural)]
pub enum Error {
    Busy,
    Unsupported,
    Unavailable,
    Changed,
    WriteFailed,
    InvalidText,
}

impl Error {
    /// What the user reads.
    pub open spec fn words(self) -> Seq<char> {
        match self {
            Error::Busy => "Restore previous clipboard before another remote copy"@,
            Error::Unsupported => "Cannot preserve clipboard; use Copy Last Transcript"@,
            Error::Unavailable => "Clipboard unavailable; try again"@,
            Error::Changed => "Clipboard changed; its newer contents were kept"@,
            Error::WriteFailed =>
                "Copy failed or clipboard changed; use Restore previous clipboard if available"@,
            Error::InvalidText =>
                "Record a single-line transcript first; remote copy rejects control characters"@,
        }
    }

    /// What the user reads.
    pub fn message(self) -> (r: &'static str)
        ensures
            r@ == self.words(),
    {
        match self {
            Error::Busy => "Restore previous clipboard before another remote copy",
            Error::Unsupported => "Cannot preserve clipboard; use Copy Last Transcript",
            Error::Unavailable => "Clipboard unavailable; try again",
            Error::Changed => "Clipboard changed; its newer contents were kept",
            Error::WriteFailed =>
                "Copy failed or clipboard changed; use Restore previous clipboard if available",
            Error::InvalidText =>
                "Record a single-line transcript first; remote copy rejects control characters",
        }
    }
}

#[derive(Clone, Copy, Debug, PartialEq, Eq, Structural)]
pub enum WriteFailure {
    Unchanged(Error),
    /// A partial write changed the clipboard. Preserve its recovery snapshot.
    Owned(Revision),
    /// Another process took ownership during the operation. Do not overwrite it.
    OwnershipLost,
}

#[derive(Clone, Copy, Debug, PartialEq, Eq, Structural)]
pub enum RestoreReason {
    ConsumptionConfirmed,
    UserRequested,
}

#[derive(Clone, Copy, Debug, PartialEq, Eq, Structural)]
pub enum Recovery {
    Nothing,
    Retained,
    Restored,
    OwnershipLost,
}

/// What one format holds.
pub struct FormatModel {
    pub name: Seq<char>,
    pub bytes: Seq<u8>,
}

impl View for Format {
    type V = FormatModel;

    open spec fn view(&self) -> FormatModel {
        FormatModel { name: self.name@, bytes: self.bytes@ }
    }
}

/// What a list of formats holds.
pub open spec fn contents(formats: Seq<Format>) -> Seq<FormatModel> {
    formats.map_values(|f: Format| f@)
}

/// What a snapshot holds.
pub struct SnapshotModel {
    pub revision: Revision,
    pub formats: Seq<FormatModel>,
}

impl View for Snapshot {
    type V = SnapshotModel;

    open spec fn view(&self) -> SnapshotModel {
        SnapshotModel { revision: self.revision, formats: contents(self.formats@) }
    }
}

/// A request to a clipboard and its answer.
#[allow(inconsistent_fields)]
pub enum Call {
    Snapshot { answer: Result<SnapshotModel, Error> },
    Replace { expected: Revision, text: Seq<char>, answer: Result<Revision, WriteFailure> },
    Restore {
        expected: Revision,
        formats: Seq<FormatModel>,
        answer: Result<Revision, WriteFailure>,
    },
}

/// The model of a snapshot's answer.
pub open spec fn snapshot_answer(r: Result<Snapshot, Error>) -> Result<SnapshotModel, Error> {
    match r {
        Ok(s) => Ok(s@),
        Err(e) => Err(e),
    }
}

/// The clipboard that is shared with the other side.
pub trait Clipboard: Sized {
    /// The requests made so far, as a record for proofs. The default is for adapters outside
    /// verified code, which store nothing for it; a verified one keeps a record of its own, since
    /// no implementation meets the clauses below with the default.
    closed spec fn calls(&self) -> Seq<Call> {
        Seq::empty()
    }

    /// Reads the clipboard.
    fn snapshot(&mut self) -> (r: Result<Snapshot, Error>)
        ensures
            final(self).calls() == old(self).calls().push(
                Call::Snapshot { answer: snapshot_answer(r) },
            ),
    ;

    /// Check revision immediately before mutation. Do not overwrite a mismatch.
    /// Return the revision of our write, never a later unrelated owner's revision.
    fn replace(&mut self, expected: Revision, text: &str) -> (r: Result<Revision, WriteFailure>)
        ensures
            final(self).calls() == old(self).calls().push(
                Call::Replace { expected, text: text@, answer: r },
            ),
    ;

    /// Writes `formats` back if the clipboard is still at the revision `expected`.
    fn restore(&mut self, expected: Revision, formats: &[Format]) -> (r: Result<
        Revision,
        WriteFailure,
    >)
        ensures
            final(self).calls() == old(self).calls().push(
                Call::Restore { expected, formats: contents(formats@), answer: r },
            ),
    ;
}

/// What a lease holds: whose attempt it is, the revision at which the clipboard is ours,
/// what it held before, and whether a later attempt may take the lease over.
pub struct Held {
    pub id: Attempt,
    pub owned: Revision,
    pub formats: Seq<FormatModel>,
    pub reusable: bool,
}

struct Saved {
    id: Attempt,
    owned: Revision,
    formats: Vec<Format>,
    reusable: bool,
}

/// A loan of the shared clipboard, with what has to go back.
pub struct Lease {
    saved: Option<Saved>,
}

impl View for Lease {
    type V = Option<Held>;

    closed spec fn view(&self) -> Option<Held> {
        match self.saved {
            Some(s) => Some(
                Held {
                    id: s.id,
                    owned: s.owned,
                    formats: contents(s.formats@),
                    reusable: s.reusable,
                },
            ),
            None => None,
        }
    }
}

impl Default for Lease {
    fn default() -> (r: Lease)
        ensures
            r@ is None,
    {
        Lease { saved: None }
    }
}

/// The outcome of sharing: the lease after it, what is returned, and what was asked of the
/// clipboard.
pub struct ShareOutcome {
    pub lease: Option<Held>,
    pub result: Result<(), Error>,
    pub calls: Seq<Call>,
}

/// The lease as far as it still stands once the clipboard was seen at `revision`: a newer
/// owner supersedes it.
pub open spec fn standing(lease: Option<Held>, revision: Revision) -> Option<Held> {
    match lease {
        Some(held) => if held.owned == revision {
            lease
        } else {
            None
        },
        None => None,
    }
}

/// What goes back in the end: what an earlier lease kept, else what was found.
pub open spec fn recovery_formats(standing: Option<Held>, found: Seq<FormatModel>) -> Seq<
    FormatModel,
> {
    match standing {
        Some(held) => held.formats,
        None => found,
    }
}

/// What sharing `text` for the attempt `id` comes to, by the answers of the clipboard to a
/// snapshot and a replacement.
pub open spec fn share_outcome(
    lease: Option<Held>,
    id: Attempt,
    text: Seq<char>,
    snapshot: Result<SnapshotModel, Error>,
    replaced: Result<Revision, WriteFailure>,
) -> ShareOutcome {
    let read = seq![Call::Snapshot { answer: snapshot }];
    if !single_line(text) {
        ShareOutcome { lease, result: Err(Error::InvalidText), calls: Seq::empty() }
    } else {
        match snapshot {
            Err(error) => ShareOutcome { lease, result: Err(error), calls: read },
            Ok(seen) => {
                let kept = standing(lease, seen.revision);
                if kept is Some && (!kept->0.reusable || kept->0.id == id) {
                    ShareOutcome { lease, result: Err(Error::Busy), calls: read }
                } else {
                    let formats = recovery_formats(kept, seen.formats);
                    let calls = read.push(
                        Call::Replace { expected: seen.revision, text, answer: replaced },
                    );
                    match replaced {
                        Ok(owned) => ShareOutcome {
                            lease: Some(Held { id, owned, formats, reusable: true }),
                            result: Ok(()),
                            calls,
                        },
                        Err(WriteFailure::Owned(owned)) => ShareOutcome {
                            lease: Some(Held { id, owned, formats, reusable: false }),
                            result: Err(Error::WriteFailed),
                            calls,
                        },
                        Err(WriteFailure::Unchanged(error)) => ShareOutcome {
                            lease: kept,
                            result: Err(error),
                            calls,
                        },
                        Err(WriteFailure::OwnershipLost) => ShareOutcome {
                            lease: kept,
                            result: Err(Error::Changed),
                            calls,
                        },
                    }
                }
            },
        }
    }
}

/// The outcome of a recovery: the lease after it, what is returned, and what was asked of
/// the clipboard.
pub struct RecoverOutcome {
    pub lease: Option<Held>,
    pub result: Result<Recovery, Error>,
    pub calls: Seq<Call>,
}

/// What recovering the attempt `id` comes to, by the answer of the clipboard to the
/// restoration. Without a reason everything stays as it is.
pub open spec fn recover_outcome(
    lease: Option<Held>,
    id: Attempt,
    reason: Option<RestoreReason>,
    restored: Result<Revision, WriteFailure>,
) -> RecoverOutcome {
    if lease is None || lease->0.id != id {
        RecoverOutcome { lease, result: Ok(Recovery::Nothing), calls: Seq::empty() }
    } else if reason is None {
        RecoverOutcome { lease, result: Ok(Recovery::Retained), calls: Seq::empty() }
    } else {
        let held = Held { reusable: false, ..lease->0 };
        let calls = seq![
            Call::Restore { expected: held.owned, formats: held.formats, answer: restored },
        ];
        match restored {
            Ok(_) => RecoverOutcome { lease: None, result: Ok(Recovery::Restored), calls },
            Err(WriteFailure::OwnershipLost) => RecoverOutcome {
                lease: None,
                result: Ok(Recovery::OwnershipLost),
                calls,
            },
            Err(WriteFailure::Unchanged(error)) => RecoverOutcome {
                lease: Some(held),
                result: Err(error),
                calls,
            },
            Err(WriteFailure::Owned(owned)) => RecoverOutcome {
                lease: Some(Held { owned, ..held }),
                result: Err(Error::WriteFailed),
                calls,
            },
        }
    }
}

/// A lease, a result and the calls of a clipboard are what sharing came to.
pub open spec fn shared_as<C: Clipboard>(
    outcome: ShareOutcome,
    lease: Lease,
    result: Result<(), Error>,
    before: C,
    after: C,
) -> bool {
    &&& lease@ == outcome.lease
    &&& result == outcome.result
    &&& after.calls() =~= before.calls() + outcome.calls
}

/// A lease, a result and the calls of a clipboard are what a recovery came to.
pub open spec fn recovered_as<C: Clipboard>(
    outcome: RecoverOutcome,
    lease: Lease,
    result: Result<Recovery, Error>,
    before: C,
    after: C,
) -> bool {
    &&& lease@ == outcome.lease
    &&& result == outcome.result
    &&& after.calls() =~= before.calls() + outcome.calls
}

impl Lease {
    /// Puts `text` on the shared clipboard for the attempt `id`, keeping what was there
    /// before the first attempt whose copy still stands.
    pub fn share<C: Clipboard>(&mut self, clipboard: &mut C, id: Attempt, text: &str) -> (r: Result<
        (),
        Error,
    >)
        ensures
            exists|
                snapshot: Result<SnapshotModel, Error>,
                replaced: Result<Revision, WriteFailure>,
            |
                shared_as(
                    #[trigger] share_outcome(old(self)@, id, text@, snapshot, replaced),
                    *final(self),
                    r,
                    *old(clipboard),
                    *final(clipboard),
                ),
    {
        let ghost lease = self@;
        let ghost any: Result<Revision, WriteFailure> = Err(WriteFailure::OwnershipLost);
        if !valid_text(text) {
            assert(shared_as(
                share_outcome(lease, id, text@, Err(Error::Busy), any),
                *self,
                Err(Error::InvalidText),
                *old(clipboard),
                *clipboard,
            ));
            return Err(Error::InvalidText);
        }
        let read = clipboard.snapshot();
        let ghost snapshot = snapshot_answer(read);
        let seen = match read {
            Ok(seen) => seen,
            Err(error) => {
                assert(shared_as(
                    share_outcome(lease, id, text@, snapshot, any),
                    *self,
                    Err(error),
                    *old(clipboard),
                    *clipboard,
                ));
                return Err(error);
            },
        };
        let mut kept: Option<Saved> = None;
        match self.saved.take() {
            Some(saved) => {
                if saved.owned == seen.revision {
                    if !saved.reusable || saved.id == id {
                        self.saved = Some(saved);
                        assert(shared_as(
                            share_outcome(lease, id, text@, snapshot, any),
                            *self,
                            Err(Error::Busy),
                            *old(clipboard),
                            *clipboard,
                        ));
                        return Err(Error::Busy);
                    }
                    kept = Some(saved);
                }
                // A newer clipboard owner supersedes our old remote-copy lease.
                // Do not attempt to restore over that newer content.
            },
            None => {},
        }
        let replaced = clipboard.replace(seen.revision, text);
        let result = match replaced {
            Ok(owned) => {
                let formats = match kept {
                    Some(saved) => saved.formats,
                    None => seen.formats,
                };
                self.saved = Some(Saved { id, owned, formats, reusable: true });
                Ok(())
            },
            Err(WriteFailure::Owned(owned)) => {
                let formats = match kept {
                    Some(saved) => saved.formats,
                    None => seen.formats,
                };
                self.saved = Some(Saved { id, owned, formats, reusable: false });
                Err(Error::WriteFailed)
            },
            Err(WriteFailure::Unchanged(error)) => {
                self.saved = kept;
                Err(error)
            },
            Err(WriteFailure::OwnershipLost) => {
                self.saved = kept;
                Err(Error::Changed)
            },
        };
        assert(shared_as(
            share_outcome(lease, id, text@, snapshot, replaced),
            *self,
            result,
            *old(clipboard),
            *clipboard,
        ));
        result
    }

    /// Gives the previous contents back for the attempt `id`, if there is a reason to and
    /// the clipboard has no newer owner.
    pub fn recover<C: Clipboard>(
        &mut self,
        clipboard: &mut C,
        id: Attempt,
        reason: Option<RestoreReason>,
    ) -> (r: Result<Recovery, Error>)
        ensures
            exists|restored: Result<Revision, WriteFailure>|
                recovered_as(
                    #[trigger] recover_outcome(old(self)@, id, reason, restored),
                    *final(self),
                    r,
                    *old(clipboard),
                    *final(clipboard),
                ),
    {
        let ghost lease = self@;
        let ghost any: Result<Revision, WriteFailure> = Err(WriteFailure::OwnershipLost);
        let mut held = match self.saved.take() {
            Some(saved) => saved,
            None => {
                assert(recovered_as(
                    recover_outcome(lease, id, reason, any),
                    *self,
                    Ok(Recovery::Nothing),
                    *old(clipboard),
                    *clipboard,
                ));
                return Ok(Recovery::Nothing);
            },
        };
        if held.id != id {
            self.saved = Some(held);
            assert(recovered_as(
                recover_outcome(lease, id, reason, any),
                *self,
                Ok(Recovery::Nothing),
                *old(clipboard),
                *clipboard,
            ));
            return Ok(Recovery::Nothing);
        }
        if reason.is_none() {
            self.saved = Some(held);
            assert(recovered_as(
                recover_outcome(lease, id, reason, any),
                *self,
                Ok(Recovery::Retained),
                *old(clipboard),
                *clipboard,
            ));
            return Ok(Recovery::Retained);
        }
        held.reusable = false;
        let restored = clipboard.restore(held.owned, held.formats.as_slice());
        let result = match restored {
            Ok(_) => Ok(Recovery::Restored),
            Err(WriteFailure::OwnershipLost) => Ok(Recovery::OwnershipLost),
            Err(WriteFailure::Unchanged(error)) => {
                self.saved = Some(held);
                Err(error)
            },
            Err(WriteFailure::Owned(owned)) => {
                held.owned = owned;
                self.saved = Some(held);
                Err(Error::WriteFailed)
            },
        };
        assert(recovered_as(
            recover_outcome(lease, id, reason, restored),
            *self,
            result,
            *old(clipboard),
            *clipboard,
        ));
        result
    }

    /// Previous contents wait to be given back.
    pub fn pending(&self) -> (r: bool)
        ensures
            r == (self@ is Some),
    {
        self.saved.is_some()
    }
}

/// What was on the clipboard before sharing is what a recovery writes back, at the revision
/// that sharing left.
pub proof fn recovery_writes_what_sharing_found(
    id: Attempt,
    text: Seq<char>,
    seen: SnapshotModel,
    owned: Revision,
    reason: RestoreReason,
    answer: Result<Revision, WriteFailure>,
)
    requires
        single_line(text),
    ensures
        ({
            let shared = share_outcome(None, id, text, Ok(seen), Ok(owned));
            recover_outcome(shared.lease, id, Some(reason), answer).calls == seq![
                Call::Restore { expected: owned, formats: seen.formats, answer },
            ]
        }),
{
}

/// A later copy over our own keeps what was on the clipboard before the first one.
pub proof fn consecutive_copies_keep_the_first_snapshot(
    lease: Held,
    id: Attempt,
    text: Seq<char>,
    seen: SnapshotModel,
    replaced: Result<Revision, WriteFailure>,
)
    requires
        seen.revision == lease.owned,
    ensures
        ({
            let after = share_outcome(Some(lease), id, text, Ok(seen), replaced).lease;
            after is Some && after->0.formats == lease.formats
        }),
{
}

/// An attempt neither restores another attempt's clipboard nor its own twice.
pub proof fn recovery_is_for_one_attempt_once(
    lease: Option<Held>,
    id: Attempt,
    other: Attempt,
    reason: RestoreReason,
    again: Option<RestoreReason>,
    revision: Revision,
    answer: Result<Revision, WriteFailure>,
)
    requires
        lease is Some && lease->0.id == id && other != id,
    ensures
        recover_outcome(lease, other, Some(reason), answer).result == Ok::<Recovery, Error>(
            Recovery::Nothing,
        ),
        recover_outcome(lease, other, Some(reason), answer).calls.len() == 0,
        ({
            let done = recover_outcome(lease, id, Some(reason), Ok(revision)).lease;
            &&& recover_outcome(done, id, again, answer).result == Ok::<Recovery, Error>(
                Recovery::Nothing,
            )
            &&& recover_outcome(done, id, again, answer).calls.len() == 0
        }),
{
}

/// Without a reason nothing is written, and everything stays as it was.
pub proof fn without_a_reason_the_copy_stays(
    lease: Option<Held>,
    id: Attempt,
    answer: Result<Revision, WriteFailure>,
)
    ensures
        recover_outcome(lease, id, None, answer).lease == lease,
        recover_outcome(lease, id, None, answer).calls.len() == 0,
{
}

/// A recovery that failed can be tried again with the same contents, and meanwhile no other
/// attempt takes the lease over.
pub proof fn failed_recovery_can_be_retried(
    lease: Held,
    reason: RestoreReason,
    failure: WriteFailure,
)
    requires
        !(failure is OwnershipLost),
    ensures
        ({
            let after = recover_outcome(Some(lease), lease.id, Some(reason), Err(failure));
            &&& after.result is Err
            &&& after.lease is Some
            &&& after.lease->0.formats == lease.formats
            &&& after.lease->0.id == lease.id
            &&& !after.lease->0.reusable
            &&& failure matches WriteFailure::Owned(owned) ==> after.lease->0.owned == owned
        }),
{
}

/// Text that is not a single line never reaches the clipboard.
pub proof fn invalid_text_asks_nothing(
    lease: Option<Held>,
    id: Attempt,
    text: Seq<char>,
    snapshot: Result<SnapshotModel, Error>,
    replaced: Result<Revision, WriteFailure>,
)
    requires
        !single_line(text),
    ensures
        share_outcome(lease, id, text, snapshot, replaced).calls.len() == 0,
        share_outcome(lease, id, text, snapshot, replaced).lease == lease,
{
}

/// A short text of narrow characters that nowhere says that something was copied.
spec fn modest(s: Seq<char>) -> bool {
    &&& 0 < s.len() < 80
    &&& wide(s, s.len()) == 0
    &&& never_followed(s, 'p', 'i', (s.len() - 1) as nat)
}

#[verifier::spinoff_prover]
proof fn lemma_busy()
    ensures
        modest(Error::Busy.words()),
{
    reveal_strlit("Restore previous clipboard before another remote copy");
    let s = Error::Busy.words();
    assert(wide(s, 20) == 0 && never_followed(s, 'p', 'i', 20)) by {
        reveal_with_fuel(wide, 21);
        reveal_with_fuel(never_followed, 21);
    }
    assert(wide(s, 40) == 0 && never_followed(s, 'p', 'i', 40)) by {
        reveal_with_fuel(wide, 21);
        reveal_with_fuel(never_followed, 21);
    }
    assert(wide(s, 53) == 0 && never_followed(s, 'p', 'i', 52)) by {
        reveal_with_fuel(wide, 14);
        reveal_with_fuel(never_followed, 13);
    }
}

#[verifier::spinoff_prover]
proof fn lemma_unsupported()
    ensures
        modest(Error::Unsupported.words()),
{
    reveal_strlit("Cannot preserve clipboard; use Copy Last Transcript");
    let s = Error::Unsupported.words();
    assert(wide(s, 20) == 0 && never_followed(s, 'p', 'i', 20)) by {
        reveal_with_fuel(wide, 21);
        reveal_with_fuel(never_followed, 21);
    }
    assert(wide(s, 40) == 0 && never_followed(s, 'p', 'i', 40)) by {
        reveal_with_fuel(wide, 21);
        reveal_with_fuel(never_followed, 21);
    }
    assert(wide(s, 51) == 0 && never_followed(s, 'p', 'i', 50)) by {
        reveal_with_fuel(wide, 12);
        reveal_with_fuel(never_followed, 11);
    }
}

#[verifier::spinoff_prover]
proof fn lemma_unavailable()
    ensures
        modest(Error::Unavailable.words()),
{
    reveal_strlit("Clipboard unavailable; try again");
    let s = Error::Unavailable.words();
    assert(wide(s, 20) == 0 && never_followed(s, 'p', 'i', 20)) by {
        reveal_with_fuel(wide, 21);
        reveal_with_fuel(never_followed, 21);
    }
    assert(wide(s, 32) == 0 && never_followed(s, 'p', 'i', 31)) by {
        reveal_with_fuel(wide, 13);
        reveal_with_fuel(never_followed, 12);
    }
}

#[verifier::spinoff_prover]
proof fn lemma_changed()
    ensures
        modest(Error::Changed.words()),
{
    reveal_strlit("Clipboard changed; its newer contents were kept");
    let s = Error::Changed.words();
    assert(wide(s, 20) == 0 && never_followed(s, 'p', 'i', 20)) by {
        reveal_with_fuel(wide, 21);
        reveal_with_fuel(never_followed, 21);
    }
    assert(wide(s, 40) == 0 && never_followed(s, 'p', 'i', 40)) by {
        reveal_with_fuel(wide, 21);
        reveal_with_fuel(never_followed, 21);
    }
    assert(wide(s, 47) == 0 && never_followed(s, 'p', 'i', 46)) by {
        reveal_with_fuel(wide, 8);
        reveal_with_fuel(never_followed, 7);
    }
}

#[verifier::spinoff_prover]
proof fn lemma_write_failed()
    ensures
        modest(Error::WriteFailed.words()),
{
    reveal_strlit("Copy failed or clipboard changed; use Restore previous clipboard if available");
    let s = Error::WriteFailed.words();
    assert(wide(s, 20) == 0 && never_followed(s, 'p', 'i', 20)) by {
        reveal_with_fuel(wide, 21);
        reveal_with_fuel(never_followed, 21);
    }
    assert(wide(s, 40) == 0 && never_followed(s, 'p', 'i', 40)) by {
        reveal_with_fuel(wide, 21);
        reveal_with_fuel(never_followed, 21);
    }
    assert(wide(s, 60) == 0 && never_followed(s, 'p', 'i', 60)) by {
        reveal_with_fuel(wide, 21);
        reveal_with_fuel(never_followed, 21);
    }
    assert(wide(s, 77) == 0 && never_followed(s, 'p', 'i', 76)) by {
        reveal_with_fuel(wide, 18);
        reveal_with_fuel(never_followed, 17);
    }
}

#[verifier::spinoff_prover]
proof fn lemma_invalid_text()
    ensures
        modest(Error::InvalidText.words()),
{
    reveal_strlit("Record a single-line transcript first; remote copy rejects control characters");
    let s = Error::InvalidText.words();
    assert(wide(s, 20) == 0 && never_followed(s, 'p', 'i', 20)) by {
        reveal_with_fuel(wide, 21);
        reveal_with_fuel(never_followed, 21);
    }
    assert(wide(s, 40) == 0 && never_followed(s, 'p', 'i', 40)) by {
        reveal_with_fuel(wide, 21);
        reveal_with_fuel(never_followed, 21);
    }
    assert(wide(s, 60) == 0 && never_followed(s, 'p', 'i', 60)) by {
        reveal_with_fuel(wide, 21);
        reveal_with_fuel(never_followed, 21);
    }
    assert(wide(s, 77) == 0 && never_followed(s, 'p', 'i', 76)) by {
        reveal_with_fuel(wide, 18);
        reveal_with_fuel(never_followed, 17);
    }
}

/// Every error has words of its own, and they are few; none says that something was copied.
#[verifier::spinoff_prover]
pub proof fn messages_are_distinct(a: Error, b: Error)
    ensures
        encode_utf8(a.words()).len() < 110,
        !found(a.words(), "copied"@),
        a != b ==> a.words() != b.words(),
{
    lemma_busy();
    lemma_unsupported();
    lemma_unavailable();
    lemma_changed();
    lemma_write_failed();
    lemma_invalid_text();
    lemma_bytes(a.words());
    reveal_strlit("copied");
    lemma_not_found(a.words(), "copied"@, 2);
    reveal_strlit("Restore previous clipboard before another remote copy");
    reveal_strlit("Cannot preserve clipboard; use Copy Last Transcript");
    reveal_strlit("Clipboard unavailable; try again");
    reveal_strlit("Clipboard changed; its newer contents were kept");
    reveal_strlit(
        "Copy failed or clipboard changed; use Restore previous clipboard if available",
    );
    reveal_strlit(
        "Record a single-line transcript first; remote copy rejects control characters",
    );
    assert(a.words()[1] == b.words()[1] && a.words().len() == b.words().len() ==> a == b);
}

/// Whatever sharing writes is the whole text, once, at the revision that was read.
pub proof fn sharing_writes_the_whole_text(
    lease: Option<Held>,
    id: Attempt,
    text: Seq<char>,
    snapshot: Result<SnapshotModel, Error>,
    replaced: Result<Revision, WriteFailure>,
    at: int,
)
    requires
        0 <= at < share_outcome(lease, id, text, snapshot, replaced).calls.len(),
        !(share_outcome(lease, id, text, snapshot, replaced).calls[at] is Snapshot),
    ensures
        ({
            let calls = share_outcome(lease, id, text, snapshot, replaced).calls;
            &&& at == 1 && calls.len() == 2
            &&& calls[at] is Replace
            &&& calls[at]->text == text
            &&& snapshot is Ok && calls[at]->Replace_expected == snapshot->Ok_0.revision
        }),
{
}

/// Sharing a single line succeeds exactly where the clipboard was read, took the text, and is
/// not still ours by this attempt or by one whose lease cannot be taken over.
pub proof fn sharing_succeeds_when_it_can(
    lease: Option<Held>,
    id: Attempt,
    text: Seq<char>,
    seen: SnapshotModel,
    replaced: Result<Revision, WriteFailure>,
    error: Error,
)
    requires
        single_line(text),
    ensures
        ({
            let ours = lease is Some && lease->0.owned == seen.revision;
            let busy = ours && (!lease->0.reusable || lease->0.id == id);
            let r = share_outcome(lease, id, text, Ok(seen), replaced);
            &&& busy ==> r.result == Err::<(), Error>(Error::Busy) && r.lease == lease
                && r.calls.len() == 1
            &&& !busy ==> (r.result is Ok <==> replaced is Ok) && r.calls.len() == 2
            &&& !busy && replaced is Ok ==> {
                &&& r.lease is Some
                &&& r.lease->0.id == id
                &&& r.lease->0.owned == replaced->Ok_0
                &&& r.lease->0.reusable
                &&& r.lease->0.formats == (if ours {
                    lease->0.formats
                } else {
                    seen.formats
                })
            }
            &&& !busy ==> (replaced matches Err(WriteFailure::Owned(owned)) ==> {
                &&& r.result == Err::<(), Error>(Error::WriteFailed)
                &&& r.lease is Some
                &&& r.lease->0.id == id
                &&& r.lease->0.owned == owned
                &&& !r.lease->0.reusable
                &&& r.lease->0.formats == (if ours {
                    lease->0.formats
                } else {
                    seen.formats
                })
            })
            &&& !busy ==> (replaced matches Err(WriteFailure::Unchanged(e)) ==> r.result == Err::<
                (),
                Error,
            >(e) && r.lease == (if ours {
                lease
            } else {
                None
            }))
            &&& !busy ==> (replaced == Err::<Revision, WriteFailure>(WriteFailure::OwnershipLost)
                ==> r.result == Err::<(), Error>(Error::Changed) && r.lease == (if ours {
                lease
            } else {
                None
            }))
        }),
        share_outcome(lease, id, text, Err(error), replaced).result == Err::<(), Error>(error),
        share_outcome(lease, id, text, Err(error), replaced).lease == lease,
        share_outcome(lease, id, text, Err(error), replaced).calls.len() == 1,
{
}

/// A text that is not a single line is refused as that.
pub proof fn invalid_text_is_named(
    lease: Option<Held>,
    id: Attempt,
    text: Seq<char>,
    snapshot: Result<SnapshotModel, Error>,
    replaced: Result<Revision, WriteFailure>,
)
    ensures
        !single_line(text) ==> share_outcome(lease, id, text, snapshot, replaced).result == Err::<
            (),
            Error,
        >(Error::InvalidText),
{
}

/// A recovery with a reason writes the kept contents once, at the revision that is ours, and
/// ends the lease when they are back or another owner is found.
pub proof fn recovery_gives_the_contents_back(
    lease: Held,
    reason: RestoreReason,
    answer: Result<Revision, WriteFailure>,
)
    ensures
        ({
            let r = recover_outcome(Some(lease), lease.id, Some(reason), answer);
            &&& r.calls.len() == 1
            &&& r.calls[0] is Restore
            &&& r.calls[0]->formats == lease.formats
            &&& r.calls[0]->Restore_expected == lease.owned
            &&& answer is Ok ==> r.result == Ok::<Recovery, Error>(Recovery::Restored)
                && r.lease is None
            &&& answer == Err::<Revision, WriteFailure>(WriteFailure::OwnershipLost) ==> r.result
                == Ok::<Recovery, Error>(Recovery::OwnershipLost) && r.lease is None
            &&& answer matches Err(WriteFailure::Unchanged(e)) ==> r.result == Err::<
                Recovery,
                Error,
            >(e) && r.lease is Some && r.lease->0.owned == lease.owned
            &&& answer matches Err(WriteFailure::Owned(_)) ==> r.result == Err::<Recovery, Error>(
                Error::WriteFailed,
            )
        }),
        recover_outcome(Some(lease), lease.id, None, answer).result == Ok::<Recovery, Error>(
            Recovery::Retained,
        ),
        recover_outcome(None, lease.id, Some(reason), answer).result == Ok::<Recovery, Error>(
            Recovery::Nothing,
        ),
        recover_outcome(None, lease.id, Some(reason), answer).calls.len() == 0,
{
}

/// A recovery asked for by another attempt leaves the lease as it is.
pub proof fn other_attempts_keep_the_lease(
    lease: Held,
    id: Attempt,
    reason: Option<RestoreReason>,
    answer: Result<Revision, WriteFailure>,
)
    requires
        id != lease.id,
    ensures
        recover_outcome(Some(lease), id, reason, answer).lease == Some(lease),
        recover_outcome(Some(lease), id, reason, answer).calls.len() == 0,
        recover_outcome(Some(lease), id, reason, answer).result == Ok::<Recovery, Error>(
            Recovery::Nothing,
        ),
{
}

/// Formats are seen whole, each with its name and all its bytes.
pub proof fn formats_are_seen_whole(formats: Seq<Format>, i: int)
    requires
        0 <= i < formats.len(),
    ensures
        contents(formats).len() == formats.len(),
        contents(formats)[i].name == formats[i].name@,
        contents(formats)[i].bytes == formats[i].bytes@,
{
}

/// An outcome says all that happened: the lease, the result, and every request to the
/// clipboard.
pub proof fn outcomes_say_all_that_happened<C: Clipboard>(
    shared: ShareOutcome,
    recovered: RecoverOutcome,
    lease: Lease,
    sharing: Result<(), Error>,
    recovery: Result<Recovery, Error>,
    before: C,
    after: C,
)
    ensures
        shared_as(shared, lease, sharing, before, after) ==> lease@ == shared.lease && sharing
            == shared.result && after.calls() == before.calls() + shared.calls,
        recovered_as(recovered, lease, recovery, before, after) ==> lease@ == recovered.lease
            && recovery == recovered.result && after.calls() == before.calls() + recovered.calls,
{
}

} // verus!
