//! Local paste transaction. The clipboard remains ours until explicit recovery.
//! A dispatched shortcut cannot prove that another application consumed it.
use vstd::prelude::*;
use vstd::utf8::encode_utf8;

verus! {

/// A state of the clipboard; every change gives it another.
#[derive(Clone, Copy, Debug, PartialEq, Eq, Structural)]
pub struct Revision(pub u64);

/// One representation of an item.
#[derive(Clone, PartialEq, Eq)]
pub struct Format {
    pub kind: String,
    pub data: Vec<u8>,
}

#[derive(Clone, PartialEq, Eq)]
pub struct Item {
    pub formats: Vec<Format>,
}

#[derive(Clone)]
pub struct Snapshot {
    pub revision: Revision,
    pub items: Vec<Item>,
}

#[derive(Clone, Copy, Debug, PartialEq, Eq, Structural)]
pub enum Failure {
    PendingRestore,
    UnsupportedClipboard,
    Changed,
    WriteFailed,
    DispatchFailed,
}

#[derive(Clone, Copy, Debug, PartialEq, Eq, Structural)]
pub enum WriteFailure {
    Changed,
    Unchanged,
    Owned(Revision),
}

/// What one representation holds.
pub struct FormatModel {
    pub kind: Seq<char>,
    pub data: Seq<u8>,
}

impl View for Format {
    type V = FormatModel;

    open spec fn view(&self) -> FormatModel {
        FormatModel { kind: self.kind@, data: self.data@ }
    }
}

impl View for Item {
    type V = Seq<FormatModel>;

    open spec fn view(&self) -> Seq<FormatModel> {
        self.formats@.map_values(|f: Format| f@)
    }
}

/// What a list of items holds.
pub open spec fn contents(items: Seq<Item>) -> Seq<Seq<FormatModel>> {
    items.map_values(|i: Item| i@)
}

/// What a snapshot holds.
pub struct SnapshotModel {
    pub revision: Revision,
    pub items: Seq<Seq<FormatModel>>,
}

impl View for Snapshot {
    type V = SnapshotModel;

    open spec fn view(&self) -> SnapshotModel {
        SnapshotModel { revision: self.revision, items: contents(self.items@) }
    }
}

/// A request to a board and its answer.
#[allow(inconsistent_fields)]
pub enum Call {
    Snapshot { answer: Result<SnapshotModel, Failure> },
    Replace {
        expected: Revision,
        items: Seq<Seq<FormatModel>>,
        answer: Result<Revision, WriteFailure>,
    },
    DispatchPaste { answer: bool },
}

/// The model of a snapshot's answer.
pub open spec fn snapshot_answer(r: Result<Snapshot, Failure>) -> Result<SnapshotModel, Failure> {
    match r {
        Ok(s) => Ok(s@),
        Err(e) => Err(e),
    }
}

/// A clipboard and the paste shortcut that goes with it.
pub trait Board: Sized {
    /// The requests made so far, as a record for proofs. The default is for adapters outside
    /// verified code, which store nothing for it; a verified one keeps a record of its own, since
    /// no implementation meets the clauses below with the default.
    closed spec fn calls(&self) -> Seq<Call> {
        Seq::empty()
    }

    /// Reads the whole clipboard.
    fn snapshot(&mut self) -> (r: Result<Snapshot, Failure>)
        ensures
            final(self).calls() == old(self).calls().push(
                Call::Snapshot { answer: snapshot_answer(r) },
            ),
    ;

    /// Writes `items` if the clipboard is still at the revision `expected`.
    fn replace(&mut self, expected: Revision, items: &[Item]) -> (r: Result<Revision, WriteFailure>)
        ensures
            final(self).calls() == old(self).calls().push(
                Call::Replace { expected, items: contents(items@), answer: r },
            ),
    ;

    /// Presses the paste shortcut.
    fn dispatch_paste(&mut self) -> (r: bool)
        ensures
            final(self).calls() == old(self).calls().push(Call::DispatchPaste { answer: r }),
    ;
}

pub const MAX_ITEMS: usize = 32;

pub const MAX_FORMATS_PER_ITEM: usize = 32;

pub const MAX_KIND_BYTES: usize = 256;

pub const MAX_ITEM_BYTES: usize = 8388608;

pub const MAX_BYTES: usize = 16777216;

/// The bytes of the representations of an item.
pub open spec fn item_bytes(item: Seq<FormatModel>) -> nat
    decreases item.len(),
{
    if item.len() == 0 {
        0
    } else {
        item_bytes(item.drop_last()) + item.last().data.len()
    }
}

/// The bytes of all items.
pub open spec fn total_bytes(items: Seq<Seq<FormatModel>>) -> nat
    decreases items.len(),
{
    if items.len() == 0 {
        0
    } else {
        total_bytes(items.drop_last()) + item_bytes(items.last())
    }
}

/// The representation has a name, and not too long a one.
pub open spec fn named(format: FormatModel) -> bool {
    0 < encode_utf8(format.kind).len() <= MAX_KIND_BYTES
}

/// The item can be kept for recovery.
pub open spec fn item_supported(item: Seq<FormatModel>) -> bool {
    &&& 1 <= item.len() <= MAX_FORMATS_PER_ITEM
    &&& forall|j: int| 0 <= j < item.len() ==> named(#[trigger] item[j])
    &&& item_bytes(item) <= MAX_ITEM_BYTES
}

/// The clipboard can be kept for recovery.
pub open spec fn supported(items: Seq<Seq<FormatModel>>) -> bool {
    &&& items.len() <= MAX_ITEMS
    &&& forall|i: int| 0 <= i < items.len() ==> item_supported(#[trigger] items[i])
    &&& total_bytes(items) <= MAX_BYTES
}

pub(crate) proof fn lemma_item_bytes_grow(item: Seq<FormatModel>, n: int)
    requires
        0 <= n <= item.len(),
    ensures
        item_bytes(item.take(n)) <= item_bytes(item),
    decreases item.len() - n,
{
    if n < item.len() {
        lemma_item_bytes_grow(item, n + 1);
        assert(item.take(n + 1).drop_last() =~= item.take(n));
    } else {
        assert(item.take(n) =~= item);
    }
}

pub(crate) proof fn lemma_total_bytes_grow(items: Seq<Seq<FormatModel>>, n: int)
    requires
        0 <= n <= items.len(),
    ensures
        total_bytes(items.take(n)) <= total_bytes(items),
    decreases items.len() - n,
{
    if n < items.len() {
        lemma_total_bytes_grow(items, n + 1);
        assert(items.take(n + 1).drop_last() =~= items.take(n));
    } else {
        assert(items.take(n) =~= items);
    }
}

/// The sizes of one item are within bounds. `used` is what earlier items took; returns what
/// they take together with this one.
fn measure(item: &Item, used: usize) -> (r: Option<usize>)
    requires
        used <= MAX_BYTES,
    ensures
        r is Some <==> item_supported(item@) && used + item_bytes(item@) <= MAX_BYTES,
        r matches Some(total) ==> total == used + item_bytes(item@),
{
    if item.formats.len() == 0 || item.formats.len() > MAX_FORMATS_PER_ITEM {
        return None;
    }
    let mut bytes: usize = 0;
    let mut j: usize = 0;
    assert(item@.take(0) =~= Seq::<FormatModel>::empty());
    while j < item.formats.len()
        invariant
            j <= item.formats.len(),
            1 <= item@.len() <= MAX_FORMATS_PER_ITEM,
            used <= MAX_BYTES,
            bytes == item_bytes(item@.take(j as int)),
            bytes <= MAX_ITEM_BYTES,
            used + bytes <= MAX_BYTES,
            forall|k: int| 0 <= k < j ==> named(#[trigger] item@[k]),
        decreases item.formats.len() - j,
    {
        let format = &item.formats[j];
        assert(item@[j as int] == format@);
        let kind: usize = format.kind.as_str().as_bytes().len();
        if kind == 0 || kind > MAX_KIND_BYTES {
            return None;
        }
        let size: usize = format.data.len();
        proof {
            assert(item@.take(j + 1).drop_last() =~= item@.take(j as int));
            lemma_item_bytes_grow(item@, j + 1);
        }
        if size > MAX_ITEM_BYTES - bytes || size > MAX_BYTES - used - bytes {
            return None;
        }
        bytes += size;
        j += 1;
    }
    assert(item@.take(item@.len() as int) =~= item@);
    Some(used + bytes)
}

/// The clipboard is small and plain enough to be kept for recovery.
pub fn within_bounds(items: &[Item]) -> (r: bool)
    ensures
        r == supported(contents(items@)),
{
    if items.len() > MAX_ITEMS {
        return false;
    }
    let mut total: usize = 0;
    let mut i: usize = 0;
    let ghost all = contents(items@);
    assert(all.take(0) =~= Seq::<Seq<FormatModel>>::empty());
    while i < items.len()
        invariant
            all == contents(items@),
            i <= items.len() <= MAX_ITEMS,
            total == total_bytes(all.take(i as int)),
            total <= MAX_BYTES,
            forall|k: int| 0 <= k < i ==> item_supported(#[trigger] all[k]),
        decreases items.len() - i,
    {
        proof {
            assert(all.take(i + 1).drop_last() =~= all.take(i as int));
            assert(all[i as int] == items@[i as int]@);
            lemma_total_bytes_grow(all, i + 1);
        }
        match measure(&items[i], total) {
            Some(sum) => {
                total = sum;
            },
            None => {
                return false;
            },
        }
        i += 1;
    }
    assert(all.take(all.len() as int) =~= all);
    true
}

/// The clipboard contents that a text stands for.
pub open spec fn text_items(text: Seq<char>) -> Seq<Seq<FormatModel>> {
    seq![seq![FormatModel { kind: "public.utf8-plain-text"@, data: encode_utf8(text) }]]
}

fn text_item(text: &str) -> (r: Vec<Item>)
    ensures
        contents(r@) == text_items(text@),
{
    let format = Format { kind: "public.utf8-plain-text".to_owned(), data: text.as_bytes_vec() };
    let mut formats: Vec<Format> = Vec::new();
    formats.push(format);
    let item = Item { formats };
    assert(item@ =~= seq![format@]);
    let mut items: Vec<Item> = Vec::new();
    items.push(item);
    assert(contents(items@) =~= seq![item@]);
    items
}

/// What a lease holds: the revision at which the clipboard is ours, and what it held
/// before.
pub struct Saved {
    pub owned: Revision,
    pub items: Seq<Seq<FormatModel>>,
}

/// A loan of the clipboard, with what has to go back.
pub struct Lease {
    saved: Option<(Revision, Vec<Item>)>,
}

impl View for Lease {
    type V = Option<Saved>;

    closed spec fn view(&self) -> Option<Saved> {
        match self.saved {
            Some((owned, items)) => Some(Saved { owned, items: contents(items@) }),
            None => None,
        }
    }
}

impl Default for Lease {
    fn default() -> (r: Lease)
        ensures
            r@ is None,
    {
        Lease { saved: None }
    }
}

/// The outcome of a request to a lease: the lease after it, what is returned, and what was
/// asked of the board.
pub struct Outcome {
    pub lease: Option<Saved>,
    pub result: Result<(), Failure>,
    pub calls: Seq<Call>,
}

/// What sending `text` comes to, by the answers of the board to a snapshot, a replacement
/// and a paste.
///
/// A clipboard that is still ours blocks the next paste. One that has a newer owner
/// releases the lease. Nothing is written over contents that could not be given back, and
/// nothing is pasted unless the text is in place.
pub open spec fn send_outcome(
    lease: Option<Saved>,
    text: Seq<char>,
    snapshot: Result<SnapshotModel, Failure>,
    replaced: Result<Revision, WriteFailure>,
    pasted: bool,
) -> Outcome {
    let read = seq![Call::Snapshot { answer: snapshot }];
    match snapshot {
        Err(failure) => Outcome { lease, result: Err(failure), calls: read },
        Ok(before) => if lease is Some && lease->0.owned == before.revision {
            Outcome { lease, result: Err(Failure::PendingRestore), calls: read }
        } else if !supported(before.items) {
            Outcome { lease: None, result: Err(Failure::UnsupportedClipboard), calls: read }
        } else {
            let written = read.push(
                Call::Replace {
                    expected: before.revision,
                    items: text_items(text),
                    answer: replaced,
                },
            );
            match replaced {
                Ok(owned) => Outcome {
                    lease: Some(Saved { owned, items: before.items }),
                    result: if pasted {
                        Ok(())
                    } else {
                        Err(Failure::DispatchFailed)
                    },
                    calls: written.push(Call::DispatchPaste { answer: pasted }),
                },
                Err(WriteFailure::Owned(owned)) => Outcome {
                    lease: Some(Saved { owned, items: before.items }),
                    result: Err(Failure::WriteFailed),
                    calls: written,
                },
                Err(WriteFailure::Changed) => Outcome {
                    lease: None,
                    result: Err(Failure::Changed),
                    calls: written,
                },
                Err(WriteFailure::Unchanged) => Outcome {
                    lease: None,
                    result: Err(Failure::WriteFailed),
                    calls: written,
                },
            }
        },
    }
}

/// What giving the clipboard back comes to, by the answer of the board to the replacement.
pub open spec fn restore_outcome(
    lease: Option<Saved>,
    replaced: Result<Revision, WriteFailure>,
) -> Outcome {
    match lease {
        None => Outcome { lease, result: Err(Failure::PendingRestore), calls: Seq::empty() },
        Some(saved) => {
            let calls = seq![
                Call::Replace { expected: saved.owned, items: saved.items, answer: replaced },
            ];
            match replaced {
                Ok(_) => Outcome { lease: None, result: Ok(()), calls },
                Err(WriteFailure::Unchanged) => Outcome {
                    lease,
                    result: Err(Failure::WriteFailed),
                    calls,
                },
                Err(WriteFailure::Changed) => Outcome {
                    lease: None,
                    result: Err(Failure::Changed),
                    calls,
                },
                Err(WriteFailure::Owned(owned)) => Outcome {
                    lease: Some(Saved { owned, ..saved }),
                    result: Err(Failure::WriteFailed),
                    calls,
                },
            }
        },
    }
}

/// A lease, a result and the calls of a board are what an outcome says.
pub open spec fn came_to<B: Board>(
    outcome: Outcome,
    lease: Lease,
    result: Result<(), Failure>,
    before: B,
    after: B,
) -> bool {
    &&& lease@ == outcome.lease
    &&& result == outcome.result
    &&& after.calls() =~= before.calls() + outcome.calls
}

impl Lease {
    /// Previous contents wait to be given back.
    pub fn pending(&self) -> (r: bool)
        ensures
            r == (self@ is Some),
    {
        self.saved.is_some()
    }

    /// Puts `text` on the clipboard and presses paste, keeping what was there before.
    pub fn send<B: Board>(&mut self, board: &mut B, text: &str) -> (r: Result<(), Failure>)
        ensures
            exists|
                snapshot: Result<SnapshotModel, Failure>,
                replaced: Result<Revision, WriteFailure>,
                pasted: bool,
            |
                came_to(
                    #[trigger] send_outcome(old(self)@, text@, snapshot, replaced, pasted),
                    *final(self),
                    r,
                    *old(board),
                    *final(board),
                ),
    {
        let ghost lease = self@;
        let ghost calls = board.calls();
        let ghost any: Result<Revision, WriteFailure> = Err(WriteFailure::Unchanged);
        let read = board.snapshot();
        let ghost snapshot = snapshot_answer(read);
        let before = match read {
            Ok(before) => before,
            Err(failure) => {
                assert(came_to(
                    send_outcome(lease, text@, snapshot, any, false),
                    *self,
                    Err(failure),
                    *old(board),
                    *board,
                ));
                return Err(failure);
            },
        };
        if let Some((owned, _)) = &self.saved {
            if *owned == before.revision {
                assert(came_to(
                    send_outcome(lease, text@, snapshot, any, false),
                    *self,
                    Err(Failure::PendingRestore),
                    *old(board),
                    *board,
                ));
                return Err(Failure::PendingRestore);
            }
        }
        // The clipboard has a newer owner. Its contents must win, so the old restoration
        // lease is no longer actionable and is released before this new paste starts.
        self.saved = None;
        if !within_bounds(before.items.as_slice()) {
            assert(came_to(
                send_outcome(lease, text@, snapshot, any, false),
                *self,
                Err(Failure::UnsupportedClipboard),
                *old(board),
                *board,
            ));
            return Err(Failure::UnsupportedClipboard);
        }
        let replacement = text_item(text);
        let replaced = board.replace(before.revision, replacement.as_slice());
        match replaced {
            Ok(owned) => {
                self.saved = Some((owned, before.items));
            },
            Err(WriteFailure::Owned(owned)) => {
                self.saved = Some((owned, before.items));
                assert(came_to(
                    send_outcome(lease, text@, snapshot, replaced, false),
                    *self,
                    Err(Failure::WriteFailed),
                    *old(board),
                    *board,
                ));
                return Err(Failure::WriteFailed);
            },
            Err(WriteFailure::Changed) => {
                assert(came_to(
                    send_outcome(lease, text@, snapshot, replaced, false),
                    *self,
                    Err(Failure::Changed),
                    *old(board),
                    *board,
                ));
                return Err(Failure::Changed);
            },
            Err(WriteFailure::Unchanged) => {
                assert(came_to(
                    send_outcome(lease, text@, snapshot, replaced, false),
                    *self,
                    Err(Failure::WriteFailed),
                    *old(board),
                    *board,
                ));
                return Err(Failure::WriteFailed);
            },
        }
        let pasted = board.dispatch_paste();
        let result = if pasted {
            Ok(())
        } else {
            Err(Failure::DispatchFailed)
        };
        assert(came_to(
            send_outcome(lease, text@, snapshot, replaced, pasted),
            *self,
            result,
            *old(board),
            *board,
        ));
        result
    }

    /// Gives the previous contents back, unless the clipboard has a newer owner.
    pub fn restore<B: Board>(&mut self, board: &mut B) -> (r: Result<(), Failure>)
        ensures
            exists|replaced: Result<Revision, WriteFailure>|
                came_to(
                    #[trigger] restore_outcome(old(self)@, replaced),
                    *final(self),
                    r,
                    *old(board),
                    *final(board),
                ),
    {
        let ghost lease = self@;
        match self.saved.take() {
            None => {
                assert(came_to(
                    restore_outcome(lease, Err(WriteFailure::Unchanged)),
                    *self,
                    Err(Failure::PendingRestore),
                    *old(board),
                    *board,
                ));
                Err(Failure::PendingRestore)
            },
            Some((owned, items)) => {
                let replaced = board.replace(owned, items.as_slice());
                let result = match replaced {
                    Ok(_) => Ok(()),
                    Err(WriteFailure::Unchanged) => {
                        self.saved = Some((owned, items));
                        Err(Failure::WriteFailed)
                    },
                    // A newer clipboard owner wins.
                    Err(WriteFailure::Changed) => Err(Failure::Changed),
                    Err(WriteFailure::Owned(revision)) => {
                        self.saved = Some((revision, items));
                        Err(Failure::WriteFailed)
                    },
                };
                assert(came_to(
                    restore_outcome(lease, replaced),
                    *self,
                    result,
                    *old(board),
                    *board,
                ));
                result
            },
        }
    }

    /// Gives up what would go back.
    pub fn abandon(&mut self)
        ensures
            final(self)@ is None,
    {
        self.saved = None;
    }
}

/// What was on the clipboard before a paste is what a restore writes back, at the revision
/// that the paste left.
pub proof fn restore_writes_what_send_found(
    lease: Option<Saved>,
    text: Seq<char>,
    before: SnapshotModel,
    owned: Revision,
    pasted: bool,
    answer: Result<Revision, WriteFailure>,
)
    requires
        supported(before.items),
        lease matches Some(saved) ==> saved.owned != before.revision,
    ensures
        ({
            let sent = send_outcome(lease, text, Ok(before), Ok(owned), pasted);
            restore_outcome(sent.lease, answer).calls == seq![
                Call::Replace { expected: owned, items: before.items, answer },
            ]
        }),
{
}

/// However often a restore fails without losing the clipboard, the next one still writes
/// the same contents.
pub proof fn failed_restore_keeps_the_contents(saved: Saved, answer: WriteFailure)
    requires
        !(answer is Changed),
    ensures
        ({
            let after = restore_outcome(Some(saved), Err(answer)).lease;
            after is Some && after->0.items == saved.items
        }),
{
}

/// A paste is sent only after the text was put in place, over contents that the lease now
/// keeps; and a lease that is still ours sends none.
pub proof fn paste_needs_a_kept_clipboard(
    lease: Option<Saved>,
    text: Seq<char>,
    snapshot: Result<SnapshotModel, Failure>,
    replaced: Result<Revision, WriteFailure>,
    pasted: bool,
)
    requires
        send_outcome(lease, text, snapshot, replaced, pasted).calls.contains(
            Call::DispatchPaste { answer: pasted },
        ),
    ensures
        snapshot matches Ok(before) && replaced matches Ok(owned) && {
            &&& !(lease is Some && lease->0.owned == before.revision)
            &&& supported(before.items)
            &&& send_outcome(lease, text, snapshot, replaced, pasted).lease == Some(
                Saved { owned, items: before.items },
            )
        },
{
}

/// Whatever the board answers, every write is made at the revision that was read or that is
/// owned, so a newer owner's contents are never written over.
pub proof fn writes_name_a_known_revision(
    lease: Option<Saved>,
    text: Seq<char>,
    snapshot: Result<SnapshotModel, Failure>,
    replaced: Result<Revision, WriteFailure>,
    pasted: bool,
    call: Call,
)
    ensures
        send_outcome(lease, text, snapshot, replaced, pasted).calls.contains(call) ==> (
        call matches Call::Replace { expected, .. } ==> snapshot is Ok && expected
            == snapshot->Ok_0.revision),
        restore_outcome(lease, replaced).calls.contains(call) ==> (call matches Call::Replace {
            expected,
            ..
        } ==> lease is Some && expected == lease->0.owned),
{
}

/// Where paste is pressed, the write just before it put the whole text in place: one item with
/// one representation, plain UTF-8 text, whose bytes are those of the text.
pub proof fn paste_follows_the_whole_text(
    lease: Option<Saved>,
    text: Seq<char>,
    snapshot: Result<SnapshotModel, Failure>,
    replaced: Result<Revision, WriteFailure>,
    pasted: bool,
    at: int,
)
    requires
        0 <= at < send_outcome(lease, text, snapshot, replaced, pasted).calls.len(),
        send_outcome(lease, text, snapshot, replaced, pasted).calls[at] is DispatchPaste,
    ensures
        ({
            let calls = send_outcome(lease, text, snapshot, replaced, pasted).calls;
            &&& at >= 1
            &&& calls[at - 1] is Replace
            &&& calls[at - 1]->Replace_answer is Ok
            &&& calls[at - 1]->items.len() == 1
            &&& calls[at - 1]->items[0].len() == 1
            &&& calls[at - 1]->items[0][0].kind == "public.utf8-plain-text"@
            &&& calls[at - 1]->items[0][0].data == encode_utf8(text)
        }),
{
}

/// Whatever a send writes is the whole text, and it writes at most once.
pub proof fn sends_write_the_whole_text(
    lease: Option<Saved>,
    text: Seq<char>,
    snapshot: Result<SnapshotModel, Failure>,
    replaced: Result<Revision, WriteFailure>,
    pasted: bool,
    i: int,
    j: int,
)
    requires
        0 <= i < send_outcome(lease, text, snapshot, replaced, pasted).calls.len(),
        0 <= j < send_outcome(lease, text, snapshot, replaced, pasted).calls.len(),
        send_outcome(lease, text, snapshot, replaced, pasted).calls[i] is Replace,
        send_outcome(lease, text, snapshot, replaced, pasted).calls[j] is Replace,
    ensures
        i == j,
        ({
            let items = send_outcome(lease, text, snapshot, replaced, pasted).calls[i]->items;
            &&& items.len() == 1
            &&& items[0].len() == 1
            &&& items[0][0].kind == "public.utf8-plain-text"@
            &&& items[0][0].data == encode_utf8(text)
        }),
{
}

/// A send succeeds exactly where the clipboard was read and can be kept, is not still ours,
/// took the text, and paste was pressed; anything else is named as what it is.
pub proof fn sends_succeed_when_they_can(
    lease: Option<Saved>,
    text: Seq<char>,
    before: SnapshotModel,
    replaced: Result<Revision, WriteFailure>,
    pasted: bool,
    failure: Failure,
)
    ensures
        ({
            let ours = lease is Some && lease->0.owned == before.revision;
            let r = send_outcome(lease, text, Ok(before), replaced, pasted);
            &&& r.result is Ok <==> !ours && supported(before.items) && replaced is Ok && pasted
            &&& r.result == Err::<(), Failure>(Failure::PendingRestore) <==> ours
            &&& ours ==> r.lease == lease && r.calls.len() == 1
            &&& r.result == Err::<(), Failure>(Failure::UnsupportedClipboard) <==> !ours
                && !supported(before.items)
            &&& !ours && !supported(before.items) ==> r.lease is None && r.calls.len() == 1
            &&& !ours && supported(before.items) && replaced is Ok ==> r.lease == Some(
                Saved { owned: replaced->Ok_0, items: before.items },
            ) && r.calls.len() == 3 && (!pasted ==> r.result == Err::<(), Failure>(
                Failure::DispatchFailed,
            ))
            &&& !ours && supported(before.items) && replaced is Err ==> r.calls.len() == 2
        }),
        send_outcome(lease, text, Err(failure), replaced, pasted).result == Err::<(), Failure>(
            failure,
        ),
        send_outcome(lease, text, Err(failure), replaced, pasted).lease == lease,
        send_outcome(lease, text, Err(failure), replaced, pasted).calls.len() == 1,
{
}

/// A write that failed but left the clipboard ours keeps what was there before; one that found
/// another owner or changed nothing keeps nothing.
pub proof fn failed_writes_keep_what_they_must(
    lease: Option<Saved>,
    text: Seq<char>,
    before: SnapshotModel,
    pasted: bool,
    owned: Revision,
)
    requires
        supported(before.items),
        lease matches Some(saved) ==> saved.owned != before.revision,
    ensures
        send_outcome(lease, text, Ok(before), Err(WriteFailure::Owned(owned)), pasted).lease
            == Some(Saved { owned, items: before.items }),
        send_outcome(lease, text, Ok(before), Err(WriteFailure::Owned(owned)), pasted).result
            == Err::<(), Failure>(Failure::WriteFailed),
        send_outcome(lease, text, Ok(before), Err(WriteFailure::Changed), pasted).lease is None,
        send_outcome(lease, text, Ok(before), Err(WriteFailure::Changed), pasted).result == Err::<
            (),
            Failure,
        >(Failure::Changed),
        send_outcome(lease, text, Ok(before), Err(WriteFailure::Unchanged), pasted).lease is None,
        send_outcome(lease, text, Ok(before), Err(WriteFailure::Unchanged), pasted).result == Err::<
            (),
            Failure,
        >(Failure::WriteFailed),
{
}

/// A restore writes the kept contents once, at the revision that is ours, and is done when
/// they are back or a newer owner is found; without kept contents it asks nothing.
pub proof fn restores_write_the_kept_contents(saved: Saved, answer: Result<Revision, WriteFailure>)
    ensures
        ({
            let r = restore_outcome(Some(saved), answer);
            &&& r.calls.len() == 1
            &&& r.calls[0] is Replace
            &&& r.calls[0]->expected == saved.owned
            &&& r.calls[0]->items == saved.items
            &&& r.result is Ok <==> answer is Ok
            &&& answer is Ok ==> r.lease is None
            &&& r.result == Err::<(), Failure>(Failure::Changed) <==> answer == Err::<
                Revision,
                WriteFailure,
            >(WriteFailure::Changed)
            &&& answer == Err::<Revision, WriteFailure>(WriteFailure::Changed) ==> r.lease is None
            &&& answer == Err::<Revision, WriteFailure>(WriteFailure::Unchanged) ==> r.lease
                == Some(saved)
            &&& answer matches Err(WriteFailure::Owned(owned)) ==> r.lease == Some(
                Saved { owned, items: saved.items },
            )
        }),
        restore_outcome(None, answer).calls.len() == 0,
        restore_outcome(None, answer).lease is None,
        restore_outcome(None, answer).result == Err::<(), Failure>(Failure::PendingRestore),
{
}

/// The size of an item is that of all its representations, and the size of a clipboard that of
/// all its items.
pub proof fn sizes_add_up(
    item: Seq<FormatModel>,
    format: FormatModel,
    items: Seq<Seq<FormatModel>>,
)
    ensures
        item_bytes(Seq::<FormatModel>::empty()) == 0,
        item_bytes(item.push(format)) == item_bytes(item) + format.data.len(),
        total_bytes(Seq::<Seq<FormatModel>>::empty()) == 0,
        total_bytes(items.push(item)) == total_bytes(items) + item_bytes(item),
{
    assert(item.push(format).drop_last() =~= item);
    assert(items.push(item).drop_last() =~= items);
}

/// An item can be kept that has between one and 32 named representations, no name longer than
/// 256 bytes, of no more than 8 MiB in all.
pub proof fn small_items_can_be_kept(item: Seq<FormatModel>)
    ensures
        item_supported(item) <==> {
            &&& 1 <= item.len() <= 32
            &&& forall|j: int|
                0 <= j < item.len() ==> 1 <= encode_utf8((#[trigger] item[j]).kind).len() <= 256
            &&& item_bytes(item) <= 8 * 1024 * 1024
        },
{
    if item_supported(item) {
        assert forall|j: int| 0 <= j < item.len() implies 1 <= encode_utf8(
            (#[trigger] item[j]).kind,
        ).len() <= 256 by {
            assert(named(item[j]));
        }
    }
}

/// A clipboard can be kept that has at most 32 items, each of which can be, of no more than
/// 16 MiB in all; the empty one can.
pub proof fn small_clipboards_can_be_kept(items: Seq<Seq<FormatModel>>)
    ensures
        supported(items) <==> {
            &&& items.len() <= 32
            &&& forall|i: int| 0 <= i < items.len() ==> item_supported(#[trigger] items[i])
            &&& total_bytes(items) <= 16 * 1024 * 1024
        },
        supported(Seq::<Seq<FormatModel>>::empty()),
{
}

/// Items are seen whole: every representation of each, with its name and all its bytes.
pub proof fn items_are_seen_whole(items: Seq<Item>, i: int, j: int)
    requires
        0 <= i < items.len(),
        0 <= j < items[i].formats@.len(),
    ensures
        contents(items).len() == items.len(),
        contents(items)[i].len() == items[i].formats@.len(),
        contents(items)[i][j].kind == items[i].formats@[j].kind@,
        contents(items)[i][j].data == items[i].formats@[j].data@,
{
}

/// An outcome says all that happened: the lease, the result, and every request to the board.
pub proof fn outcomes_say_all_that_happened<B: Board>(
    outcome: Outcome,
    lease: Lease,
    result: Result<(), Failure>,
    before: B,
    after: B,
)
    requires
        came_to(outcome, lease, result, before, after),
    ensures
        lease@ == outcome.lease,
        result == outcome.result,
        after.calls() == before.calls() + outcome.calls,
{
}

} // verus!
