//! Reading and writing a clipboard of several items for a local paste. Everything that is
//! kept is copied out, within bounds; what is only promised is not asked for. A native
//! write cannot be atomic, so the owner is checked at each step.
use crate::local_clipboard::{
    contents, item_bytes, total_bytes, Failure, Format, FormatModel, Item, Revision, Snapshot,
    WriteFailure, MAX_BYTES, MAX_FORMATS_PER_ITEM, MAX_ITEMS, MAX_ITEM_BYTES, MAX_KIND_BYTES,
};
use crate::local_delivery::CopyFailure;
use crate::text::{contains, found};
use vstd::prelude::*;
use vstd::utf8::encode_utf8;

verus! {

/// A text in lower case, as `str::to_lowercase` gives it.
pub uninterp spec fn lowercase(text: Seq<char>) -> Seq<char>;

/// Calls `str::to_lowercase`. Claims only that the outcome is a function of the text.
#[verifier::external_body]
fn lowered(text: &str) -> (r: String)
    ensures
        r@ == lowercase(text@),
{
    text.to_lowercase()
}

/// A type by this name, given in lower case, stands for data that its owner has yet to make.
pub fn is_promise(name: &str) -> (r: bool)
    ensures
        r == found(name@, "promise"@),
{
    contains(name, "promise")
}

/// A type by this name stands for data that its owner has yet to make.
pub open spec fn promised(name: Seq<char>) -> bool {
    found(lowercase(name), "promise"@)
}

/// A type by this name stands for data that its owner has yet to make.
pub fn is_promised(name: &str) -> (r: bool)
    ensures
        r == promised(name@),
{
    is_promise(lowered(name).as_str())
}

/// Data of a type by this name may be asked for.
pub open spec fn askable(name: Seq<char>) -> bool {
    encode_utf8(name).len() <= MAX_KIND_BYTES && !promised(name)
}

/// Data of a type by this name may be asked for.
pub fn may_ask(name: &str) -> (r: bool)
    ensures
        r == askable(name@),
{
    name.as_bytes().len() <= MAX_KIND_BYTES && !is_promised(name)
}

/// What has been copied out of a clipboard so far.
pub ghost struct DraftModel {
    pub revision: Revision,
    /// The items that are complete.
    pub items: Seq<Seq<FormatModel>>,
    /// The formats of the item that is being read.
    pub formats: Seq<FormatModel>,
}

/// The item is within bounds and holds nothing that was only promised.
pub open spec fn item_kept(item: Seq<FormatModel>) -> bool {
    &&& 1 <= item.len() <= MAX_FORMATS_PER_ITEM
    &&& forall|j: int| 0 <= j < item.len() ==> askable((#[trigger] item[j]).kind)
    &&& item_bytes(item) <= MAX_ITEM_BYTES
}

/// The draft is within bounds.
pub open spec fn bounded(draft: DraftModel) -> bool {
    &&& draft.items.len() <= MAX_ITEMS
    &&& forall|i: int| 0 <= i < draft.items.len() ==> item_kept(#[trigger] draft.items[i])
    &&& draft.formats.len() <= MAX_FORMATS_PER_ITEM
    &&& forall|j: int|
        0 <= j < draft.formats.len() ==> askable((#[trigger] draft.formats[j]).kind)
    &&& item_bytes(draft.formats) <= MAX_ITEM_BYTES
    &&& total_bytes(draft.items) + item_bytes(draft.formats) <= MAX_BYTES
}

/// One more format of this size fits.
pub open spec fn room(draft: DraftModel, size: nat) -> bool {
    &&& item_bytes(draft.formats) + size <= MAX_ITEM_BYTES
    &&& total_bytes(draft.items) + item_bytes(draft.formats) + size <= MAX_BYTES
}

/// A clipboard that says so of itself can be copied.
pub open spec fn readable(items: Option<usize>, typed: bool) -> bool {
    match items {
        Some(n) => n <= MAX_ITEMS,
        None => !typed,
    }
}

/// An item with so many types can follow.
pub open spec fn openable(draft: DraftModel, types: usize) -> bool {
    1 <= types <= MAX_FORMATS_PER_ITEM && draft.items.len() < MAX_ITEMS
}

/// The draft when a format was to be kept, and whether it was.
pub open spec fn after_keep(draft: DraftModel, format: FormatModel) -> (DraftModel, bool) {
    if askable(format.kind) && room(draft, format.data.len()) && draft.formats.len()
        < MAX_FORMATS_PER_ITEM {
        (DraftModel { formats: draft.formats.push(format), ..draft }, true)
    } else {
        (draft, false)
    }
}

/// The draft when an item was to be completed, and whether it was.
pub open spec fn after_close(draft: DraftModel) -> (DraftModel, bool) {
    if draft.formats.len() > 0 && draft.items.len() < MAX_ITEMS {
        (
            DraftModel {
                items: draft.items.push(draft.formats),
                formats: Seq::empty(),
                ..draft
            },
            true,
        )
    } else {
        (draft, false)
    }
}

/// The clipboard may be cleared.
pub open spec fn clearable(prepared: bool, now: Revision, expected: Revision) -> bool {
    prepared && now == expected
}

/// What follows when the clipboard was cleared.
pub open spec fn cleared(objects: usize, owned: Revision, now: Revision) -> Cleared {
    if objects == 0 {
        Cleared::Done(owned)
    } else if now != owned {
        Cleared::Lost
    } else {
        Cleared::Write
    }
}

/// What a write comes to.
pub open spec fn write_result(written: bool, now: Revision) -> Result<Revision, WriteFailure> {
    if written {
        Ok(now)
    } else {
        Err(WriteFailure::Owned(now))
    }
}

/// A copy of a clipboard in the making.
pub struct Draft {
    revision: Revision,
    items: Vec<Item>,
    formats: Vec<Format>,
    item_size: usize,
    total_size: usize,
}

impl View for Draft {
    type V = DraftModel;

    closed spec fn view(&self) -> DraftModel {
        DraftModel {
            revision: self.revision,
            items: contents(self.items@),
            formats: self.formats@.map_values(|f: Format| f@),
        }
    }
}

impl Draft {
    /// The sizes are counted right and the draft is within bounds.
    pub closed spec fn wf(self) -> bool {
        &&& bounded(self@)
        &&& self.item_size == item_bytes(self@.formats)
        &&& self.total_size == total_bytes(self@.items) + item_bytes(self@.formats)
    }

    /// A draft is within bounds whenever it is well formed.
    pub proof fn well_formed_drafts_are_bounded(self)
        requires
            self.wf(),
        ensures
            bounded(self@),
    {
    }

    /// A clipboard at `revision` is to be copied. `items` is the number of its items, if it
    /// says; `typed` says that it has data of some type.
    pub fn begin(revision: Revision, items: Option<usize>, typed: bool) -> (r: Result<
        Draft,
        Failure,
    >)
        ensures
            r is Ok <==> match items {
                Some(n) => n <= MAX_ITEMS,
                None => !typed,
            },
            r is Ok <==> readable(items, typed),
            r is Err ==> r->Err_0 == Failure::UnsupportedClipboard,
            r matches Ok(draft) ==> draft.wf() && draft@ == (DraftModel {
                revision,
                items: Seq::empty(),
                formats: Seq::empty(),
            }),
    {
        match items {
            Some(n) => {
                if n > MAX_ITEMS {
                    return Err(Failure::UnsupportedClipboard);
                }
            },
            None => {
                if typed {
                    return Err(Failure::UnsupportedClipboard);
                }
            },
        }
        let draft = Draft {
            revision,
            items: Vec::new(),
            formats: Vec::new(),
            item_size: 0,
            total_size: 0,
        };
        assert(draft@.items =~= Seq::empty());
        assert(draft@.formats =~= Seq::empty());
        Ok(draft)
    }

    /// An item with so many types is next.
    pub fn open(&self, types: usize) -> (r: Result<(), Failure>)
        ensures
            r == if 1 <= types <= MAX_FORMATS_PER_ITEM && self@.items.len() < MAX_ITEMS {
                Ok::<(), Failure>(())
            } else {
                Err(Failure::UnsupportedClipboard)
            },
            r is Ok <==> openable(self@, types),
    {
        if types == 0 || types > MAX_FORMATS_PER_ITEM || self.items.len() >= MAX_ITEMS {
            return Err(Failure::UnsupportedClipboard);
        }
        Ok(())
    }

    /// Data of this size, if there is any, can be kept beside the rest.
    pub fn fits(&self, size: Option<usize>) -> (r: Result<(), Failure>)
        requires
            self.wf(),
        ensures
            r == if size matches Some(n) && room(self@, n as nat) {
                Ok::<(), Failure>(())
            } else {
                Err(Failure::UnsupportedClipboard)
            },
    {
        match size {
            Some(n) => if n > MAX_ITEM_BYTES - self.item_size || n > MAX_BYTES - self.total_size {
                Err(Failure::UnsupportedClipboard)
            } else {
                Ok(())
            },
            None => Err(Failure::UnsupportedClipboard),
        }
    }

    /// Keeps the data of one type of the item that is being read.
    pub fn keep(&mut self, name: String, data: Vec<u8>) -> (r: Result<(), Failure>)
        requires
            old(self).wf(),
        ensures
            final(self).wf(),
            r == if askable(name@) && room(old(self)@, data@.len()) && old(self)@.formats.len()
                < MAX_FORMATS_PER_ITEM {
                Ok::<(), Failure>(())
            } else {
                Err(Failure::UnsupportedClipboard)
            },
            final(self)@ == if r is Ok {
                DraftModel {
                    formats: old(self)@.formats.push(FormatModel { kind: name@, data: data@ }),
                    ..old(self)@
                }
            } else {
                old(self)@
            },
            (final(self)@, r is Ok) == after_keep(
                old(self)@,
                FormatModel { kind: name@, data: data@ },
            ),
    {
        if !may_ask(name.as_str()) || self.formats.len() >= MAX_FORMATS_PER_ITEM {
            return Err(Failure::UnsupportedClipboard);
        }
        let size: usize = data.len();
        if let Err(failure) = self.fits(Some(size)) {
            return Err(failure);
        }
        let ghost before = self@;
        let ghost model = FormatModel { kind: name@, data: data@ };
        self.formats.push(Format { kind: name, data });
        self.item_size = self.item_size + size;
        self.total_size = self.total_size + size;
        proof {
            assert(self@.formats =~= before.formats.push(model));
            assert(before.formats.push(model).drop_last() =~= before.formats);
            assert(self@.items =~= before.items);
        }
        Ok(())
    }

    /// The item that is being read is complete.
    pub fn close(&mut self) -> (r: Result<(), Failure>)
        requires
            old(self).wf(),
        ensures
            final(self).wf(),
            r == if old(self)@.formats.len() > 0 && old(self)@.items.len() < MAX_ITEMS {
                Ok::<(), Failure>(())
            } else {
                Err(Failure::UnsupportedClipboard)
            },
            final(self)@ == if r is Ok {
                DraftModel {
                    items: old(self)@.items.push(old(self)@.formats),
                    formats: Seq::empty(),
                    ..old(self)@
                }
            } else {
                old(self)@
            },
            (final(self)@, r is Ok) == after_close(old(self)@),
    {
        if self.formats.len() == 0 || self.items.len() >= MAX_ITEMS {
            return Err(Failure::UnsupportedClipboard);
        }
        let ghost before = self@;
        let mut formats: Vec<Format> = Vec::new();
        formats.append(&mut self.formats);
        let item = Item { formats };
        assert(item@ =~= before.formats);
        self.items.push(item);
        self.item_size = 0;
        proof {
            assert(self@.items =~= before.items.push(before.formats));
            assert(self@.items.drop_last() =~= before.items);
            assert(self@.formats =~= Seq::empty());
        }
        Ok(())
    }

    /// All items were read; the clipboard is at the revision `now`.
    pub fn finish(self, now: Revision) -> (r: Result<Snapshot, Failure>)
        requires
            self.wf(),
        ensures
            r is Ok <==> now == self@.revision,
            r is Err ==> r->Err_0 == Failure::Changed,
            r matches Ok(s) ==> s@.revision == now && s@.items == self@.items,
    {
        if now != self.revision {
            return Err(Failure::Changed);
        }
        Ok(Snapshot { revision: self.revision, items: self.items })
    }
}

/// The native objects are made; the clipboard may be cleared while it is at `expected`.
pub fn may_clear(prepared: bool, now: Revision, expected: Revision) -> (r: Result<(), WriteFailure>)
    ensures
        r == if !prepared {
            Err::<(), WriteFailure>(WriteFailure::Unchanged)
        } else if now != expected {
            Err(WriteFailure::Changed)
        } else {
            Ok(())
        },
        r is Ok <==> clearable(prepared, now, expected),
{
    if !prepared {
        return Err(WriteFailure::Unchanged);
    }
    if now != expected {
        return Err(WriteFailure::Changed);
    }
    Ok(())
}

/// What follows when the clipboard was cleared.
#[derive(Clone, Copy, Debug, PartialEq, Eq, Structural)]
pub enum Cleared {
    /// There is nothing to write.
    Done(Revision),
    Write,
    /// Another owner came in between.
    Lost,
}

/// Clearing made the clipboard ours at `owned`; it is at `now`, and so many objects wait.
pub fn after_clear(objects: usize, owned: Revision, now: Revision) -> (r: Cleared)
    ensures
        r == if objects == 0 {
            Cleared::Done(owned)
        } else if now != owned {
            Cleared::Lost
        } else {
            Cleared::Write
        },
        r == cleared(objects, owned, now),
{
    if objects == 0 {
        Cleared::Done(owned)
    } else if now != owned {
        Cleared::Lost
    } else {
        Cleared::Write
    }
}

/// The objects were written, or not; the clipboard is then at `now`.
pub fn after_write(written: bool, now: Revision) -> (r: Result<Revision, WriteFailure>)
    ensures
        r == if written {
            Ok::<Revision, WriteFailure>(now)
        } else {
            Err(WriteFailure::Owned(now))
        },
        r == write_result(written, now),
{
    if written {
        Ok(now)
    } else {
        Err(WriteFailure::Owned(now))
    }
}

/// A transcript was written over the clipboard, or not.
pub fn after_overwrite(written: bool) -> (r: Result<(), CopyFailure>)
    ensures
        r == if written {
            Ok::<(), CopyFailure>(())
        } else {
            Err(CopyFailure::WriteFailedAfterClear)
        },
{
    if written {
        Ok(())
    } else {
        Err(CopyFailure::WriteFailedAfterClear)
    }
}

/// A copy within bounds whose types all have names can be put back.
pub proof fn named_drafts_are_supported(draft: DraftModel)
    requires
        bounded(draft),
        forall|i: int, j: int|
            0 <= i < draft.items.len() && 0 <= j < draft.items[i].len() ==> encode_utf8(
                (#[trigger] draft.items[i][j]).kind,
            ).len() > 0,
    ensures
        crate::local_clipboard::supported(draft.items),
{
    assert forall|i: int| 0 <= i < draft.items.len() implies crate::local_clipboard::item_supported(
        #[trigger] draft.items[i],
    ) by {
        assert(item_kept(draft.items[i]));
        assert forall|j: int| 0 <= j < draft.items[i].len() implies crate::local_clipboard::named(
            #[trigger] draft.items[i][j],
        ) by {
            assert(askable(draft.items[i][j].kind));
        }
    }
}

/// Data may be asked for by any name of up to 256 bytes that promises nothing.
pub proof fn plain_names_may_be_asked_for(name: Seq<char>)
    ensures
        askable(name) <==> encode_utf8(name).len() <= 256 && !found(lowercase(name), "promise"@),
{
}

/// Data fits while its item holds no more than 8 MiB and the clipboard no more than 16.
pub proof fn data_fits_within_bounds(draft: DraftModel, size: nat)
    ensures
        room(draft, size) <==> {
            &&& item_bytes(draft.formats) + size <= 8 * 1024 * 1024
            &&& total_bytes(draft.items) + item_bytes(draft.formats) + size <= 16 * 1024 * 1024
        },
{
}

/// A draft stays within bounds when a format that may be asked for and fits is kept, up to 32
/// of them, and when an item that has any is closed, up to 32 of them.
pub proof fn drafts_grow_within_bounds(draft: DraftModel, format: FormatModel)
    requires
        bounded(draft),
    ensures
        askable(format.kind) && room(draft, format.data.len()) && draft.formats.len() < 32
            ==> bounded(DraftModel { formats: draft.formats.push(format), ..draft }),
        1 <= draft.formats.len() && draft.items.len() < 32 ==> bounded(
            DraftModel {
                items: draft.items.push(draft.formats),
                formats: Seq::empty(),
                ..draft
            },
        ),
        !(draft.formats.len() < 32) ==> !bounded(
            DraftModel { formats: draft.formats.push(format), ..draft },
        ),
        !room(draft, format.data.len()) ==> !bounded(
            DraftModel { formats: draft.formats.push(format), ..draft },
        ),
        !askable(format.kind) ==> !bounded(
            DraftModel { formats: draft.formats.push(format), ..draft },
        ),
{
    let more = draft.formats.push(format);
    assert(more.drop_last() =~= draft.formats);
    assert(more[draft.formats.len() as int] == format);
    let items = draft.items.push(draft.formats);
    assert(items.drop_last() =~= draft.items);
    if 1 <= draft.formats.len() && draft.items.len() < 32 {
        assert(item_kept(draft.formats));
    }
}

/// A clipboard of up to 32 items can be copied; one that counts none can where it has no data.
pub proof fn clipboards_of_32_items_can_be_copied(n: usize, typed: bool)
    ensures
        readable(Some(n), typed) <==> n <= 32,
        readable(None, typed) <==> !typed,
{
}

/// Items with one to 32 types follow one another, up to 32 of them.
pub proof fn items_follow_one_another(draft: DraftModel, types: usize)
    ensures
        openable(draft, types) <==> 1 <= types && types <= 32 && draft.items.len() <= 31,
{
}

/// A format that may be asked for and fits is kept whole, behind those before it; any other is
/// refused and changes nothing.
pub proof fn formats_are_kept_whole(draft: DraftModel, format: FormatModel)
    ensures
        ({
            let after = after_keep(draft, format);
            &&& after.1 <==> askable(format.kind) && room(draft, format.data.len())
                && draft.formats.len() <= 31
            &&& after.1 ==> after.0.formats.len() == draft.formats.len() + 1
                && after.0.formats.last() == format && after.0.formats.drop_last() == draft.formats
            &&& !after.1 ==> after.0 == draft
            &&& after.0.items == draft.items
            &&& after.0.revision == draft.revision
        }),
{
    assert(draft.formats.push(format).drop_last() =~= draft.formats);
}

/// A completed item holds all formats that were kept for it, and the next one starts empty.
pub proof fn completed_items_hold_their_formats(draft: DraftModel)
    ensures
        ({
            let after = after_close(draft);
            &&& after.1 <==> draft.formats.len() >= 1 && draft.items.len() <= 31
            &&& after.1 ==> after.0.items.last() == draft.formats && after.0.items.drop_last()
                == draft.items && after.0.formats.len() == 0
            &&& !after.1 ==> after.0 == draft
            &&& after.0.revision == draft.revision
        }),
{
    assert(draft.items.push(draft.formats).drop_last() =~= draft.items);
}

/// The clipboard is cleared only once everything is made and while it is as it was expected;
/// what is made is then written only while it is still ours.
pub proof fn newer_owners_are_not_overwritten(
    objects: usize,
    now: Revision,
    expected: Revision,
)
    ensures
        clearable(true, now, expected) <==> now == expected,
        !clearable(false, now, expected),
        cleared(objects, expected, now) == Cleared::Write <==> objects >= 1 && now == expected,
        cleared(objects, expected, now) == Cleared::Lost <==> objects >= 1 && now != expected,
        cleared(0, expected, now) == Cleared::Done(expected),
        write_result(true, now) == Ok::<Revision, WriteFailure>(now),
        write_result(false, now) == Err::<Revision, WriteFailure>(WriteFailure::Owned(now)),
{
}

} // verus!
