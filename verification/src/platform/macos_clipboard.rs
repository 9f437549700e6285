//! Reading and writing the clipboard that is shared with another machine. One item is kept
//! at most, and only data that is there.
use crate::platform::macos_local_clipboard::{is_promised, promised};
use crate::remote_clipboard::{contents, Error, Format, Revision, Snapshot, WriteFailure};
use vstd::prelude::*;

verus! {

/// The clipboard has one item or none.
pub open spec fn keeps(items: Option<usize>, typed: bool) -> bool {
    match items {
        Some(n) => n <= 1,
        None => !typed,
    }
}

/// What a write comes to.
pub open spec fn write_result(written: bool, owned: Revision, now: Revision) -> Result<
    Revision,
    WriteFailure,
> {
    if now != owned {
        Err(WriteFailure::OwnershipLost)
    } else if !written {
        Err(WriteFailure::Owned(owned))
    } else {
        Ok(owned)
    }
}

/// The clipboard can be kept: it has one item or none. `items` is the number of its items,
/// if it says; `typed` says that it has data of some type.
pub fn single_item(items: Option<usize>, typed: bool) -> (r: Result<(), Error>)
    ensures
        r == if items matches Some(n) && n <= 1 || items is None && !typed {
            Ok::<(), Error>(())
        } else {
            Err(Error::Unsupported)
        },
        r is Ok <==> keeps(items, typed),
{
    match items {
        Some(n) => if n > 1 {
            Err(Error::Unsupported)
        } else {
            Ok(())
        },
        None => if typed {
            Err(Error::Unsupported)
        } else {
            Ok(())
        },
    }
}

/// Data of a type by this name may be asked for.
pub fn keepable(name: &str) -> (r: Result<(), Error>)
    ensures
        r == if promised(name@) {
            Err::<(), Error>(Error::Unsupported)
        } else {
            Ok(())
        },
{
    if is_promised(name) {
        Err(Error::Unsupported)
    } else {
        Ok(())
    }
}

/// What was copied at `revision` stands if the clipboard is still there.
pub fn finish(revision: Revision, now: Revision, formats: Vec<Format>) -> (r: Result<
    Snapshot,
    Error,
>)
    ensures
        match r {
            Ok(s) => now == revision && s@.revision == revision && s@.formats == contents(formats@),
            Err(error) => now != revision && error == Error::Changed,
        },
{
    if now != revision {
        return Err(Error::Changed);
    }
    Ok(Snapshot { revision, formats })
}

/// The clipboard may be cleared while it is at `expected`.
pub fn may_clear(now: Revision, expected: Revision) -> (r: Result<(), WriteFailure>)
    ensures
        r == if now == expected {
            Ok::<(), WriteFailure>(())
        } else {
            Err(WriteFailure::OwnershipLost)
        },
{
    if now != expected {
        return Err(WriteFailure::OwnershipLost);
    }
    Ok(())
}

/// Clearing made the clipboard ours at `owned`; then it was written, or not, and is at `now`.
/// A clipboard that another owner took in between is theirs.
pub fn after_write(written: bool, owned: Revision, now: Revision) -> (r: Result<
    Revision,
    WriteFailure,
>)
    ensures
        r == if now != owned {
            Err::<Revision, WriteFailure>(WriteFailure::OwnershipLost)
        } else if !written {
            Err(WriteFailure::Owned(owned))
        } else {
            Ok(owned)
        },
        r == write_result(written, owned, now),
{
    if now != owned {
        return Err(WriteFailure::OwnershipLost);
    }
    if !written {
        return Err(WriteFailure::Owned(owned));
    }
    Ok(owned)
}

/// Several items cannot be kept, nor data that belongs to no item.
pub proof fn one_item_can_be_kept(n: usize, typed: bool)
    ensures
        keeps(Some(0), typed) && keeps(Some(1), typed),
        n >= 2 ==> !keeps(Some(n), typed),
        keeps(None, typed) <==> !typed,
{
}

/// A write counts only while the clipboard is ours, and then counts as what it was.
pub proof fn writes_count_while_the_clipboard_is_ours(
    written: bool,
    owned: Revision,
    now: Revision,
)
    ensures
        write_result(true, owned, owned) == Ok::<Revision, WriteFailure>(owned),
        write_result(false, owned, owned) == Err::<Revision, WriteFailure>(
            WriteFailure::Owned(owned),
        ),
        now != owned ==> write_result(written, owned, now) == Err::<Revision, WriteFailure>(
            WriteFailure::OwnershipLost,
        ),
{
}

} // verus!
