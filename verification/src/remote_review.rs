//! Explicit review policy for the manual RustDesk fallback. No payload logging.
use crate::remote::{single_line, valid_text};
use vstd::prelude::*;

verus! {

#[derive(Clone, Copy, Debug, PartialEq, Eq, Structural)]
pub struct Window {
    pub process: i32,
    pub element: u64,
}

#[derive(Clone, Copy, Debug, PartialEq, Eq, Structural)]
pub struct ReviewId(pub u64);

#[derive(Clone, Copy, Debug, PartialEq, Eq, Structural)]
pub enum Error {
    InvalidText,
    NoWindow,
    ChangedWindow,
    ConfirmationNeeded,
    Stale,
}

/// What the user has in front.
#[derive(Clone, Copy, Debug, PartialEq, Eq, Structural)]
pub enum Foreground {
    /// A window that text can be reviewed for.
    Destination(Window),
    /// The review window itself.
    ReviewUi,
    /// Anything else.
    Other,
}

/// The destination that the user last had in front.
#[derive(Debug)]
pub struct Selection {
    window: Option<Window>,
}

impl View for Selection {
    type V = Option<Window>;

    closed spec fn view(&self) -> Option<Window> {
        self.window
    }
}

impl Default for Selection {
    fn default() -> (r: Selection)
        ensures
            r@ is None,
    {
        Selection { window: None }
    }
}

/// The selected destination after something came to the front.
pub open spec fn selected(before: Option<Window>, front: Foreground) -> Option<Window> {
    match front {
        Foreground::Destination(window) => Some(window),
        Foreground::ReviewUi => before,
        Foreground::Other => None,
    }
}

impl Selection {
    /// Something came to the front. The review window keeps the selection; an unrelated
    /// application clears it.
    pub fn observe(&mut self, front: Foreground)
        ensures
            final(self)@ == selected(old(self)@, front),
    {
        match front {
            Foreground::Destination(window) => {
                self.window = Some(window);
            },
            Foreground::ReviewUi => {},
            Foreground::Other => {
                self.window = None;
            },
        }
    }

    /// Hands the selection out and forgets it.
    pub fn take(&mut self) -> (r: Option<Window>)
        ensures
            r == old(self)@,
            final(self)@ is None,
    {
        let window = self.window;
        self.window = None;
        window
    }
}

/// A text under review for a window.
pub struct Pending {
    pub id: int,
    pub text: Seq<char>,
    pub window: Window,
}

/// The state of the review: the number of the last one, and the one under way.
pub struct Model {
    pub last: int,
    pub pending: Option<Pending>,
}

struct Prepared {
    text: String,
    window: Window,
}

/// Holds one text until the user confirms it.
pub struct Review {
    last: u64,
    pending: Option<Prepared>,
}

impl View for Review {
    type V = Model;

    closed spec fn view(&self) -> Model {
        Model {
            last: self.last as int,
            pending: match self.pending {
                Some(p) => Some(
                    Pending { id: self.last as int, text: p.text@, window: p.window },
                ),
                None => None,
            },
        }
    }
}

impl Default for Review {
    fn default() -> (r: Review)
        ensures
            r@ == (Model { last: 0, pending: None }),
    {
        Review { last: 0, pending: None }
    }
}

/// Why a confirmation releases nothing.
pub open spec fn refusal(m: Model, id: int, window: Option<Window>, confirmed: bool) -> Option<
    Error,
> {
    match m.pending {
        None => Some(Error::Stale),
        Some(p) => if p.id != id {
            Some(Error::Stale)
        } else if window != Some(p.window) {
            Some(Error::ChangedWindow)
        } else if !confirmed {
            Some(Error::ConfirmationNeeded)
        } else {
            None
        },
    }
}

/// The review after a confirmation. A changed window ends it; a missing consent does not.
pub open spec fn after_confirm(
    m: Model,
    id: int,
    window: Option<Window>,
    confirmed: bool,
) -> Model {
    match refusal(m, id, window, confirmed) {
        Some(Error::Stale) | Some(Error::ConfirmationNeeded) => m,
        _ => Model { pending: None, ..m },
    }
}

/// Why a text cannot be reviewed.
pub open spec fn unfit(text: Seq<char>, window: Option<Window>) -> Option<Error> {
    if !single_line(text) {
        Some(Error::InvalidText)
    } else if window is None {
        Some(Error::NoWindow)
    } else {
        None
    }
}

/// The review after a text was put under it.
pub open spec fn after_prepare(m: Model, text: Seq<char>, window: Option<Window>) -> Model {
    if unfit(text, window) is Some {
        m
    } else {
        Model {
            last: m.last + 1,
            pending: Some(Pending { id: m.last + 1, text, window: window->0 }),
        }
    }
}

/// The text that a confirmation releases.
pub open spec fn released(m: Model, id: int, window: Option<Window>, confirmed: bool) -> Option<
    Seq<char>,
> {
    match refusal(m, id, window, confirmed) {
        Some(_) => None,
        None => Some((m.pending->0).text),
    }
}

impl Review {
    /// Puts `text` under review for `window`, in place of any earlier review.
    pub fn prepare(&mut self, text: &str, window: Option<Window>) -> (r: Result<ReviewId, Error>)
        requires
            unfit(text@, window) is None ==> old(self)@.last < u64::MAX,
        ensures
            match unfit(text@, window) {
                Some(error) => r == Err::<ReviewId, Error>(error) && final(self)@ == old(self)@,
                None => {
                    let id = old(self)@.last + 1;
                    &&& r matches Ok(given) && given.0 == id
                    &&& final(self)@ == (Model {
                        last: id,
                        pending: Some(Pending { id, text: text@, window: window->0 }),
                    })
                },
            },
            final(self)@ == after_prepare(old(self)@, text@, window),
    {
        if !valid_text(text) {
            return Err(Error::InvalidText);
        }
        match window {
            None => Err(Error::NoWindow),
            Some(window) => {
                self.last += 1;
                self.pending = Some(Prepared { text: text.to_owned(), window });
                Ok(ReviewId(self.last))
            },
        }
    }

    /// Releases the reviewed text, once, if the user confirmed it and the window is still
    /// the one it was reviewed for.
    pub fn confirm(&mut self, id: ReviewId, window: Option<Window>, confirmed: bool) -> (r: Result<
        String,
        Error,
    >)
        ensures
            match refusal(old(self)@, id.0 as int, window, confirmed) {
                Some(error) => r == Err::<String, Error>(error),
                None => r matches Ok(text) && text@ == (old(self)@.pending->0).text,
            },
            r matches Ok(text) ==> Some(text@) == released(
                old(self)@,
                id.0 as int,
                window,
                confirmed,
            ),
            final(self)@ == after_confirm(old(self)@, id.0 as int, window, confirmed),
    {
        match self.pending.take() {
            None => Err(Error::Stale),
            Some(p) => {
                if self.last != id.0 {
                    self.pending = Some(p);
                    return Err(Error::Stale);
                }
                let unchanged = match window {
                    Some(w) => w == p.window,
                    None => false,
                };
                if !unchanged {
                    Err(Error::ChangedWindow)
                } else if !confirmed {
                    self.pending = Some(p);
                    Err(Error::ConfirmationNeeded)
                } else {
                    Ok(p.text)
                }
            },
        }
    }

    /// Drops the review.
    pub fn cancel(&mut self)
        ensures
            final(self)@ == (Model { pending: None, ..old(self)@ }),
    {
        self.pending = None;
    }
}

/// A review releases its text at most once: after a release every confirmation is stale.
pub proof fn text_is_released_once(
    m: Model,
    id: int,
    window: Option<Window>,
    later: Option<Window>,
    confirmed: bool,
)
    requires
        refusal(m, id, window, true) is None,
    ensures
        refusal(after_confirm(m, id, window, true), id, later, confirmed) == Some(Error::Stale),
{
}

/// A window that changed once ends the review, even if it comes back.
pub proof fn changed_window_ends_the_review(
    m: Model,
    id: int,
    changed: Option<Window>,
    later: Option<Window>,
    asked: bool,
    confirmed: bool,
)
    requires
        refusal(m, id, changed, asked) == Some(Error::ChangedWindow),
    ensures
        refusal(after_confirm(m, id, changed, asked), id, later, confirmed) == Some(Error::Stale),
{
}

/// Nothing is released without consent, nor for another window.
pub proof fn release_needs_consent_and_the_same_window(
    m: Model,
    id: int,
    window: Option<Window>,
    confirmed: bool,
)
    requires
        refusal(m, id, window, confirmed) is None,
    ensures
        confirmed,
        m.pending is Some && m.pending->0.id == id && window == Some(m.pending->0.window),
{
}

/// A new review makes the earlier ones stale.
pub proof fn new_review_supersedes(
    m: Model,
    id: int,
    text: Seq<char>,
    to: Window,
    window: Option<Window>,
    confirmed: bool,
)
    requires
        id <= m.last,
    ensures
        refusal(
            Model {
                last: m.last + 1,
                pending: Some(Pending { id: m.last + 1, text, window: to }),
            },
            id,
            window,
            confirmed,
        ) == Some(Error::Stale),
{
}

/// Opening the review window neither loses a destination nor invents one.
pub proof fn review_ui_keeps_the_selection(before: Option<Window>)
    ensures
        selected(before, Foreground::ReviewUi) == before,
        selected(selected(before, Foreground::Other), Foreground::ReviewUi) is None,
{
}

/// Only a text that is not a single line is invalid, and only a missing window is missing.
pub proof fn fit_texts_are_reviewed(text: Seq<char>, window: Option<Window>)
    ensures
        unfit(text, window) is None <==> single_line(text) && window is Some,
        unfit(text, window) == Some(Error::InvalidText) <==> !single_line(text),
        unfit(text, window) == Some(Error::NoWindow) <==> single_line(text) && window is None,
{
}

/// A review that is under way releases its text to the user who confirms it for its window,
/// and is over then; without consent it waits; for another window it is over.
pub proof fn confirmed_reviews_release(m: Model, p: Pending, other: Option<Window>, asked: bool)
    requires
        m.pending == Some(p),
    ensures
        refusal(m, p.id, Some(p.window), true) is None,
        after_confirm(m, p.id, Some(p.window), true) == (Model { last: m.last, pending: None }),
        refusal(m, p.id, Some(p.window), false) == Some(Error::ConfirmationNeeded),
        after_confirm(m, p.id, Some(p.window), false) == m,
        other != Some(p.window) ==> refusal(m, p.id, other, asked) == Some(Error::ChangedWindow)
            && after_confirm(m, p.id, other, asked) == (Model { last: m.last, pending: None }),
{
}

/// A confirmation of another review, or of none, is stale and changes nothing.
pub proof fn stale_confirmations_change_nothing(
    m: Model,
    id: int,
    window: Option<Window>,
    confirmed: bool,
)
    requires
        m.pending is None || m.pending->0.id != id,
    ensures
        refusal(m, id, window, confirmed) == Some(Error::Stale),
        after_confirm(m, id, window, confirmed) == m,
{
}

/// What is selected is the destination that came to the front last, unless something else but
/// the review window came since.
pub proof fn selection_follows_the_front(before: Option<Window>, window: Window)
    ensures
        selected(before, Foreground::Destination(window)) == Some(window),
        selected(selected(before, Foreground::Destination(window)), Foreground::ReviewUi) == Some(
            window,
        ),
        selected(before, Foreground::Other) is None,
{
}

/// What was put under review is what its confirmation releases, whole, for the window that it
/// was reviewed for; a text that cannot be reviewed leaves the review as it was.
pub proof fn reviewed_texts_are_released_whole(
    m: Model,
    text: Seq<char>,
    window: Window,
    elsewhere: Option<Window>,
    confirmed: bool,
)
    ensures
        single_line(text) ==> {
            let after = after_prepare(m, text, Some(window));
            &&& after.last == m.last + 1
            &&& released(after, m.last + 1, Some(window), true) == Some(text)
            &&& released(after, m.last + 1, Some(window), false) is None
            &&& elsewhere != Some(window) ==> released(
                after,
                m.last + 1,
                elsewhere,
                confirmed,
            ) is None
        },
        !single_line(text) ==> after_prepare(m, text, Some(window)) == m,
        after_prepare(m, text, None) == m,
{
}

} // verus!
