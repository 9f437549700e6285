//! Pure on-screen indicator model: looks, sizes and message classes.
use crate::dictation::Phase;
use crate::text::{
    among, chars_of, contains, find, first_at, found, lemma_found, lemma_has_first,
    lemma_trimmed_end_at, lemma_trimmed_end_range, lemma_trimmed_start_at,
    lemma_trimmed_start_range, occurs_at, same, trim, trim_end_matches, trimmed, trimmed_end,
    trimmed_start, trimming_keeps_the_middle, view_of, white,
};
use vstd::prelude::*;

verus! {

pub const ARMED_DELAY_MS: u64 = 150;

pub const ARMED_MS: u64 = 450;

pub const SUCCESS_MS: u64 = 1000;

pub const NOTICE_MS: u64 = 3500;

pub const NOTICE_CHARS: usize = 48;

pub const NOTICE_HEIGHT: u32 = 22;

pub const NOTICE_PADDING: u32 = 12;

pub const NOTICE_MIN_WIDTH: u32 = 44;

pub const NOTICE_MAX_WIDTH: u32 = 300;

pub const BARS: usize = 7;

pub const DOTS: usize = 3;

#[derive(Clone, Copy, Debug, PartialEq, Eq, Structural)]
pub enum Look {
    Idle,
    Warning,
    Armed,
    Starting,
    Listening,
    Processing,
    Success,
    Notice,
}

/// The width of the notice pill around a text.
pub open spec fn notice_width(text_width: int) -> int {
    let padded = text_width + 2 * NOTICE_PADDING;
    if padded < NOTICE_MIN_WIDTH {
        NOTICE_MIN_WIDTH as int
    } else if padded > NOTICE_MAX_WIDTH {
        NOTICE_MAX_WIDTH as int
    } else {
        padded
    }
}

/// Target width and height in points.
pub open spec fn target_size(look: Look, text_width: int) -> (int, int) {
    match look {
        Look::Idle | Look::Warning => (36, 6),
        Look::Armed | Look::Success => (44, 8),
        Look::Starting | Look::Processing => (50, 20),
        Look::Listening => (64, 22),
        Look::Notice => (notice_width(text_width), NOTICE_HEIGHT as int),
    }
}

impl Look {
    /// Target (width, height) in points; `text_width`, rounded up to whole points, only
    /// sizes the notice pill.
    pub fn size(self, text_width: u32) -> (r: (u32, u32))
        ensures
            (r.0 as int, r.1 as int) == target_size(self, text_width as int),
    {
        match self {
            Look::Idle | Look::Warning => (36, 6),
            Look::Armed | Look::Success => (44, 8),
            Look::Starting | Look::Processing => (50, 20),
            Look::Listening => (64, 22),
            Look::Notice => {
                if text_width >= NOTICE_MAX_WIDTH {
                    return (NOTICE_MAX_WIDTH, NOTICE_HEIGHT);
                }
                let padded: u32 = text_width + 2 * NOTICE_PADDING;
                if padded < NOTICE_MIN_WIDTH {
                    (NOTICE_MIN_WIDTH, NOTICE_HEIGHT)
                } else if padded > NOTICE_MAX_WIDTH {
                    (NOTICE_MAX_WIDTH, NOTICE_HEIGHT)
                } else {
                    (padded, NOTICE_HEIGHT)
                }
            },
        }
    }
}

#[derive(Clone, Copy, Debug, PartialEq, Eq, Structural)]
pub enum Kind {
    Success,
    Cancelled,
    Notice,
}

/// What a status message is about.
pub open spec fn message_kind(message: Seq<char>) -> Kind {
    if message == "Text inserted"@ || message == "Transcript copied"@ {
        Kind::Success
    } else if message == "Cancelled"@ || message == "Cancelled Control shortcut"@ || message
        == "Remote copy cancelled"@ {
        Kind::Cancelled
    } else {
        Kind::Notice
    }
}

/// What a status message is about.
pub fn classify(message: &str) -> (r: Kind)
    ensures
        r == message_kind(message@),
{
    if same(message, "Text inserted") || same(message, "Transcript copied") {
        Kind::Success
    } else if same(message, "Cancelled") || same(message, "Cancelled Control shortcut") || same(
        message,
        "Remote copy cancelled",
    ) {
        Kind::Cancelled
    } else {
        Kind::Notice
    }
}

/// `s` trimmed, without the full stops at its end.
pub open spec fn bare(s: Seq<char>) -> Seq<char> {
    trimmed_end(trimmed(s), among("."@))
}

/// The smaller of two positions, where there is one.
pub open spec fn earlier(a: Option<int>, b: Option<int>) -> Option<int> {
    match (a, b) {
        (Some(i), Some(j)) => if j < i {
            Some(j)
        } else {
            Some(i)
        },
        (Some(i), None) => Some(i),
        (None, _) => b,
    }
}

/// Where the first clause of a message ends.
pub open spec fn clause_end(message: Seq<char>) -> Option<int> {
    earlier(
        earlier(
            earlier(
                earlier(first_at(message, ". "@), first_at(message, "; "@)),
                first_at(message, ": "@),
            ),
            first_at(message, " ("@),
        ),
        first_at(message, " — "@),
    )
}

/// The first clause of a message.
pub open spec fn head(message: Seq<char>) -> Seq<char> {
    match clause_end(message) {
        Some(end) => bare(message.take(end)),
        None => bare(message),
    }
}

/// Where a text is cut to leave room for an ellipsis: before the last space, unless that is
/// the first character or there is none.
pub open spec fn cut_at(s: Seq<char>) -> int
    decreases s.len(),
{
    if s.len() <= 1 {
        0
    } else if s.last() == ' ' {
        s.len() - 1
    } else {
        cut_at(s.drop_last())
    }
}

/// `text` cut to at most `limit` characters, at a word where possible.
pub open spec fn fitted(text: Seq<char>, limit: int) -> Seq<char> {
    if text.len() <= limit {
        text
    } else {
        let room = text.take(limit - 1);
        let cut = if cut_at(room) > 0 {
            room.take(cut_at(room))
        } else {
            room
        };
        trimmed_end(cut, among(" ,:—"@)).push('…')
    }
}

/// The first clause of a message as far as it fits the pill.
pub open spec fn shown_clause(message: Seq<char>) -> Seq<char> {
    fitted(head(message), NOTICE_CHARS as int)
}

/// A hint that the message gives and `clause` does not.
pub open spec fn dropped(message: Seq<char>, clause: Seq<char>, hint: Seq<char>) -> bool {
    found(message, hint) && !found(clause, hint)
}

/// The first hint that the message gives and `clause` does not.
pub open spec fn first_dropped(message: Seq<char>, clause: Seq<char>) -> Option<Seq<char>> {
    if dropped(message, clause, "Copy Last Transcript"@) {
        Some("Copy Last Transcript"@)
    } else if dropped(message, clause, "Restore previous clipboard"@) {
        Some("Restore previous clipboard"@)
    } else {
        None
    }
}

/// The recovery hint that has to be put back behind the first clause: one that the clause
/// lacks, else one that it loses where it is cut to fit.
pub open spec fn recovery_hint(message: Seq<char>) -> Option<Seq<char>> {
    match first_dropped(message, head(message)) {
        Some(hint) => Some(hint),
        None => first_dropped(message, shown_clause(message)),
    }
}

/// The first clause, cut at its first " or " where it is longer than `limit`.
pub open spec fn narrowed(clause: Seq<char>, limit: int) -> Seq<char> {
    match first_at(clause, " or "@) {
        Some(i) => if clause.len() > limit {
            clause.take(i)
        } else {
            clause
        },
        None => clause,
    }
}

/// The text of the notice pill: the whole message when it fits; otherwise its first clause,
/// keeping any recovery hint.
pub open spec fn shortened(message: Seq<char>) -> Seq<char> {
    if bare(message).len() <= NOTICE_CHARS {
        bare(message)
    } else {
        match recovery_hint(message) {
            Some(hint) => {
                let suffix = " · "@ + hint;
                let limit = NOTICE_CHARS - suffix.len();
                fitted(narrowed(head(message), limit), limit) + suffix
            },
            None => shown_clause(message),
        }
    }
}

fn strip<'a>(s: &'a str) -> (r: &'a str)
    ensures
        r@ == bare(s@),
{
    trim_end_matches(trim(s), ".")
}

fn sooner(a: Option<usize>, b: Option<usize>) -> (r: Option<usize>)
    ensures
        position_view(r) == earlier(position_view(a), position_view(b)),
{
    match (a, b) {
        (Some(i), Some(j)) => if j < i {
            Some(j)
        } else {
            Some(i)
        },
        (Some(i), None) => Some(i),
        (None, _) => b,
    }
}

spec fn position_view(a: Option<usize>) -> Option<int> {
    match a {
        Some(i) => Some(i as int),
        None => None,
    }
}

fn first_clause<'a>(message: &'a str) -> (r: &'a str)
    ensures
        r@ == head(message@),
{
    let stop = find(message, ". ");
    let semicolon = find(message, "; ");
    let colon = find(message, ": ");
    let bracket = find(message, " (");
    let dash = find(message, " — ");
    let end = sooner(sooner(sooner(sooner(stop, semicolon), colon), bracket), dash);
    match end {
        Some(end) => strip(message.substring_char(0, end)),
        None => strip(message),
    }
}

fn last_space(v: &Vec<char>) -> (r: usize)
    ensures
        r == cut_at(v@),
        r == 0 || r < v.len(),
{
    let mut n: usize = v.len();
    assert(v@.take(n as int) =~= v@);
    while n > 1
        invariant
            n <= v.len(),
            cut_at(v@.take(n as int)) == cut_at(v@),
        decreases n,
    {
        assert(v@.take(n as int).drop_last() =~= v@.take(n - 1));
        if v[n - 1] == ' ' {
            return n - 1;
        }
        n -= 1;
    }
    0
}

fn fit(text: &str, limit: usize) -> (r: String)
    requires
        limit >= 1,
    ensures
        r@ == fitted(text@, limit as int),
{
    if text.unicode_len() <= limit {
        return text.to_owned();
    }
    let room = text.substring_char(0, limit - 1);
    let chars = chars_of(room);
    let at = last_space(&chars);
    let cut = if at > 0 {
        room.substring_char(0, at)
    } else {
        room
    };
    let kept = trim_end_matches(cut, " ,:—");
    proof {
        reveal_strlit("…");
        assert("…"@ =~= seq!['…']);
        assert(kept@ + "…"@ =~= kept@.push('…'));
    }
    kept.to_owned().concat("…")
}

fn with_hint(clause: &str, hint: &str) -> (r: String)
    requires
        " · "@.len() + hint@.len() < NOTICE_CHARS,
    ensures
        ({
            let suffix = " · "@ + hint@;
            let limit = NOTICE_CHARS - suffix.len();
            r@ == fitted(narrowed(clause@, limit), limit) + suffix
        }),
{
    let suffix = " · ".to_owned().concat(hint);
    let limit: usize = NOTICE_CHARS - suffix.as_str().unicode_len();
    let narrow = match find(clause, " or ") {
        Some(i) => if clause.unicode_len() > limit {
            clause.substring_char(0, i)
        } else {
            clause
        },
        None => clause,
    };
    fit(narrow, limit).concat(suffix.as_str())
}

fn find_dropped(message: &str, clause: &str) -> (r: Option<&'static str>)
    ensures
        view_of(r) == first_dropped(message@, clause@),
{
    if contains(message, "Copy Last Transcript") && !contains(clause, "Copy Last Transcript") {
        Some("Copy Last Transcript")
    } else if contains(message, "Restore previous clipboard") && !contains(
        clause,
        "Restore previous clipboard",
    ) {
        Some("Restore previous clipboard")
    } else {
        None
    }
}

/// Whole message when it fits; otherwise its first clause, keeping any recovery hint.
pub fn shorten(message: &str) -> (r: String)
    ensures
        r@ == shortened(message@),
{
    let whole = strip(message);
    if whole.unicode_len() <= NOTICE_CHARS {
        return whole.to_owned();
    }
    let clause = first_clause(message);
    let shown = fit(clause, NOTICE_CHARS);
    proof {
        reveal_strlit(" · ");
        reveal_strlit("Copy Last Transcript");
        reveal_strlit("Restore previous clipboard");
    }
    let hint = match find_dropped(message, clause) {
        Some(hint) => Some(hint),
        None => find_dropped(message, shown.as_str()),
    };
    match hint {
        Some(hint) => with_hint(clause, hint),
        None => shown,
    }
}

proof fn lemma_fitted_is_short(text: Seq<char>, limit: int)
    requires
        limit >= 1,
    ensures
        fitted(text, limit).len() <= limit,
{
    if text.len() > limit {
        let room = text.take(limit - 1);
        lemma_cut_is_inside(room);
        let cut = if cut_at(room) > 0 {
            room.take(cut_at(room))
        } else {
            room
        };
        let b = lemma_trimmed_end_range(cut, among(" ,:—"@));
    }
}

proof fn lemma_cut_is_inside(s: Seq<char>)
    ensures
        0 <= cut_at(s),
        cut_at(s) == 0 || cut_at(s) < s.len(),
    decreases s.len(),
{
    if s.len() > 1 && s.last() != ' ' {
        lemma_cut_is_inside(s.drop_last());
    }
}

/// A notice always fits the pill.
pub proof fn notices_fit(message: Seq<char>)
    ensures
        shortened(message).len() <= NOTICE_CHARS,
{
    reveal_strlit(" · ");
    reveal_strlit("Copy Last Transcript");
    reveal_strlit("Restore previous clipboard");
    match recovery_hint(message) {
        Some(hint) => {
            let limit = NOTICE_CHARS - (" · "@ + hint).len();
            lemma_fitted_is_short(narrowed(head(message), limit), limit);
        },
        None => {
            lemma_fitted_is_short(head(message), NOTICE_CHARS as int);
        },
    }
}

/// A hint that the first clause would lose is put back: the notice ends with it.
pub proof fn lost_hints_are_put_back(message: Seq<char>)
    requires
        bare(message).len() > NOTICE_CHARS,
        recovery_hint(message) is Some,
    ensures
        found(shortened(message), recovery_hint(message)->0),
{
    let hint = recovery_hint(message)->0;
    let suffix = " · "@ + hint;
    let limit = NOTICE_CHARS - suffix.len();
    let front = fitted(narrowed(head(message), limit), limit);
    let at = front.len() + " · "@.len();
    assert((front + suffix).subrange(at as int, (at + hint.len()) as int) =~= hint);
    lemma_found(shortened(message), hint, at as int);
}

/// The text names a way to recover the transcript or the clipboard.
pub open spec fn hinted(s: Seq<char>) -> bool {
    found(s, "Copy Last Transcript"@) || found(s, "Restore previous clipboard"@)
}

/// A message that names a way to recover names one as a notice too, and names the same one
/// where it names one only.
pub proof fn notices_keep_a_recovery_hint(message: Seq<char>)
    requires
        hinted(message),
    ensures
        hinted(shortened(message)),
        !found(message, "Restore previous clipboard"@) ==> found(
            shortened(message),
            "Copy Last Transcript"@,
        ),
        !found(message, "Copy Last Transcript"@) ==> found(
            shortened(message),
            "Restore previous clipboard"@,
        ),
{
    reveal_strlit("Copy Last Transcript");
    reveal_strlit("Restore previous clipboard");
    if bare(message).len() <= NOTICE_CHARS {
        if found(message, "Copy Last Transcript"@) {
            lemma_bare_keeps(message, "Copy Last Transcript"@);
        }
        if found(message, "Restore previous clipboard"@) {
            lemma_bare_keeps(message, "Restore previous clipboard"@);
        }
    } else if recovery_hint(message) is Some {
        lost_hints_are_put_back(message);
    }
}

proof fn lemma_bare_keeps(message: Seq<char>, hint: Seq<char>)
    requires
        found(message, hint),
        hint.len() > 0,
        !white(hint[0]),
        !white(hint.last()),
        hint.last() != '.',
    ensures
        found(bare(message), hint),
{
    reveal_strlit(".");
    lemma_has_first(message, hint);
    let i = first_at(message, hint)->0;
    let n = hint.len() as int;
    assert(message.subrange(i, i + n)[0] == message[i]);
    assert(message.subrange(i, i + n)[n - 1] == message[i + n - 1]);
    let a = lemma_trimmed_start_range(message);
    let t = trimmed_start(message);
    assert(a <= i);
    let p = |c: char| white(c);
    let b = lemma_trimmed_end_range(t, p);
    let u = trimmed(message);
    assert(t[i + n - 1 - a] == message[i + n - 1]);
    if b <= i + n - 1 - a {
        assert(p(t[i + n - 1 - a]));
    }
    let c = lemma_trimmed_end_range(u, among("."@));
    assert(u[i + n - 1 - a] == message[i + n - 1]);
    if c <= i + n - 1 - a {
        assert(among("."@)(u[i + n - 1 - a]));
        let k = choose|k: int| 0 <= k < "."@.len() && "."@[k] == u[i + n - 1 - a];
        assert(k == 0);
    }
    let v = bare(message);
    assert(v.subrange(i - a, i - a + n) =~= message.subrange(i, i + n));
    lemma_found(v, hint, i - a);
}

/// What the indicator has to show for a while.
pub struct Model {
    pub armed: Option<int>,
    pub flash: Option<(Look, int)>,
}

/// Remembers what the indicator shows, and until when.
#[derive(Debug)]
pub struct Indicator {
    armed: Option<u64>,
    flash: Option<(Look, u64)>,
}

impl View for Indicator {
    type V = Model;

    closed spec fn view(&self) -> Model {
        Model {
            armed: match self.armed {
                Some(at) => Some(at as int),
                None => None,
            },
            flash: match self.flash {
                Some((look, until)) => Some((look, until as int)),
                None => None,
            },
        }
    }
}

impl Default for Indicator {
    fn default() -> (r: Indicator)
        ensures
            r@ == (Model { armed: None, flash: None }),
    {
        Indicator { armed: None, flash: None }
    }
}

/// The flash after a status message at the time `now`.
pub open spec fn flash_after(message: Seq<char>, now: int) -> Option<(Look, int)> {
    match message_kind(message) {
        Kind::Success => Some((Look::Success, now + SUCCESS_MS)),
        Kind::Cancelled => None,
        Kind::Notice => Some((Look::Notice, now + NOTICE_MS)),
    }
}

/// The flash that is still shown at the time `now`.
pub open spec fn flash_at(m: Model, now: int) -> Option<Look> {
    match m.flash {
        Some((look, until)) => if now < until {
            Some(look)
        } else {
            None
        },
        None => None,
    }
}

/// The key was pressed long enough ago for a hint, and not too long ago.
pub open spec fn armed_at(m: Model, now: int) -> bool {
    m.armed matches Some(at) && at + ARMED_DELAY_MS <= now < at + ARMED_MS
}

/// The look at the time `now`. A notice goes before everything, then the dictation, then
/// other flashes, then the hint of a held key.
pub open spec fn look_at(m: Model, now: int, phase: Phase, receiving: bool, warning: bool) -> Look {
    let flash = flash_at(m, now);
    if flash == Some(Look::Notice) {
        Look::Notice
    } else if phase == Phase::Recording {
        if receiving {
            Look::Listening
        } else {
            Look::Starting
        }
    } else if phase == Phase::Processing {
        Look::Processing
    } else if flash is Some {
        flash->0
    } else if armed_at(m, now) {
        Look::Armed
    } else if warning {
        Look::Warning
    } else {
        Look::Idle
    }
}

impl Indicator {
    /// The key went down.
    pub fn arm(&mut self, now: u64)
        ensures
            final(self)@ == (Model { armed: Some(now as int), ..old(self)@ }),
    {
        self.armed = Some(now);
    }

    /// Control was released or became a shortcut before dictation started.
    pub fn disarm(&mut self)
        ensures
            final(self)@ == (Model { armed: None, ..old(self)@ }),
    {
        self.armed = None;
    }

    /// Records a status message; returns the pill text when it needs one.
    pub fn message(&mut self, message: &str, now: u64) -> (r: Option<String>)
        requires
            flash_after(message@, now as int) matches Some((_, until)) ==> until <= u64::MAX,
        ensures
            final(self)@ == (Model { flash: flash_after(message@, now as int), ..old(self)@ }),
            match r {
                Some(text) => message_kind(message@) == Kind::Notice && text@ == shortened(message@),
                None => message_kind(message@) != Kind::Notice,
            },
    {
        match classify(message) {
            Kind::Success => {
                self.flash = Some((Look::Success, now + SUCCESS_MS));
                None
            },
            Kind::Cancelled => {
                self.flash = None;
                None
            },
            Kind::Notice => {
                self.flash = Some((Look::Notice, now + NOTICE_MS));
                Some(shorten(message))
            },
        }
    }

    /// Forgets the flash.
    pub fn clear(&mut self)
        ensures
            final(self)@ == (Model { flash: None, ..old(self)@ }),
    {
        self.flash = None;
    }

    /// The look at the time `now`.
    pub fn look(&self, now: u64, phase: Phase, receiving: bool, warning: bool) -> (r: Look)
        ensures
            r == look_at(self@, now as int, phase, receiving, warning),
    {
        let flash = match self.flash {
            Some((look, until)) => if now < until {
                Some(look)
            } else {
                None
            },
            None => None,
        };
        if let Some(look) = flash {
            if look == Look::Notice {
                return Look::Notice;
            }
        }
        match phase {
            Phase::Recording => {
                return if receiving {
                    Look::Listening
                } else {
                    Look::Starting
                };
            },
            Phase::Processing => {
                return Look::Processing;
            },
            Phase::Idle => {},
        }
        if let Some(look) = flash {
            return look;
        }
        if let Some(at) = self.armed {
            if now >= at && now - at >= ARMED_DELAY_MS && now - at < ARMED_MS {
                return Look::Armed;
            }
        }
        if warning {
            Look::Warning
        } else {
            Look::Idle
        }
    }
}

/// A flash ends by itself: from its end on, an indicator that nothing else concerns looks
/// idle.
pub proof fn flashes_expire(message: Seq<char>, shown: int, now: int)
    requires
        now >= shown + NOTICE_MS,
    ensures
        look_at(
            Model { armed: None, flash: flash_after(message, shown) },
            now,
            Phase::Idle,
            false,
            false,
        ) == Look::Idle,
{
}

/// No flash but a notice hides a dictation.
pub proof fn only_notices_hide_a_dictation(m: Model, now: int, receiving: bool, warning: bool)
    requires
        flash_at(m, now) != Some(Look::Notice),
    ensures
        look_at(m, now, Phase::Recording, receiving, warning) == if receiving {
            Look::Listening
        } else {
            Look::Starting
        },
        look_at(m, now, Phase::Processing, receiving, warning) == Look::Processing,
{
}

/// Every look but the idle ones is larger than the idle pill, and no notice is wider than
/// its limit.
pub proof fn idle_is_smallest(look: Look, text_width: int)
    ensures
        ({
            let idle = target_size(Look::Idle, text_width);
            let size = target_size(look, text_width);
            &&& look == Look::Idle || look == Look::Warning || (size.0 > idle.0 && size.1 > idle.1)
            &&& size.0 <= NOTICE_MAX_WIDTH
        }),
{
}

/// The pill of each look has its size; that of a notice is 24 points wider than its text, from
/// 44 to 300.
pub proof fn looks_have_their_sizes(text_width: int)
    ensures
        target_size(Look::Idle, text_width) == (36int, 6int),
        target_size(Look::Warning, text_width) == (36int, 6int),
        target_size(Look::Armed, text_width) == (44int, 8int),
        target_size(Look::Success, text_width) == (44int, 8int),
        target_size(Look::Starting, text_width) == (50int, 20int),
        target_size(Look::Processing, text_width) == (50int, 20int),
        target_size(Look::Listening, text_width) == (64int, 22int),
        target_size(Look::Notice, text_width).1 == 22,
        20 <= text_width <= 276 ==> target_size(Look::Notice, text_width).0 == text_width + 24,
        text_width <= 20 ==> target_size(Look::Notice, text_width).0 == 44,
        text_width >= 276 ==> target_size(Look::Notice, text_width).0 == 300,
{
}

/// Two messages tell of a success, three of a cancellation, and every other is a notice.
pub proof fn all_other_messages_are_notices(message: Seq<char>)
    ensures
        message_kind(message) == Kind::Success <==> message == "Text inserted"@ || message
            == "Transcript copied"@,
        message_kind(message) == Kind::Notice <==> message != "Text inserted"@ && message
            != "Transcript copied"@ && message != "Cancelled"@ && message
            != "Cancelled Control shortcut"@ && message != "Remote copy cancelled"@,
{
}

/// A bare text is the text without white space at its ends and then without full stops at its
/// end; nothing else is taken off.
pub proof fn bare_texts_keep_the_middle(s: Seq<char>) -> (ends: (Seq<char>, Seq<char>, Seq<char>))
    ensures
        s == ends.0 + bare(s) + ends.1 + ends.2,
        forall|i: int| 0 <= i < ends.0.len() ==> white(#[trigger] ends.0[i]),
        forall|i: int| 0 <= i < ends.1.len() ==> #[trigger] ends.1[i] == '.',
        forall|i: int| 0 <= i < ends.2.len() ==> white(#[trigger] ends.2[i]),
        bare(s).len() > 0 ==> !white(bare(s)[0]) && bare(s).last() != '.',
{
    reveal_strlit(".");
    let outer = trimming_keeps_the_middle(s);
    let t = trimmed(s);
    let b = lemma_trimmed_end_range(t, among("."@));
    let stops = t.skip(b);
    assert forall|i: int| 0 <= i < stops.len() implies #[trigger] stops[i] == '.' by {
        assert(among("."@)(t[b + i]));
        let k = choose|k: int| 0 <= k < "."@.len() && "."@[k] == t[b + i];
        assert(k == 0);
    }
    assert(bare(s) =~= t.take(b));
    assert(s =~= outer.0 + bare(s) + stops + outer.1);
    if b > 0 {
        assert(!among("."@)(t[b - 1]));
        if t[b - 1] == '.' {
            assert("."@[0] == t[b - 1]);
            assert("."@.contains(t[b - 1]));
        }
    }
    (outer.0, stops, outer.1)
}

proof fn lemma_plain_is_bare(s: Seq<char>)
    requires
        s.len() > 0,
        !white(s[0]),
        !white(s.last()),
        s.last() != '.',
    ensures
        bare(s) == s,
{
    reveal_strlit(".");
    let n = s.len() as int;
    lemma_trimmed_start_at(s, 0);
    assert(s.subrange(0, n) =~= s);
    let p = |c: char| white(c);
    assert(!p(s[n - 1]));
    lemma_trimmed_end_at(s, p, n);
    assert(trimmed(s) =~= s);
    if among("."@)(s[n - 1]) {
        let k = choose|k: int| 0 <= k < "."@.len() && "."@[k] == s[n - 1];
        assert(k == 0);
    }
    lemma_trimmed_end_at(s, among("."@), n);
}

/// A message of up to 48 characters without white space or a full stop at its ends is shown as
/// it is.
pub proof fn short_messages_are_shown_whole(message: Seq<char>)
    requires
        0 < message.len() <= 48,
        !white(message[0]),
        !white(message.last()),
        message.last() != '.',
    ensures
        shortened(message) == message,
{
    lemma_plain_is_bare(message);
}

/// Any message that is bare within 48 characters is shown bare.
pub proof fn bare_messages_that_fit_are_shown(message: Seq<char>)
    requires
        bare(message).len() <= 48,
    ensures
        shortened(message) == bare(message),
{
}

/// One of the five marks that end a clause stands at a position.
pub open spec fn clause_mark(message: Seq<char>, at: int) -> bool {
    ||| occurs_at(message, ". "@, at)
    ||| occurs_at(message, "; "@, at)
    ||| occurs_at(message, ": "@, at)
    ||| occurs_at(message, " ("@, at)
    ||| occurs_at(message, " — "@, at)
}

proof fn lemma_first_or_nowhere(s: Seq<char>, pattern: Seq<char>)
    ensures
        first_at(s, pattern) matches Some(i) ==> occurs_at(s, pattern, i) && forall|j: int|
            0 <= j < i ==> !occurs_at(s, pattern, j),
        first_at(s, pattern) is None ==> forall|j: int| !occurs_at(s, pattern, j),
{
    if found(s, pattern) {
        lemma_has_first(s, pattern);
    } else {
        assert forall|j: int| !occurs_at(s, pattern, j) by {
            if occurs_at(s, pattern, j) {
                lemma_found(s, pattern, j);
            }
        }
    }
    if first_at(s, pattern) is Some && !found(s, pattern) {
        reveal(first_at);
    }
}

/// The first clause of a message ends at the first of the marks that end one; a message without
/// any is one clause. What is shown of the clause is bare.
pub proof fn clauses_end_at_the_first_mark(message: Seq<char>)
    ensures
        clause_end(message) matches Some(end) ==> {
            &&& clause_mark(message, end)
            &&& forall|j: int| 0 <= j < end ==> !#[trigger] clause_mark(message, j)
            &&& head(message) == bare(message.take(end))
        },
        clause_end(message) is None ==> {
            &&& forall|j: int| !#[trigger] clause_mark(message, j)
            &&& head(message) == bare(message)
        },
{
    lemma_first_or_nowhere(message, ". "@);
    lemma_first_or_nowhere(message, "; "@);
    lemma_first_or_nowhere(message, ": "@);
    lemma_first_or_nowhere(message, " ("@);
    lemma_first_or_nowhere(message, " — "@);
}

proof fn lemma_cut_is_the_last_space(s: Seq<char>)
    ensures
        0 <= cut_at(s),
        cut_at(s) > 0 ==> cut_at(s) < s.len() && s[cut_at(s)] == ' ',
        forall|j: int| cut_at(s) < j < s.len() && 0 < j ==> #[trigger] s[j] != ' ',
    decreases s.len(),
{
    if s.len() > 1 && s.last() != ' ' {
        let rest = s.drop_last();
        lemma_cut_is_the_last_space(rest);
        assert forall|j: int| cut_at(s) < j < s.len() && 0 < j implies #[trigger] s[j] != ' ' by {
            if j < s.len() - 1 {
                assert(rest[j] == s[j]);
            }
        }
    }
}

/// A text that fits stays as it is. Any other is cut to a beginning of it and an ellipsis,
/// before the last space that leaves room for that, or where the room ends; of the cut
/// beginning only spaces, commas, colons and dashes at its end are taken off.
pub proof fn long_texts_are_cut_at_a_word(text: Seq<char>, limit: int) -> (cut: int)
    requires
        limit >= 1,
    ensures
        text.len() <= limit ==> fitted(text, limit) == text,
        text.len() > limit ==> {
            let shown = fitted(text, limit);
            let kept = shown.len() - 1;
            &&& shown.last() == '…'
            &&& 0 <= kept <= cut <= limit - 1
            &&& shown.drop_last() == text.take(kept)
            &&& forall|j: int|
                kept <= j < cut ==> #[trigger] text[j] == ' ' || text[j] == ',' || text[j] == ':'
                    || text[j] == '—'
            &&& kept > 0 ==> text[kept - 1] != ' ' && text[kept - 1] != ',' && text[kept - 1] != ':'
                && text[kept - 1] != '—'
            &&& cut < limit - 1 ==> text[cut] == ' '
            &&& forall|j: int| cut < j < limit - 1 ==> #[trigger] text[j] != ' '
        },
{
    let room = text.take(limit - 1);
    if text.len() > limit {
        lemma_cut_is_the_last_space(room);
        let at = if cut_at(room) > 0 {
            cut_at(room)
        } else {
            limit - 1
        };
        let part = room.take(at);
        assert(part =~= if cut_at(room) > 0 {
            room.take(cut_at(room))
        } else {
            room
        });
        let b = lemma_trimmed_end_range(part, among(" ,:—"@));
        let shown = fitted(text, limit);
        assert(shown.drop_last() =~= text.take(b));
        reveal_strlit(" ,:—");
        let set = " ,:—"@;
        assert forall|j: int| b <= j < at implies #[trigger] text[j] == ' ' || text[j] == ','
            || text[j] == ':' || text[j] == '—' by {
            assert(among(set)(part[j]));
            let k = choose|k: int| 0 <= k < set.len() && set[k] == part[j];
            assert(k == 0 || k == 1 || k == 2 || k == 3);
        }
        if b > 0 {
            let c = part[b - 1];
            assert(!among(set)(c));
            assert(set[0] == ' ' && set[1] == ',' && set[2] == ':' && set[3] == '—');
            assert(!set.contains(c));
        }
        assert forall|j: int| at < j < limit - 1 implies #[trigger] text[j] != ' ' by {
            assert(room[j] == text[j]);
        }
        at
    } else {
        0
    }
}

/// A long message that names no way to recover is shown as its first clause, whole where that
/// fits.
pub proof fn long_messages_show_their_first_clause(message: Seq<char>)
    requires
        bare(message).len() > 48,
        !found(message, "Copy Last Transcript"@),
        !found(message, "Restore previous clipboard"@),
    ensures
        shortened(message) == fitted(head(message), 48),
        head(message).len() <= 48 ==> shortened(message) == head(message),
{
}

/// A hint that is put back stands behind a centred dot at the end of the notice, behind the
/// whole first clause where both fit.
pub proof fn hints_stand_behind_the_clause(message: Seq<char>)
    requires
        bare(message).len() > 48,
        recovery_hint(message) is Some,
    ensures
        recovery_hint(message)->0 == "Copy Last Transcript"@ || recovery_hint(message)->0
            == "Restore previous clipboard"@,
        found(message, recovery_hint(message)->0),
        ({
            let suffix = " · "@ + recovery_hint(message)->0;
            let limit = 48 - suffix.len();
            &&& limit > 0
            &&& shortened(message).skip(shortened(message).len() - suffix.len()) == suffix
            &&& head(message).len() <= limit ==> shortened(message) == head(message) + suffix
            &&& head(message).len() > limit ==> shortened(message) == fitted(
                match first_at(head(message), " or "@) {
                    Some(i) => head(message).take(i),
                    None => head(message),
                },
                limit,
            ) + suffix
        }),
{
    reveal_strlit(" · ");
    reveal_strlit("Copy Last Transcript");
    reveal_strlit("Restore previous clipboard");
    let suffix = " · "@ + recovery_hint(message)->0;
    let limit = 48 - suffix.len();
    let front = fitted(narrowed(head(message), limit), limit);
    assert((front + suffix).skip(front.len() as int) =~= suffix);
}

/// A success is shown for one second and a notice for three and a half, from the message on;
/// a cancellation shows nothing.
pub proof fn flashes_last_their_time(message: Seq<char>, shown: int, now: int, armed: Option<int>)
    requires
        now >= shown,
    ensures
        ({
            let m = Model { armed, flash: flash_after(message, shown) };
            &&& message_kind(message) == Kind::Success ==> (flash_at(m, now) == if now < shown
                + 1_000 {
                Some(Look::Success)
            } else {
                None::<Look>
            })
            &&& message_kind(message) == Kind::Notice ==> (flash_at(m, now) == if now < shown
                + 3_500 {
                Some(Look::Notice)
            } else {
                None::<Look>
            })
            &&& message_kind(message) == Kind::Cancelled ==> flash_at(m, now) is None
        }),
{
}

/// A held key is hinted at from 150 to 450 ms after it went down.
pub proof fn the_hint_has_its_time(m: Model, at: int, now: int)
    requires
        m.armed == Some(at),
    ensures
        armed_at(m, now) <==> at + 150 <= now && now < at + 450,
{
}

/// What the indicator shows at rest: a flash, else the hint of a held key, else the warning. A
/// notice is shown whatever goes on.
pub proof fn the_look_follows_what_goes_on(
    m: Model,
    now: int,
    phase: Phase,
    receiving: bool,
    warning: bool,
)
    ensures
        flash_at(m, now) == Some(Look::Notice) ==> look_at(m, now, phase, receiving, warning)
            == Look::Notice,
        flash_at(m, now) is Some ==> look_at(m, now, Phase::Idle, receiving, warning) == flash_at(
            m,
            now,
        )->0,
        flash_at(m, now) is None ==> look_at(m, now, Phase::Idle, receiving, warning) == if armed_at(
            m,
            now,
        ) {
            Look::Armed
        } else if warning {
            Look::Warning
        } else {
            Look::Idle
        },
        m.armed is None ==> !armed_at(m, now),
{
}

} // verus!
