//! Commit final utterances in arrival order, replacing revisions by ID.
use crate::text::{
    blank, found, found_patterns_are_there, is_blank, patterns_are_found_anywhere, same, trim,
    trimmed, trimming_keeps_the_middle, white,
};
use vstd::prelude::*;

verus! {

/// One utterance as it is known so far.
pub struct Utterance {
    pub id: Seq<char>,
    pub revision: u32,
    pub text: Seq<char>,
    pub finalized: bool,
}

/// Position of the first utterance called `id`, or the number of utterances.
pub open spec fn position(entries: Seq<Utterance>, id: Seq<char>) -> int
    decreases entries.len(),
{
    if entries.len() == 0 || entries[0].id == id {
        0
    } else {
        1 + position(entries.drop_first(), id)
    }
}

/// News of an utterance replaces what is known when it is a later revision, or the same
/// revision made final.
pub open spec fn supersedes(known: Utterance, news: Utterance) -> bool {
    news.revision > known.revision || (news.revision == known.revision && news.finalized
        && !known.finalized)
}

/// What is known after some news.
pub open spec fn accepted(entries: Seq<Utterance>, news: Utterance) -> Seq<Utterance> {
    let at = position(entries, news.id);
    if at >= entries.len() {
        entries.push(news)
    } else if supersedes(entries[at], news) {
        entries.update(at, news)
    } else {
        entries
    }
}

/// The utterance is final and says something.
pub open spec fn committed(entry: Utterance) -> bool {
    entry.finalized && !blank(entry.text)
}

/// The trimmed texts of the committed utterances, in order.
pub open spec fn parts(entries: Seq<Utterance>) -> Seq<Seq<char>>
    decreases entries.len(),
{
    if entries.len() == 0 {
        Seq::empty()
    } else if committed(entries.last()) {
        parts(entries.drop_last()).push(trimmed(entries.last().text))
    } else {
        parts(entries.drop_last())
    }
}

/// Texts set one after the other with one space in between.
pub open spec fn joined(texts: Seq<Seq<char>>) -> Seq<char>
    decreases texts.len(),
{
    if texts.len() == 0 {
        Seq::empty()
    } else if texts.len() == 1 {
        texts[0]
    } else {
        joined(texts.drop_last()).push(' ') + texts.last()
    }
}

/// No two utterances share an ID.
pub open spec fn distinct_ids(entries: Seq<Utterance>) -> bool {
    forall|i: int, j: int|
        0 <= i < j < entries.len() ==> (#[trigger] entries[i]).id != (#[trigger] entries[j]).id
}

struct Entry {
    id: String,
    revision: u32,
    text: String,
    finalized: bool,
}

impl Entry {
    spec fn utterance(self) -> Utterance {
        Utterance {
            id: self.id@,
            revision: self.revision,
            text: self.text@,
            finalized: self.finalized,
        }
    }
}

/// The utterances of one dictation.
pub struct Transcript {
    entries: Vec<Entry>,
}

impl View for Transcript {
    type V = Seq<Utterance>;

    closed spec fn view(&self) -> Seq<Utterance> {
        self.entries@.map_values(|e: Entry| e.utterance())
    }
}

impl Default for Transcript {
    fn default() -> (r: Transcript)
        ensures
            r@ == Seq::<Utterance>::empty(),
    {
        let r = Transcript { entries: Vec::new() };
        assert(r@ =~= Seq::<Utterance>::empty());
        r
    }
}

impl Transcript {
    /// Takes news of the utterance `id`.
    pub fn accept(&mut self, id: &str, revision: u32, text: &str, finalized: bool)
        ensures
            final(self)@ == accepted(
                old(self)@,
                (Utterance { id: id@, revision, text: text@, finalized }),
            ),
    {
        let ghost before = self@;
        let ghost news = Utterance { id: id@, revision, text: text@, finalized };
        let mut at: usize = 0;
        while at < self.entries.len() && !same(self.entries[at].id.as_str(), id)
            invariant
                self@ == before,
                at <= self.entries.len(),
                forall|j: int| 0 <= j < at ==> (#[trigger] before[j]).id != id@,
            decreases self.entries.len() - at,
        {
            assert(before[at as int].id == self.entries@[at as int].id@);
            at += 1;
        }
        proof {
            lemma_position(before, id@, at as int);
        }
        if at < self.entries.len() {
            let known = self.entries[at].revision;
            if revision > known || (revision == known && finalized && !self.entries[at].finalized) {
                let entry = Entry { id: id.to_owned(), revision, text: text.to_owned(), finalized };
                self.entries.set(at, entry);
                assert(self@ =~= before.update(at as int, news));
            }
        } else {
            let entry = Entry { id: id.to_owned(), revision, text: text.to_owned(), finalized };
            self.entries.push(entry);
            assert(self@ =~= before.push(news));
        }
    }

    /// The final utterances, trimmed and joined by single spaces.
    pub fn text(&self) -> (r: String)
        ensures
            r@ == joined(parts(self@)),
    {
        let mut out = String::new();
        let mut any = false;
        let mut i: usize = 0;
        assert(self@.take(0) =~= Seq::<Utterance>::empty());
        while i < self.entries.len()
            invariant
                i <= self.entries.len(),
                out@ == joined(parts(self@.take(i as int))),
                any == (parts(self@.take(i as int)).len() > 0),
            decreases self.entries.len() - i,
        {
            let ghost done = self@.take(i as int);
            let ghost next = self@.take(i + 1);
            assert(next.drop_last() =~= done);
            assert(next.last() == self.entries@[i as int].utterance());
            let text = self.entries[i].text.as_str();
            if self.entries[i].finalized && !is_blank(text) {
                if any {
                    out.append(" ");
                }
                proof {
                    reveal_strlit(" ");
                    assert(" "@ =~= seq![' ']);
                    let known = parts(done);
                    assert(known.push(trimmed(text@)).drop_last() =~= known);
                    assert(joined(known).push(' ') =~= joined(known) + " "@);
                    if known.len() == 0 {
                        assert(joined(known) + trimmed(text@) =~= trimmed(text@));
                    }
                }
                out.append(trim(text));
                any = true;
            }
            i += 1;
        }
        assert(self@.take(self.entries.len() as int) =~= self@);
        out
    }
}

proof fn lemma_position(entries: Seq<Utterance>, id: Seq<char>, at: int)
    requires
        0 <= at <= entries.len(),
        forall|j: int| 0 <= j < at ==> (#[trigger] entries[j]).id != id,
        at < entries.len() ==> entries[at].id == id,
    ensures
        position(entries, id) == at,
    decreases entries.len(),
{
    if entries.len() > 0 && at > 0 {
        let rest = entries.drop_first();
        assert(entries[0].id != id);
        assert forall|j: int| 0 <= j < at - 1 implies (#[trigger] rest[j]).id != id by {
            assert(rest[j] == entries[j + 1]);
        }
        lemma_position(rest, id, at - 1);
    }
}

pub(crate) proof fn lemma_position_is_first(entries: Seq<Utterance>, id: Seq<char>)
    ensures
        0 <= position(entries, id) <= entries.len(),
        forall|j: int| 0 <= j < position(entries, id) ==> (#[trigger] entries[j]).id != id,
        position(entries, id) < entries.len() ==> entries[position(entries, id)].id == id,
    decreases entries.len(),
{
    if entries.len() > 0 && entries[0].id != id {
        let rest = entries.drop_first();
        lemma_position_is_first(rest, id);
        assert forall|j: int| 0 <= j < position(entries, id) implies (#[trigger] entries[j]).id
            != id by {
            if j > 0 {
                assert(rest[j - 1] == entries[j]);
            }
        }
    }
}

/// News never gives two utterances the same ID.
pub proof fn accept_keeps_ids_distinct(entries: Seq<Utterance>, news: Utterance)
    requires
        distinct_ids(entries),
    ensures
        distinct_ids(accepted(entries, news)),
{
    lemma_position_is_first(entries, news.id);
    let after = accepted(entries, news);
    assert forall|i: int, j: int| 0 <= i < j < after.len() implies (#[trigger] after[i]).id != (
    #[trigger] after[j]).id by {
        if j < entries.len() {
            assert(after[i].id == entries[i].id);
            assert(after[j].id == entries[j].id);
        } else {
            assert(after[i] == entries[i]);
        }
    }
}

/// What is known after all the news so far, starting from nothing.
pub open spec fn heard(news: Seq<Utterance>) -> Seq<Utterance>
    decreases news.len(),
{
    if news.len() == 0 {
        Seq::empty()
    } else {
        accepted(heard(news.drop_last()), news.last())
    }
}

/// Whatever was heard, no utterance is known twice.
pub proof fn heard_ids_are_distinct(news: Seq<Utterance>)
    ensures
        distinct_ids(heard(news)),
    decreases news.len(),
{
    if news.len() > 0 {
        heard_ids_are_distinct(news.drop_last());
        accept_keeps_ids_distinct(heard(news.drop_last()), news.last());
    }
}

/// Utterances keep their place: news changes no ID that is known and adds at most one at
/// the end.
pub proof fn accept_keeps_arrival_order(entries: Seq<Utterance>, news: Utterance)
    ensures
        entries.len() <= accepted(entries, news).len() <= entries.len() + 1,
        forall|i: int|
            0 <= i < entries.len() ==> (#[trigger] accepted(entries, news)[i]).id == entries[i].id,
{
    lemma_position_is_first(entries, news.id);
}

/// Hearing the same news twice is hearing it once.
pub proof fn accept_twice_is_accept_once(entries: Seq<Utterance>, news: Utterance)
    ensures
        accepted(accepted(entries, news), news) == accepted(entries, news),
{
    lemma_position_is_first(entries, news.id);
    let after = accepted(entries, news);
    let at = position(entries, news.id);
    assert forall|j: int| 0 <= j < at implies (#[trigger] after[j]).id != news.id by {
        assert(after[j] == entries[j]);
    }
    lemma_position(after, news.id, at);
}

/// An earlier revision, or the same one again, never replaces a final utterance.
pub proof fn stale_news_is_ignored(entries: Seq<Utterance>, news: Utterance)
    requires
        position(entries, news.id) < entries.len(),
        news.revision < entries[position(entries, news.id)].revision || (news.revision
            == entries[position(entries, news.id)].revision && entries[position(
            entries,
            news.id,
        )].finalized),
    ensures
        accepted(entries, news) == entries,
{
}

/// An utterance that is not final is no part of the text.
pub proof fn interim_is_never_committed(entries: Seq<Utterance>, news: Utterance)
    requires
        !news.finalized,
        position(entries, news.id) >= entries.len(),
    ensures
        joined(parts(accepted(entries, news))) == joined(parts(entries)),
{
    lemma_position_is_first(entries, news.id);
    assert(accepted(entries, news).drop_last() =~= entries);
}

/// The latest finalized utterance available for delivery or recovery.
/// Starting a new recording invalidates the previous utterance immediately,
/// including when that attempt later fails preflight or microphone startup.
#[derive(Debug, PartialEq, Eq)]
pub struct Latest {
    text: String,
}

impl View for Latest {
    type V = Seq<char>;

    closed spec fn view(&self) -> Seq<char> {
        self.text@
    }
}

impl Default for Latest {
    fn default() -> (r: Latest)
        ensures
            r@ == Seq::<char>::empty(),
    {
        Latest { text: String::new() }
    }
}

impl Latest {
    /// Forgets the previous utterance.
    pub fn begin(&mut self)
        ensures
            final(self)@ == Seq::<char>::empty(),
    {
        self.text = String::new();
    }

    /// Keeps `text` as the latest utterance.
    pub fn set(&mut self, text: String)
        ensures
            final(self)@ == text@,
    {
        self.text = text;
    }

    /// There is nothing to deliver.
    pub fn is_empty(&self) -> (r: bool)
        ensures
            r == (self@.len() == 0),
    {
        self.text.as_str().is_empty()
    }

    /// The latest utterance.
    pub fn as_str(&self) -> (r: &str)
        ensures
            r@ == self@,
    {
        self.text.as_str()
    }
}

impl std::ops::Deref for Latest {
    type Target = str;

    fn deref(&self) -> (r: &str)
        ensures
            r@ == self@,
    {
        self.text.as_str()
    }
}

impl From<&str> for Latest {
    fn from(text: &str) -> (r: Latest)
        ensures
            r@ == text@,
    {
        Latest { text: text.to_owned() }
    }
}

impl vstd::std_specs::convert::FromSpecImpl<&str> for Latest {
    open spec fn obeys_from_spec() -> bool {
        false
    }

    open spec fn from_spec(v: &str) -> Latest {
        arbitrary()
    }
}

impl AsRef<str> for Latest {
    fn as_ref(&self) -> (r: &str)
        ensures
            r@ == self@,
    {
        self.text.as_str()
    }
}

/// An utterance that was not heard of before comes behind all others.
pub proof fn new_utterances_come_last(entries: Seq<Utterance>, news: Utterance)
    requires
        forall|i: int| 0 <= i < entries.len() ==> (#[trigger] entries[i]).id != news.id,
    ensures
        accepted(entries, news) == entries.push(news),
{
    lemma_position(entries, news.id, entries.len() as int);
}

/// A later revision takes the place of the one that is known, and so does the final form of
/// the same revision; anything else changes nothing. No other utterance is touched.
pub proof fn revisions_take_the_place_of_what_is_known(
    entries: Seq<Utterance>,
    news: Utterance,
    at: int,
)
    requires
        0 <= at < entries.len(),
        entries[at].id == news.id,
        forall|i: int| 0 <= i < at ==> (#[trigger] entries[i]).id != news.id,
    ensures
        news.revision > entries[at].revision ==> accepted(entries, news) == entries.update(
            at,
            news,
        ),
        news.revision == entries[at].revision && news.finalized && !entries[at].finalized
            ==> accepted(entries, news) == entries.update(at, news),
        news.revision < entries[at].revision ==> accepted(entries, news) == entries,
        news.revision == entries[at].revision && !news.finalized ==> accepted(entries, news)
            == entries,
        news.revision == entries[at].revision && entries[at].finalized ==> accepted(entries, news)
            == entries,
{
    lemma_position(entries, news.id, at);
}

/// The utterance is final and holds a character that is not white space.
pub open spec fn said(entry: Utterance) -> bool {
    entry.finalized && exists|i: int| 0 <= i < entry.text.len() && !white(#[trigger] entry.text[i])
}

proof fn lemma_said(entry: Utterance)
    ensures
        committed(entry) == said(entry),
{
}

proof fn lemma_parts_of_the_said(entries: Seq<Utterance>)
    ensures
        parts(entries).len() > 0 <==> exists|i: int|
            0 <= i < entries.len() && said(#[trigger] entries[i]),
    decreases entries.len(),
{
    if entries.len() > 0 {
        let rest = entries.drop_last();
        let n = entries.len() - 1;
        lemma_parts_of_the_said(rest);
        lemma_said(entries.last());
        if said(entries.last()) {
            assert(said(entries[n]));
        }
        if exists|i: int| 0 <= i < rest.len() && said(#[trigger] rest[i]) {
            let i = choose|i: int| 0 <= i < rest.len() && said(#[trigger] rest[i]);
            assert(said(entries[i]));
        }
        if exists|i: int| 0 <= i < entries.len() && said(#[trigger] entries[i]) {
            let i = choose|i: int| 0 <= i < entries.len() && said(#[trigger] entries[i]);
            if i < n {
                assert(said(rest[i]));
            }
        }
    }
}

/// However many utterances there are, one more that is final and not blank makes the text
/// grow by its trimmed text, with one space before it unless it is the first; one that is
/// interim or blank adds nothing.
pub proof fn each_utterance_adds_its_text(entries: Seq<Utterance>, entry: Utterance)
    ensures
        said(entry) && (exists|i: int| 0 <= i < entries.len() && said(#[trigger] entries[i]))
            ==> joined(parts(entries.push(entry))) == joined(parts(entries)) + seq![' '] + trimmed(
            entry.text,
        ),
        said(entry) && !(exists|i: int| 0 <= i < entries.len() && said(#[trigger] entries[i]))
            ==> joined(parts(entries.push(entry))) == trimmed(entry.text),
        !said(entry) ==> joined(parts(entries.push(entry))) == joined(parts(entries)),
        joined(parts(Seq::<Utterance>::empty())) == Seq::<char>::empty(),
{
    let all = entries.push(entry);
    assert(all.drop_last() =~= entries);
    lemma_said(entry);
    lemma_parts_of_the_said(entries);
    let known = parts(entries);
    if said(entry) {
        let more = known.push(trimmed(entry.text));
        assert(more.drop_last() =~= known);
        if known.len() > 0 {
            assert(joined(more) =~= joined(known) + seq![' '] + trimmed(entry.text));
        }
    }
}

proof fn lemma_text_holds(entries: Seq<Utterance>, at: int)
    requires
        0 <= at < entries.len(),
        said(entries[at]),
    ensures
        found(joined(parts(entries)), trimmed(entries[at].text)),
    decreases entries.len(),
{
    let rest = entries.drop_last();
    let last = entries.last();
    let words = trimmed(entries[at].text);
    assert(rest.push(last) =~= entries);
    each_utterance_adds_its_text(rest, last);
    let nothing = Seq::<char>::empty();
    if at == entries.len() - 1 {
        if exists|i: int| 0 <= i < rest.len() && said(#[trigger] rest[i]) {
            patterns_are_found_anywhere(joined(parts(rest)) + seq![' '], words, nothing);
            assert(joined(parts(rest)) + seq![' '] + words + nothing =~= joined(parts(rest))
                + seq![' '] + words);
        } else {
            patterns_are_found_anywhere(nothing, words, nothing);
            assert(nothing + words + nothing =~= words);
        }
    } else {
        assert(said(rest[at]));
        lemma_text_holds(rest, at);
        if said(last) {
            let sides = found_patterns_are_there(joined(parts(rest)), words);
            let tail = sides.1 + seq![' '] + trimmed(last.text);
            patterns_are_found_anywhere(sides.0, words, tail);
            assert(sides.0 + words + tail =~= joined(parts(rest)) + seq![' '] + trimmed(last.text));
        }
    }
}

/// Whatever was said and is final stands in the text.
pub proof fn nothing_final_is_left_out(entries: Seq<Utterance>, at: int)
    requires
        0 <= at < entries.len(),
        entries[at].finalized,
    ensures
        found(joined(parts(entries)), trimmed(entries[at].text)),
{
    if said(entries[at]) {
        lemma_text_holds(entries, at);
    } else {
        let text = entries[at].text;
        let ends = trimming_keeps_the_middle(text);
        let words = trimmed(text);
        if words.len() > 0 {
            assert(text[ends.0.len() as int] == words[0]);
        }
        let whole = joined(parts(entries));
        patterns_are_found_anywhere(Seq::<char>::empty(), words, whole);
        assert(Seq::<char>::empty() + words + whole =~= whole);
    }
}

} // verus!
