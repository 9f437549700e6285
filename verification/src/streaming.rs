//! The conversation with the provider. Text is committed when the provider says that the
//! stream is complete, not when some time has passed.
use crate::json::{is_word, json_bool, json_member, json_string, json_value, Json};
use crate::resample::{bytes_give_the_samples_back, sample_bytes, Downmixer};
use crate::text::{found, owned_view, same, trimmed};
use crate::transcript::{
    accepted, heard, joined, lemma_position_is_first, new_utterances_come_last,
    nothing_final_is_left_out, parts, Transcript, Utterance,
};
use vstd::prelude::*;

verus! {

/// How often a silent connection is kept open.
pub const KEEPALIVE_MS: u64 = 4_000;

/// Why a conversation ends without a transcript.
#[derive(Clone, Copy, Debug, PartialEq, Eq, Structural)]
pub enum Failure {
    Unencrypted,
    BadConfiguration,
    BadKey,
    ConnectTimedOut,
    CannotConnect,
    AudioLost,
    CannotFinalize,
    InvalidResponse,
    Rejected,
    InvalidTranscript,
    Disconnected,
    EndedEarly,
    TimedOut,
}

impl Failure {
    /// What the user reads.
    pub open spec fn words(self) -> Seq<char> {
        match self {
            Failure::Unencrypted => "Unencrypted remote provider rejected"@,
            Failure::BadConfiguration => "Invalid provider configuration"@,
            Failure::BadKey => "Invalid API key format"@,
            Failure::ConnectTimedOut => "Provider connection timed out"@,
            Failure::CannotConnect => "Cannot connect to Deepgram; check key and network"@,
            Failure::AudioLost => "Audio connection lost"@,
            Failure::CannotFinalize => "Cannot finalize transcription"@,
            Failure::InvalidResponse => "Invalid provider response"@,
            Failure::Rejected => "Provider rejected transcription"@,
            Failure::InvalidTranscript => "Invalid transcript response"@,
            Failure::Disconnected => "Provider disconnected"@,
            Failure::EndedEarly => "Provider disconnected before finalization; no text inserted"@,
            Failure::TimedOut => "Finalization timed out; no text inserted"@,
        }
    }

    /// What the user reads.
    pub fn message(self) -> (r: &'static str)
        ensures
            r@ == self.words(),
    {
        match self {
            Failure::Unencrypted => "Unencrypted remote provider rejected",
            Failure::BadConfiguration => "Invalid provider configuration",
            Failure::BadKey => "Invalid API key format",
            Failure::ConnectTimedOut => "Provider connection timed out",
            Failure::CannotConnect => "Cannot connect to Deepgram; check key and network",
            Failure::AudioLost => "Audio connection lost",
            Failure::CannotFinalize => "Cannot finalize transcription",
            Failure::InvalidResponse => "Invalid provider response",
            Failure::Rejected => "Provider rejected transcription",
            Failure::InvalidTranscript => "Invalid transcript response",
            Failure::Disconnected => "Provider disconnected",
            Failure::EndedEarly => "Provider disconnected before finalization; no text inserted",
            Failure::TimedOut => "Finalization timed out; no text inserted",
        }
    }
}

/// Audio may be sent to this host.
pub open spec fn permitted(secure: bool, host: Seq<char>) -> bool {
    secure || host == "127.0.0.1"@
}

/// Audio leaves this machine encrypted only.
pub fn permit(secure: bool, host: &str) -> (r: Result<(), Failure>)
    ensures
        r == if secure || host@ == "127.0.0.1"@ {
            Ok::<(), Failure>(())
        } else {
            Err(Failure::Unencrypted)
        },
        r is Ok <==> permitted(secure, host@),
{
    if !secure && !same(host, "127.0.0.1") {
        return Err(Failure::Unencrypted);
    }
    Ok(())
}

/// The header by which the provider knows the user with this key.
pub open spec fn token(key: Seq<char>) -> Seq<char> {
    "Token "@ + key
}

/// The header by which the provider knows the user.
pub fn authorization(key: &str) -> (r: String)
    ensures
        r@ == "Token "@ + key@,
        r@ == token(key@),
{
    "Token ".to_owned().concat(key)
}

/// What the conversation needs to know of the kind of a message.
#[derive(Clone, Copy, Debug, PartialEq, Eq, Structural)]
pub enum Kind {
    Error,
    /// The stream is complete.
    Metadata,
    Other,
}

/// What the conversation needs to know of a message.
#[derive(Clone, Copy, Debug, PartialEq, Eq, Structural)]
pub struct Wire {
    pub kind: Kind,
    pub is_final: bool,
}

/// The kind that a message names.
pub open spec fn kind_named(name: Option<Seq<char>>) -> Kind {
    if name == Some("Error"@) {
        Kind::Error
    } else if name == Some("Metadata"@) {
        Kind::Metadata
    } else {
        Kind::Other
    }
}

/// The kind of a message, by its name.
pub fn kind_of(name: &Option<String>) -> (r: Kind)
    ensures
        r == kind_named(owned_view(*name)),
{
    proof {
        reveal_strlit("Error");
        reveal_strlit("Metadata");
    }
    match name {
        Some(name) => if same(name.as_str(), "Error") {
            Kind::Error
        } else if same(name.as_str(), "Metadata") {
            Kind::Metadata
        } else {
            Kind::Other
        },
        None => Kind::Other,
    }
}

/// What a JSON value says as a message.
pub open spec fn wire_in(value: Seq<char>) -> Wire {
    let kind = json_member(value, "type"@);
    let last = json_member(value, "is_final"@);
    Wire {
        kind: kind_named(
            if kind is Some {
                json_string(kind->0)
            } else {
                None
            },
        ),
        is_final: last is Some && json_bool(last->0) == Some(true),
    }
}

impl Wire {
    /// What a message says.
    pub fn read(raw: &str) -> (r: Result<Wire, Failure>)
        ensures
            r == match json_value(raw@) {
                Some(value) => Ok::<Wire, Failure>(wire_in(value)),
                None => Err(Failure::InvalidResponse),
            },
    {
        let value = match Json::parse(raw) {
            Some(value) => value,
            None => {
                return Err(Failure::InvalidResponse);
            },
        };
        let name = match value.member("type") {
            Some(kind) => kind.as_string(),
            None => None,
        };
        let is_final = match value.member("is_final") {
            Some(last) => match last.as_bool() {
                Some(b) => b,
                None => false,
            },
            None => false,
        };
        Ok(Wire { kind: kind_of(&name), is_final })
    }
}

/// News of an utterance.
#[derive(Debug)]
pub struct Segment {
    pub id: String,
    pub revision: u32,
    pub text: String,
    pub is_final: bool,
}

impl View for Segment {
    type V = Utterance;

    open spec fn view(&self) -> Utterance {
        Utterance {
            id: self.id@,
            revision: self.revision,
            text: self.text@,
            finalized: self.is_final,
        }
    }
}

/// The news, where there are some.
pub open spec fn news(segment: Option<Segment>) -> Option<Utterance> {
    match segment {
        Some(s) => Some(s@),
        None => None,
    }
}

/// What is known after news that may be absent.
pub open spec fn learned(entries: Seq<Utterance>, news: Option<Utterance>) -> Seq<Utterance> {
    match news {
        Some(u) => accepted(entries, u),
        None => entries,
    }
}

/// The state of a conversation.
pub ghost struct Talk {
    pub entries: Seq<Utterance>,
    /// All audio was sent, and the provider has until then to finish.
    pub due: Option<u64>,
}

/// What happens besides the provider's messages.
#[derive(Debug)]
pub enum Event {
    Audio(Vec<i16>),
    /// No more audio will come.
    AudioEnd,
    Ping,
    /// The connection is closed or broken.
    Closed,
    /// A message of a kind that is not used.
    Unused,
    Keepalive,
    /// The time is so late.
    Clock(u64),
}

/// What the conversation does next.
#[derive(Debug)]
pub enum Action {
    SendAudio(Vec<u8>),
    /// Say that no more audio will come.
    SendClose,
    SendPong,
    SendKeepalive,
    Fail(Failure),
    Nothing,
}

pub ghost enum ActionModel {
    SendAudio(Seq<u8>),
    SendClose,
    SendPong,
    SendKeepalive,
    Fail(Failure),
    Nothing,
}

impl View for Action {
    type V = ActionModel;

    open spec fn view(&self) -> ActionModel {
        match *self {
            Action::SendAudio(bytes) => ActionModel::SendAudio(bytes@),
            Action::SendClose => ActionModel::SendClose,
            Action::SendPong => ActionModel::SendPong,
            Action::SendKeepalive => ActionModel::SendKeepalive,
            Action::Fail(failure) => ActionModel::Fail(failure),
            Action::Nothing => ActionModel::Nothing,
        }
    }
}

/// What an event asks for.
pub open spec fn reaction(talk: Talk, event: Event) -> ActionModel {
    match event {
        Event::Audio(samples) => if talk.due is None {
            ActionModel::SendAudio(sample_bytes(samples@))
        } else {
            ActionModel::Nothing
        },
        Event::AudioEnd => if talk.due is None {
            ActionModel::SendClose
        } else {
            ActionModel::Nothing
        },
        Event::Ping => ActionModel::SendPong,
        Event::Closed => ActionModel::Fail(Failure::EndedEarly),
        Event::Unused => ActionModel::Nothing,
        Event::Keepalive => ActionModel::SendKeepalive,
        Event::Clock(now) => if talk.due matches Some(due) && now >= due {
            ActionModel::Fail(Failure::TimedOut)
        } else {
            ActionModel::Nothing
        },
    }
}

/// What it means that something could not be sent.
pub open spec fn unsent(action: ActionModel) -> Failure {
    match action {
        ActionModel::SendAudio(_) => Failure::AudioLost,
        ActionModel::SendClose => Failure::CannotFinalize,
        _ => Failure::Disconnected,
    }
}

/// The state when something was sent, or was not.
pub open spec fn after_sent(
    talk: Talk,
    action: ActionModel,
    delivered: bool,
    now: u64,
    patience: u64,
) -> Talk {
    if delivered && action == ActionModel::SendClose {
        Talk { due: Some((now + patience) as u64), ..talk }
    } else {
        talk
    }
}

/// The provider says that it has finished, and was asked to.
pub open spec fn completes(talk: Talk, wire: Wire) -> bool {
    wire.kind == Kind::Metadata && talk.due is Some
}

/// The message may hold news of an utterance.
pub open spec fn tells(wire: Wire) -> bool {
    wire.kind != Kind::Error && wire.is_final
}

/// What is known after a message: `pushed` is the news in it, `last` what was held back.
pub open spec fn entries_after(
    talk: Talk,
    wire: Wire,
    pushed: Result<Option<Utterance>, ()>,
    last: Option<Utterance>,
) -> Seq<Utterance> {
    if wire.kind == Kind::Error || (wire.is_final && pushed is Err) {
        talk.entries
    } else {
        let known = if wire.is_final {
            learned(talk.entries, pushed->Ok_0)
        } else {
            talk.entries
        };
        if completes(talk, wire) {
            learned(known, last)
        } else {
            known
        }
    }
}

/// The end of the conversation that a message brings, if it does.
pub open spec fn end_of(
    talk: Talk,
    wire: Wire,
    pushed: Result<Option<Utterance>, ()>,
    last: Option<Utterance>,
) -> Option<Result<Seq<char>, Failure>> {
    if wire.kind == Kind::Error {
        Some(Err(Failure::Rejected))
    } else if wire.is_final && pushed is Err {
        Some(Err(Failure::InvalidTranscript))
    } else if completes(talk, wire) {
        Some(Ok(joined(parts(entries_after(talk, wire, pushed, last)))))
    } else {
        None
    }
}

/// What normalizing a message gave.
pub open spec fn pushed_news(pushed: Result<Option<Segment>, ()>) -> Result<
    Option<Utterance>,
    (),
> {
    match pushed {
        Ok(segment) => Ok(news(segment)),
        Err(e) => Err(e),
    }
}

/// What an end says.
pub open spec fn end_view(end: Option<Result<String, Failure>>) -> Option<
    Result<Seq<char>, Failure>,
> {
    match end {
        Some(Ok(text)) => Some(Ok(text@)),
        Some(Err(failure)) => Some(Err(failure)),
        None => None,
    }
}

/// A conversation with the provider.
pub struct Conversation {
    transcript: Transcript,
    due: Option<u64>,
}

impl View for Conversation {
    type V = Talk;

    closed spec fn view(&self) -> Talk {
        Talk { entries: self.transcript@, due: self.due }
    }
}

impl Conversation {
    pub fn new() -> (r: Conversation)
        ensures
            r@ == (Talk { entries: Seq::<Utterance>::empty(), due: None }),
    {
        Conversation { transcript: Transcript::default(), due: None }
    }

    /// The conversation waits for audio.
    pub fn listens(&self) -> (r: bool)
        ensures
            r == (self@.due is None),
    {
        self.due.is_none()
    }

    /// What an event asks for.
    pub fn react(&self, event: &Event) -> (r: Action)
        ensures
            r@ == reaction(self@, *event),
    {
        match event {
            Event::Audio(samples) => if self.due.is_none() {
                Action::SendAudio(Downmixer::to_le_bytes(samples.as_slice()))
            } else {
                Action::Nothing
            },
            Event::AudioEnd => if self.due.is_none() {
                Action::SendClose
            } else {
                Action::Nothing
            },
            Event::Ping => Action::SendPong,
            Event::Closed => Action::Fail(Failure::EndedEarly),
            Event::Unused => Action::Nothing,
            Event::Keepalive => Action::SendKeepalive,
            Event::Clock(now) => match self.due {
                Some(due) => if *now >= due {
                    Action::Fail(Failure::TimedOut)
                } else {
                    Action::Nothing
                },
                None => Action::Nothing,
            },
        }
    }

    /// What was to be sent was sent at `now`, or was not. Once the provider knows that no
    /// more audio will come, it has `patience` to finish.
    pub fn sent(&mut self, action: &Action, delivered: bool, now: u64, patience: u64) -> (r: Result<
        (),
        Failure,
    >)
        requires
            now + patience <= u64::MAX,
        ensures
            !delivered ==> r == Err::<(), Failure>(unsent(action@)) && final(self)@ == old(self)@,
            delivered ==> r is Ok && final(self)@ == if action@ == ActionModel::SendClose {
                Talk { due: Some((now + patience) as u64), ..old(self)@ }
            } else {
                old(self)@
            },
            final(self)@ == after_sent(old(self)@, action@, delivered, now, patience),
    {
        if !delivered {
            return Err(
                match action {
                    Action::SendAudio(_) => Failure::AudioLost,
                    Action::SendClose => Failure::CannotFinalize,
                    _ => Failure::Disconnected,
                },
            );
        }
        if let Action::SendClose = action {
            self.due = Some(now + patience);
        }
        Ok(())
    }

    /// The news in the message are to be had before it is received.
    pub fn wants_news(&self, wire: &Wire) -> (r: bool)
        ensures
            r == tells(*wire),
    {
        wire.kind != Kind::Error && wire.is_final
    }

    /// What was held back is to be had before the message is received.
    pub fn wants_last(&self, wire: &Wire) -> (r: bool)
        ensures
            r == completes(self@, *wire),
    {
        wire.kind == Kind::Metadata && self.due.is_some()
    }

    /// A message arrives. `pushed` is the news in it, or that it is malformed; `last` is what
    /// was held back until the end.
    pub fn receive(
        &mut self,
        wire: &Wire,
        pushed: Result<Option<Segment>, ()>,
        last: Option<Segment>,
    ) -> (r: Option<Result<String, Failure>>)
        ensures
            end_view(r) == end_of(old(self)@, *wire, pushed_news(pushed), news(last)),
            final(self)@ == (Talk {
                entries: entries_after(old(self)@, *wire, pushed_news(pushed), news(last)),
                ..old(self)@
            }),
    {
        if wire.kind == Kind::Error {
            return Some(Err(Failure::Rejected));
        }
        if wire.is_final {
            match pushed {
                Err(_) => {
                    return Some(Err(Failure::InvalidTranscript));
                },
                Ok(Some(s)) => {
                    self.transcript.accept(s.id.as_str(), s.revision, s.text.as_str(), s.is_final);
                },
                Ok(None) => {},
            }
        }
        if self.due.is_some() && wire.kind == Kind::Metadata {
            if let Some(s) = last {
                self.transcript.accept(s.id.as_str(), s.revision, s.text.as_str(), s.is_final);
            }
            return Some(Ok(self.transcript.text()));
        }
        None
    }
}

/// A transcript is given only for the message by which the provider says that it has
/// finished, after it was told that no more audio will come.
pub proof fn text_needs_completion(
    talk: Talk,
    wire: Wire,
    pushed: Result<Option<Utterance>, ()>,
    last: Option<Utterance>,
)
    ensures
        end_of(talk, wire, pushed, last) matches Some(Ok(text)) ==> {
            &&& talk.due is Some
            &&& wire.kind == Kind::Metadata
            &&& text == joined(parts(entries_after(talk, wire, pushed, last)))
        },
{
}

/// A connection that ends first never gives a transcript, whatever was heard.
pub proof fn closed_connections_give_no_text(talk: Talk)
    ensures
        reaction(talk, Event::Closed) == ActionModel::Fail(Failure::EndedEarly),
{
}

/// The provider has its time to finish and no more.
pub proof fn finalization_is_bounded(talk: Talk, due: u64, now: u64)
    requires
        talk.due == Some(due),
    ensures
        reaction(talk, Event::Clock(now)) is Fail <==> now >= due,
{
}

/// Once the provider was told that no more audio will come, none is sent.
pub proof fn no_audio_after_the_end(talk: Talk, event: Event)
    requires
        talk.due is Some,
    ensures
        !(reaction(talk, event) is SendAudio),
        reaction(talk, event) != ActionModel::SendClose,
{
}

/// Nothing that is known is final.
pub open spec fn all_interim(entries: Seq<Utterance>) -> bool {
    forall|i: int| 0 <= i < entries.len() ==> !(#[trigger] entries[i]).finalized
}

proof fn lemma_interim_says_nothing(entries: Seq<Utterance>)
    requires
        all_interim(entries),
    ensures
        parts(entries).len() == 0,
    decreases entries.len(),
{
    if entries.len() > 0 {
        assert(entries.last() == entries[entries.len() - 1]);
        assert(all_interim(entries.drop_last())) by {
            assert forall|i: int| 0 <= i < entries.len() - 1 implies !(
            #[trigger] entries.drop_last()[i]).finalized by {
                assert(entries.drop_last()[i] == entries[i]);
            }
        }
        lemma_interim_says_nothing(entries.drop_last());
    }
}

proof fn lemma_interim_news(entries: Seq<Utterance>, news: Option<Utterance>)
    requires
        all_interim(entries),
        news matches Some(u) ==> !u.finalized,
    ensures
        all_interim(learned(entries, news)),
{
    if let Some(u) = news {
        lemma_position_is_first(entries, u.id);
    }
}

/// A session that heard nothing final completes without inventing text.
pub proof fn interim_only_sessions_give_no_text(
    talk: Talk,
    wire: Wire,
    pushed: Result<Option<Utterance>, ()>,
    last: Option<Utterance>,
)
    requires
        all_interim(talk.entries),
        pushed matches Ok(Some(u)) ==> !u.finalized,
        last matches Some(u) ==> !u.finalized,
    ensures
        all_interim(entries_after(talk, wire, pushed, last)),
        end_of(talk, wire, pushed, last) matches Some(Ok(text)) ==> text == Seq::<char>::empty(),
{
    let known = if wire.is_final && pushed is Ok {
        lemma_interim_news(talk.entries, pushed->Ok_0);
        learned(talk.entries, pushed->Ok_0)
    } else {
        talk.entries
    };
    lemma_interim_news(known, last);
    lemma_interim_says_nothing(entries_after(talk, wire, pushed, last));
}

/// A message that is final adds its news to what is known, whether or not the end of audio
/// was announced; what was held back follows with the message that completes the stream.
pub proof fn final_news_counts_at_any_time(talk: Talk, wire: Wire, u: Utterance, held: Utterance)
    requires
        wire.kind != Kind::Error,
        wire.is_final,
    ensures
        !(wire.kind == Kind::Metadata && talk.due is Some) ==> entries_after(
            talk,
            wire,
            Ok(Some(u)),
            Some(held),
        ) == accepted(talk.entries, u),
        !(wire.kind == Kind::Metadata && talk.due is Some) ==> entries_after(
            talk,
            wire,
            Ok(None),
            Some(held),
        ) == talk.entries,
        entries_after(talk, wire, Ok(Some(u)), None) == accepted(talk.entries, u),
        wire.kind == Kind::Metadata && talk.due is Some ==> entries_after(
            talk,
            wire,
            Ok(Some(u)),
            Some(held),
        ) == accepted(accepted(talk.entries, u), held),
{
}

/// A message that is not final tells nothing by itself, whatever the normalizer would make of
/// it; the one that completes the stream still brings what was held back.
pub proof fn other_messages_tell_nothing(
    talk: Talk,
    wire: Wire,
    pushed: Result<Option<Utterance>, ()>,
    held: Utterance,
)
    requires
        !wire.is_final || wire.kind == Kind::Error || pushed is Err,
    ensures
        wire.kind == Kind::Error || wire.is_final || wire.kind != Kind::Metadata || talk.due is None
            ==> entries_after(talk, wire, pushed, Some(held)) == talk.entries,
        wire.kind == Kind::Metadata && !wire.is_final && talk.due is Some ==> entries_after(
            talk,
            wire,
            pushed,
            Some(held),
        ) == accepted(talk.entries, held),
        entries_after(talk, wire, pushed, None) == talk.entries,
{
}

/// When a conversation ends: at once by an error or a malformed final message, with the text
/// by the message that completes the stream, and by no other message.
pub proof fn messages_end_the_conversation_when_they_must(
    talk: Talk,
    wire: Wire,
    pushed: Result<Option<Utterance>, ()>,
    last: Option<Utterance>,
)
    ensures
        wire.kind == Kind::Error ==> end_of(talk, wire, pushed, last) == Some(
            Err::<Seq<char>, Failure>(Failure::Rejected),
        ),
        wire.kind != Kind::Error && wire.is_final && pushed is Err ==> end_of(
            talk,
            wire,
            pushed,
            last,
        ) == Some(Err::<Seq<char>, Failure>(Failure::InvalidTranscript)),
        wire.kind == Kind::Metadata && talk.due is Some && !(wire.is_final && pushed is Err)
            ==> end_of(talk, wire, pushed, last) matches Some(Ok(_)),
        wire.kind == Kind::Metadata && talk.due is None && !(wire.is_final && pushed is Err)
            ==> end_of(talk, wire, pushed, last) is None,
        wire.kind == Kind::Other && !(wire.is_final && pushed is Err) ==> end_of(
            talk,
            wire,
            pushed,
            last,
        ) is None,
{
}

/// A message that went by without ending the conversation, and whether the end of audio had
/// been announced when it came.
pub ghost struct Past {
    pub wire: Wire,
    pub pushed: Option<Utterance>,
    pub due: Option<u64>,
}

/// The message went by.
pub open spec fn went_by(past: Past) -> bool {
    past.wire.kind == Kind::Other || (past.wire.kind == Kind::Metadata && past.due is None)
}

/// What is known after the messages, from nothing.
pub open spec fn known_after(history: Seq<Past>) -> Seq<Utterance>
    decreases history.len(),
{
    if history.len() == 0 {
        Seq::empty()
    } else {
        let p = history.last();
        entries_after(
            Talk { entries: known_after(history.drop_last()), due: p.due },
            p.wire,
            Ok(p.pushed),
            None,
        )
    }
}

/// The news of all final messages, in order.
pub open spec fn told(history: Seq<Past>) -> Seq<Utterance>
    decreases history.len(),
{
    if history.len() == 0 {
        Seq::empty()
    } else {
        let before = told(history.drop_last());
        match history.last().pushed {
            Some(u) if history.last().wire.is_final => before.push(u),
            _ => before,
        }
    }
}

proof fn lemma_known_is_told(history: Seq<Past>)
    requires
        forall|i: int| 0 <= i < history.len() ==> went_by(#[trigger] history[i]),
    ensures
        known_after(history) == heard(told(history)),
    decreases history.len(),
{
    if history.len() > 0 {
        let before = history.drop_last();
        assert forall|i: int| 0 <= i < before.len() implies went_by(#[trigger] before[i]) by {
            assert(before[i] == history[i]);
        }
        lemma_known_is_told(before);
        assert(went_by(history[history.len() - 1]));
        let p = history.last();
        if p.wire.is_final && p.pushed is Some {
            assert(told(history).drop_last() =~= told(before));
        }
    }
}

/// The text that completes a conversation holds all news of all its final messages, whenever
/// they came, and then what was held back.
pub proof fn completion_gives_all_that_was_told(history: Seq<Past>, due: u64, held: Option<Utterance>)
    requires
        forall|i: int| 0 <= i < history.len() ==> went_by(#[trigger] history[i]),
    ensures
        ({
            let talk = Talk { entries: known_after(history), due: Some(due) };
            let wire = Wire { kind: Kind::Metadata, is_final: false };
            let all = match held {
                Some(u) => told(history).push(u),
                None => told(history),
            };
            end_of(talk, wire, Ok(None), held) == Some(
                Ok::<Seq<char>, Failure>(joined(parts(heard(all)))),
            )
        }),
{
    lemma_known_is_told(history);
    if let Some(u) = held {
        assert(told(history).push(u).drop_last() =~= told(history));
    }
}

/// A final utterance that is known when the stream completes, or is learned with the message
/// that completes it, is part of the text.
pub proof fn final_utterances_reach_the_text(
    talk: Talk,
    wire: Wire,
    pushed: Option<Utterance>,
    last: Option<Utterance>,
    at: int,
)
    requires
        wire.kind == Kind::Metadata,
        talk.due is Some,
        0 <= at < entries_after(talk, wire, Ok(pushed), last).len(),
        entries_after(talk, wire, Ok(pushed), last)[at].finalized,
    ensures
        end_of(talk, wire, Ok(pushed), last) matches Some(Ok(text)) && found(
            text,
            trimmed(entries_after(talk, wire, Ok(pushed), last)[at].text),
        ),
{
    nothing_final_is_left_out(entries_after(talk, wire, Ok(pushed), last), at);
}

/// News of an utterance that was not known, final and heard at any time before the stream is
/// complete, is part of the text that completion gives.
pub proof fn early_final_news_reaches_the_text(
    talk: Talk,
    wire: Wire,
    u: Utterance,
    due: u64,
)
    requires
        wire.kind == Kind::Other,
        wire.is_final,
        u.finalized,
        forall|i: int| 0 <= i < talk.entries.len() ==> (#[trigger] talk.entries[i]).id != u.id,
    ensures
        ({
            let later = Talk { entries: entries_after(talk, wire, Ok(Some(u)), None), due: Some(due) };
            let done = Wire { kind: Kind::Metadata, is_final: false };
            end_of(later, done, Ok(None), None) matches Some(Ok(text)) && found(
                text,
                trimmed(u.text),
            )
        }),
{
    new_utterances_come_last(talk.entries, u);
    let known = talk.entries.push(u);
    nothing_final_is_left_out(known, talk.entries.len() as int);
    assert(entries_after(talk, wire, Ok(Some(u)), None) == known);
}

/// Until the end of audio is announced all audio goes out, sample by sample, low byte first,
/// and its end is announced; what else comes is answered the same way at any time.
pub proof fn audio_goes_out_until_its_end(talk: Talk, event: Event)
    ensures
        talk.due is None && event is Audio ==> {
            let samples = event->Audio_0@;
            reaction(talk, event) matches ActionModel::SendAudio(bytes) && bytes.len() == 2
                * samples.len() && forall|i: int|
                0 <= i < samples.len() ==> (#[trigger] samples[i]) as int == {
                    let both = bytes[2 * i] as int + 256 * bytes[2 * i + 1] as int;
                    if both < 32_768 {
                        both
                    } else {
                        both - 65_536
                    }
                }
        },
        talk.due is None && event is AudioEnd ==> reaction(talk, event) == ActionModel::SendClose,
        event is Ping ==> reaction(talk, event) == ActionModel::SendPong,
        event is Keepalive ==> reaction(talk, event) == ActionModel::SendKeepalive,
        event is Closed ==> reaction(talk, event) == ActionModel::Fail(Failure::EndedEarly),
        event is Unused ==> reaction(talk, event) == ActionModel::Nothing,
        talk.due is None && event is Clock ==> reaction(talk, event) == ActionModel::Nothing,
{
    if talk.due is None && event is Audio {
        bytes_give_the_samples_back(event->Audio_0@);
    }
}

/// While the provider has time left nothing is done about the clock; when it has none left
/// the conversation fails as timed out.
pub proof fn the_clock_ends_the_wait(talk: Talk, due: u64, now: u64)
    requires
        talk.due == Some(due),
    ensures
        now < due ==> reaction(talk, Event::Clock(now)) == ActionModel::Nothing,
        now >= due ==> reaction(talk, Event::Clock(now)) == ActionModel::Fail(Failure::TimedOut),
{
}

/// What could not be sent decides what is said of it.
pub proof fn failures_name_what_was_lost(bytes: Seq<u8>)
    ensures
        unsent(ActionModel::SendAudio(bytes)) == Failure::AudioLost,
        unsent(ActionModel::SendClose) == Failure::CannotFinalize,
        unsent(ActionModel::SendPong) == Failure::Disconnected,
        unsent(ActionModel::SendKeepalive) == Failure::Disconnected,
{
}

/// Only the two names that matter name a kind of their own.
pub proof fn kinds_go_by_their_names(name: Seq<char>)
    ensures
        kind_named(Some(name)) == Kind::Error <==> name == "Error"@,
        kind_named(Some(name)) == Kind::Metadata <==> name == "Metadata"@,
        kind_named(None) == Kind::Other,
{
    reveal_strlit("Error");
    reveal_strlit("Metadata");
    assert("Error"@.len() != "Metadata"@.len());
}

/// A message is final exactly where its member says that, and of the kind that its type names.
pub proof fn messages_say_what_they_are(value: Seq<char>)
    ensures
        wire_in(value).is_final <==> json_member(value, "is_final"@) is Some && is_word(
            json_member(value, "is_final"@)->0,
            "true"@,
        ),
        json_member(value, "type"@) is None ==> wire_in(value).kind == Kind::Other,
        json_member(value, "type"@) is Some ==> (wire_in(value).kind == Kind::Error <==> json_string(
            json_member(value, "type"@)->0,
        ) == Some("Error"@)),
        json_member(value, "type"@) is Some ==> (wire_in(value).kind == Kind::Metadata
            <==> json_string(json_member(value, "type"@)->0) == Some("Metadata"@)),
{
    reveal_strlit("Error");
    reveal_strlit("Metadata");
    assert("Error"@.len() != "Metadata"@.len());
}

/// Audio goes to any host over an encrypted connection, and over another one to this machine
/// only.
pub proof fn audio_leaves_encrypted_only(host: Seq<char>)
    ensures
        permitted(true, host),
        permitted(false, host) <==> host == "127.0.0.1"@,
{
}

/// The header holds the whole key behind its first word: different keys give different headers.
pub proof fn headers_hold_the_whole_key(a: Seq<char>, b: Seq<char>)
    ensures
        token(a).take(6) == "Token "@,
        token(a).skip(6) == a,
        token(a) == token(b) <==> a == b,
{
    reveal_strlit("Token ");
    assert(token(a).take(6) =~= "Token "@);
    assert(token(a).skip(6) =~= a);
    assert(token(b).skip(6) =~= b);
}

/// Once the end of audio was sent the provider has all its patience to finish, from then on;
/// sending anything else, or failing to, changes nothing, and what is known stays known.
pub proof fn the_wait_begins_with_the_end_of_audio(
    talk: Talk,
    action: ActionModel,
    delivered: bool,
    sent: u64,
    patience: u64,
    now: u64,
)
    requires
        sent + patience <= u64::MAX,
    ensures
        ({
            let after = after_sent(talk, ActionModel::SendClose, true, sent, patience);
            &&& after.entries == talk.entries
            &&& after.due is Some
            &&& now < sent + patience ==> reaction(after, Event::Clock(now)) == ActionModel::Nothing
            &&& now >= sent + patience ==> reaction(after, Event::Clock(now)) == ActionModel::Fail(
                Failure::TimedOut,
            )
        }),
        !delivered || action != ActionModel::SendClose ==> after_sent(
            talk,
            action,
            delivered,
            sent,
            patience,
        ) == talk,
{
}

/// News is asked for exactly where it counts, and so is what was held back.
pub proof fn news_is_asked_for_where_it_counts(
    talk: Talk,
    wire: Wire,
    a: Result<Option<Utterance>, ()>,
    b: Result<Option<Utterance>, ()>,
    x: Option<Utterance>,
    y: Option<Utterance>,
)
    ensures
        tells(wire) <==> wire.kind != Kind::Error && wire.is_final,
        completes(talk, wire) <==> wire.kind == Kind::Metadata && talk.due is Some,
        !tells(wire) ==> entries_after(talk, wire, a, x) == entries_after(talk, wire, b, x)
            && end_of(talk, wire, a, x) == end_of(talk, wire, b, x),
        !completes(talk, wire) ==> entries_after(talk, wire, a, x) == entries_after(talk, wire, a, y)
            && end_of(talk, wire, a, x) == end_of(talk, wire, a, y),
{
}

/// What a conversation is told and tells is taken whole: news with all that it says, a text
/// with all its characters, a failure as itself.
pub proof fn news_and_ends_are_taken_whole(s: Segment, text: String, failure: Failure)
    ensures
        news(Some(s)) matches Some(u) && u.id == s.id@ && u.revision == s.revision && u.text
            == s.text@ && u.finalized == s.is_final,
        news(None) is None,
        pushed_news(Ok(Some(s))) == Ok::<Option<Utterance>, ()>(Some(s@)),
        pushed_news(Ok(None)) == Ok::<Option<Utterance>, ()>(None),
        pushed_news(Err(())) is Err,
        end_view(Some(Ok(text))) == Some(Ok::<Seq<char>, Failure>(text@)),
        end_view(Some(Err(failure))) == Some(Err::<Seq<char>, Failure>(failure)),
        end_view(None) is None,
{
}

/// An action is seen with all the bytes that it sends.
pub proof fn actions_are_seen_whole(bytes: Vec<u8>, failure: Failure)
    ensures
        (Action::SendAudio(bytes))@ == ActionModel::SendAudio(bytes@),
        Action::SendClose@ == ActionModel::SendClose,
        (Action::Fail(failure))@ == ActionModel::Fail(failure),
        Action::Nothing@ == ActionModel::Nothing,
{
}

} // verus!
