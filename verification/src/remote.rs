//! Remote paste policy. Session tokens are opaque, ephemeral adapter identities. Times are
//! milliseconds of one clock that never runs backwards.
use crate::insertion::typeable;
use crate::text::{control, has_char, has_control, is_blank, white};
use vstd::prelude::*;

verus! {

#[derive(Clone, Copy, Debug, PartialEq, Eq, Structural)]
pub struct Destination {
    pub session: u64,
    pub connection_generation: u64,
    pub window: u64,
}

#[derive(Clone, Copy, Debug, PartialEq, Eq, Structural)]
pub struct Session {
    pub destination: Destination,
    pub foreground: bool,
    pub connected: bool,
    pub unlocked: bool,
    pub isolated: bool,
    pub clipboard_enabled: bool,
    pub keyboard_enabled: bool,
}

#[derive(Clone, Copy, Debug, PartialEq, Eq, Structural)]
pub enum Profile {
    Mac,
    Linux,
    LinuxTerminal,
}

#[derive(Clone, Copy, Debug, PartialEq, Eq, Structural)]
pub struct Shortcut {
    pub command: bool,
    pub control: bool,
    pub shift: bool,
    pub key: char,
}

impl Profile {
    /// The paste chord of the profile.
    pub open spec fn chord(self) -> Shortcut {
        Shortcut {
            command: self == Profile::Mac,
            control: self != Profile::Mac,
            shift: self == Profile::LinuxTerminal,
            key: 'v',
        }
    }

    /// The paste chord of the profile.
    pub fn shortcut(self) -> (r: Shortcut)
        ensures
            r == self.chord(),
    {
        Shortcut {
            command: self == Profile::Mac,
            control: self != Profile::Mac,
            shift: self == Profile::LinuxTerminal,
            key: 'v',
        }
    }
}

#[derive(Clone, Copy, Debug, PartialEq, Eq, Structural)]
pub enum Failure {
    Disabled,
    Busy,
    InvalidText,
    DestinationChanged,
    Disconnected,
    Locked,
    Ambiguous,
    ClipboardDisabled,
    KeyboardDenied,
    TimedOut,
}

#[derive(Clone, Copy, Debug, PartialEq, Eq, Structural)]
pub enum State {
    Ready,
    Preparing,
    WaitingForClipboard,
    PasteRequested,
    PasteSent,
    Inserted,
    Failed(Failure),
    Cancelled,
}

/// The number of one attempt.
#[derive(Clone, Copy, Debug, PartialEq, Eq, Structural)]
pub struct Attempt(pub u64);

/// A single line that says something: no control characters, no line or paragraph
/// separators.
pub open spec fn single_line(text: Seq<char>) -> bool {
    typeable(text) && !text.contains('\u{2028}') && !text.contains('\u{2029}')
}

/// The text may leave this machine.
pub fn valid_text(text: &str) -> (r: bool)
    ensures
        r == single_line(text@),
{
    !is_blank(text) && !has_control(text) && !has_char(text, '\u{2028}') && !has_char(
        text,
        '\u{2029}',
    )
}

/// What a session lacks for a paste at `destination`.
pub open spec fn obstacle(session: Session, destination: Destination) -> Option<Failure> {
    if session.destination != destination || !session.foreground {
        Some(Failure::DestinationChanged)
    } else if !session.connected {
        Some(Failure::Disconnected)
    } else if !session.unlocked {
        Some(Failure::Locked)
    } else if !session.isolated {
        Some(Failure::Ambiguous)
    } else if !session.clipboard_enabled {
        Some(Failure::ClipboardDisabled)
    } else if !session.keyboard_enabled {
        Some(Failure::KeyboardDenied)
    } else {
        None
    }
}

fn find_obstacle(session: &Session, destination: &Destination) -> (r: Option<Failure>)
    ensures
        r == obstacle(*session, *destination),
{
    if session.destination != *destination || !session.foreground {
        Some(Failure::DestinationChanged)
    } else if !session.connected {
        Some(Failure::Disconnected)
    } else if !session.unlocked {
        Some(Failure::Locked)
    } else if !session.isolated {
        Some(Failure::Ambiguous)
    } else if !session.clipboard_enabled {
        Some(Failure::ClipboardDisabled)
    } else if !session.keyboard_enabled {
        Some(Failure::KeyboardDenied)
    } else {
        None
    }
}

/// The state of the controller. `destination`, `profile` and `since` belong to the attempt
/// numbered `attempt`; `since` is when its current wait began.
pub struct Model {
    pub state: State,
    pub sync_timeout: int,
    pub dispatch_timeout: int,
    pub attempt: int,
    pub destination: Destination,
    pub profile: Profile,
    pub since: int,
}

impl Model {
    /// An attempt is under way.
    pub open spec fn pending(self) -> bool {
        self.state is Preparing || self.state is WaitingForClipboard || self.state is PasteRequested
    }

    /// How long the current wait may take.
    pub open spec fn patience(self) -> int {
        if self.state is PasteRequested {
            self.dispatch_timeout
        } else {
            self.sync_timeout
        }
    }

    /// The current wait has taken too long.
    pub open spec fn overdue(self, now: int) -> bool {
        now - self.since >= self.patience()
    }

    /// What ends the attempt when `session` is seen at the time `now`.
    pub open spec fn trouble(self, session: Session, now: int) -> Option<Failure> {
        if self.overdue(now) {
            Some(Failure::TimedOut)
        } else {
            obstacle(session, self.destination)
        }
    }

    /// The controller in another state.
    pub open spec fn becomes(self, state: State) -> Model {
        Model { state, ..self }
    }

    /// Why an attempt cannot begin.
    pub open spec fn refusal(self, enabled: bool, text: Seq<char>, session: Session) -> Option<
        Failure,
    > {
        if !enabled {
            Some(Failure::Disabled)
        } else if self.pending() {
            Some(Failure::Busy)
        } else if !single_line(text) {
            Some(Failure::InvalidText)
        } else {
            obstacle(session, session.destination)
        }
    }

    /// After an attempt was begun.
    pub open spec fn begun(self, session: Session, profile: Profile, now: int) -> Model {
        Model {
            state: State::Preparing,
            attempt: self.attempt + 1,
            destination: session.destination,
            profile,
            since: now,
            ..self
        }
    }

    /// After the text was shared for the attempt `id`.
    pub open spec fn after_shared(self, id: int, session: Session, now: int) -> Model {
        if !(self.state is Preparing) || id != self.attempt {
            self
        } else {
            match self.trouble(session, now) {
                Some(failure) => self.becomes(State::Failed(failure)),
                None => self.becomes(State::WaitingForClipboard),
            }
        }
    }

    /// After the other side received the text of the attempt `id`.
    pub open spec fn after_received(self, id: int, session: Session, now: int) -> Model {
        if !(self.state is WaitingForClipboard) || id != self.attempt {
            self
        } else {
            match self.trouble(session, now) {
                Some(failure) => self.becomes(State::Failed(failure)),
                None => Model { state: State::PasteRequested, since: now, ..self },
            }
        }
    }

    /// The chord that is asked for when the other side received the text of the attempt `id`.
    pub open spec fn answer(self, id: int, session: Session, now: int) -> Option<Shortcut> {
        if self.state is WaitingForClipboard && self.after_received(
            id,
            session,
            now,
        ).state is PasteRequested {
            Some(self.profile.chord())
        } else {
            None
        }
    }

    /// After the paste chord of the attempt `id` was sent.
    pub open spec fn after_dispatched(self, id: int, verified: bool, now: int) -> Model {
        if !(self.state is PasteRequested) || id != self.attempt {
            self
        } else if self.overdue(now) {
            self.becomes(State::Failed(Failure::TimedOut))
        } else if verified {
            self.becomes(State::Inserted)
        } else {
            self.becomes(State::PasteSent)
        }
    }

    /// After `session` was seen at the time `now`.
    pub open spec fn after_observed(self, session: Session, now: int) -> Model {
        if !self.pending() {
            self
        } else {
            match self.trouble(session, now) {
                Some(failure) => self.becomes(State::Failed(failure)),
                None => self,
            }
        }
    }
}

/// Walks one attempt at a time from consent to the paste chord.
pub struct Controller {
    state: State,
    sync_timeout: u64,
    dispatch_timeout: u64,
    attempt: u64,
    destination: Destination,
    profile: Profile,
    since: u64,
}

impl View for Controller {
    type V = Model;

    closed spec fn view(&self) -> Model {
        Model {
            state: self.state,
            sync_timeout: self.sync_timeout as int,
            dispatch_timeout: self.dispatch_timeout as int,
            attempt: self.attempt as int,
            destination: self.destination,
            profile: self.profile,
            since: self.since as int,
        }
    }
}

impl Controller {
    /// A controller that waits `sync_timeout` for the text to arrive and
    /// `dispatch_timeout` for the paste chord to be sent.
    pub fn new(sync_timeout: u64, dispatch_timeout: u64) -> (r: Controller)
        ensures
            r@.state == State::Ready,
            r@.sync_timeout == sync_timeout,
            r@.dispatch_timeout == dispatch_timeout,
            r@.attempt == 0,
    {
        Controller {
            state: State::Ready,
            sync_timeout,
            dispatch_timeout,
            attempt: 0,
            destination: Destination { session: 0, connection_generation: 0, window: 0 },
            profile: Profile::Mac,
            since: 0,
        }
    }

    /// Where the controller stands.
    pub fn state(&self) -> (r: State)
        ensures
            r == self@.state,
    {
        self.state
    }

    fn overdue(&self, now: u64) -> (r: bool)
        ensures
            r == self@.overdue(now as int),
    {
        let patience: u64 = match self.state {
            State::PasteRequested => self.dispatch_timeout,
            _ => self.sync_timeout,
        };
        if now < self.since {
            false
        } else {
            now - self.since >= patience
        }
    }

    fn trouble(&self, session: &Session, now: u64) -> (r: Option<Failure>)
        ensures
            r == self@.trouble(*session, now as int),
    {
        if self.overdue(now) {
            Some(Failure::TimedOut)
        } else {
            find_obstacle(session, &self.destination)
        }
    }

    /// Begins an attempt to paste `text` into `session`, if the user opted in, nothing else
    /// is under way, the text is a single line and the session can take it.
    pub fn begin(
        &mut self,
        enabled: bool,
        text: &str,
        session: Session,
        profile: Profile,
        now: u64,
    ) -> (r: Result<Attempt, Failure>)
        requires
            old(self)@.refusal(enabled, text@, session) is None ==> old(self)@.attempt < u64::MAX,
        ensures
            match old(self)@.refusal(enabled, text@, session) {
                Some(failure) => {
                    &&& r == Err::<Attempt, Failure>(failure)
                    &&& final(self)@ == old(self)@
                },
                None => {
                    &&& r matches Ok(id) && id.0 == old(self)@.attempt + 1
                    &&& final(self)@ == old(self)@.begun(session, profile, now as int)
                },
            },
    {
        if !enabled {
            return Err(Failure::Disabled);
        }
        match self.state {
            State::Preparing | State::WaitingForClipboard | State::PasteRequested => {
                return Err(Failure::Busy);
            },
            _ => {},
        }
        if !valid_text(text) {
            return Err(Failure::InvalidText);
        }
        if let Some(failure) = find_obstacle(&session, &session.destination) {
            return Err(failure);
        }
        self.state = State::Preparing;
        self.attempt += 1;
        self.destination = session.destination;
        self.profile = profile;
        self.since = now;
        Ok(Attempt(self.attempt))
    }

    /// The text of the attempt `id` was put on the shared clipboard.
    pub fn shared(&mut self, id: Attempt, session: Session, now: u64) -> (r: bool)
        ensures
            final(self)@ == old(self)@.after_shared(id.0 as int, session, now as int),
            r == (old(self)@.state is Preparing && final(self)@.state is WaitingForClipboard),
    {
        if self.state != State::Preparing || id.0 != self.attempt {
            return false;
        }
        match self.trouble(&session, now) {
            Some(failure) => {
                self.state = State::Failed(failure);
                false
            },
            None => {
                self.state = State::WaitingForClipboard;
                true
            },
        }
    }

    /// The other side has the text of the attempt `id`: returns the chord to press there.
    pub fn received(&mut self, id: Attempt, session: Session, now: u64) -> (r: Option<Shortcut>)
        ensures
            final(self)@ == old(self)@.after_received(id.0 as int, session, now as int),
            r == if old(self)@.state is WaitingForClipboard && final(self)@.state is PasteRequested {
                Some(old(self)@.profile.chord())
            } else {
                None
            },
            r == old(self)@.answer(id.0 as int, session, now as int),
    {
        if self.state != State::WaitingForClipboard || id.0 != self.attempt {
            return None;
        }
        match self.trouble(&session, now) {
            Some(failure) => {
                self.state = State::Failed(failure);
                None
            },
            None => {
                self.state = State::PasteRequested;
                self.since = now;
                Some(self.profile.shortcut())
            },
        }
    }

    /// The chord of the attempt `id` was pressed; `verified` when the text was seen to
    /// arrive.
    pub fn dispatched(&mut self, id: Attempt, verified: bool, now: u64) -> (r: bool)
        ensures
            final(self)@ == old(self)@.after_dispatched(id.0 as int, verified, now as int),
            r == ({
                &&& old(self)@.state is PasteRequested
                &&& final(self)@.state is PasteSent || final(self)@.state is Inserted
            }),
    {
        if self.state != State::PasteRequested || id.0 != self.attempt {
            return false;
        }
        if self.overdue(now) {
            self.state = State::Failed(Failure::TimedOut);
            return false;
        }
        self.state = if verified {
            State::Inserted
        } else {
            State::PasteSent
        };
        true
    }

    /// Looks at the session and the clock; what it sees can end an attempt for good.
    pub fn observe(&mut self, session: Session, now: u64)
        ensures
            final(self)@ == old(self)@.after_observed(session, now as int),
    {
        match self.state {
            State::Preparing | State::WaitingForClipboard | State::PasteRequested => {
                if let Some(failure) = self.trouble(&session, now) {
                    self.state = State::Failed(failure);
                }
            },
            _ => {},
        }
    }

    /// Gives up.
    pub fn cancel(&mut self)
        ensures
            final(self)@ == old(self)@.becomes(State::Cancelled),
    {
        self.state = State::Cancelled;
    }
}

/// Everything that can happen to the controller, a refused beginning aside.
pub enum Event {
    Begun { session: Session, profile: Profile, now: int },
    Shared { id: int, session: Session, now: int },
    Received { id: int, session: Session, now: int },
    Dispatched { id: int, verified: bool, now: int },
    Observed { session: Session, now: int },
    Cancelled,
}

/// The controller after an event. A beginning is an event only where it is not refused.
pub open spec fn step(m: Model, event: Event) -> Model {
    match event {
        Event::Begun { session, profile, now } => if m.pending() {
            m
        } else {
            m.begun(session, profile, now)
        },
        Event::Shared { id, session, now } => m.after_shared(id, session, now),
        Event::Received { id, session, now } => m.after_received(id, session, now),
        Event::Dispatched { id, verified, now } => m.after_dispatched(id, verified, now),
        Event::Observed { session, now } => m.after_observed(session, now),
        Event::Cancelled => m.becomes(State::Cancelled),
    }
}

/// The controller after a series of events.
pub open spec fn run(m: Model, events: Seq<Event>) -> Model
    decreases events.len(),
{
    if events.len() == 0 {
        m
    } else {
        step(run(m, events.drop_last()), events.last())
    }
}

/// The event makes the controller ask for the paste chord.
pub open spec fn asks_for_chord(m: Model, event: Event) -> bool {
    event is Received && m.state is WaitingForClipboard && step(m, event).state is PasteRequested
}

/// How often a series of events asks for the chord of the attempt `id`.
pub open spec fn chords(m: Model, events: Seq<Event>, id: int) -> nat
    decreases events.len(),
{
    if events.len() == 0 {
        0
    } else {
        let before = run(m, events.drop_last());
        chords(m, events.drop_last(), id) + if before.attempt == id && asks_for_chord(
            before,
            events.last(),
        ) {
            1nat
        } else {
            0nat
        }
    }
}

/// No attempt asks for its chord twice, whatever happens.
pub proof fn chord_is_asked_for_at_most_once(m: Model, events: Seq<Event>, id: int)
    requires
        !m.pending(),
        m.attempt < id,
    ensures
        chords(m, events, id) <= 1,
{
    lemma_chords(m, events, id);
}

proof fn lemma_chords(m: Model, events: Seq<Event>, id: int)
    requires
        !m.pending(),
        m.attempt < id,
    ensures
        chords(m, events, id) <= 1,
        run(m, events).attempt < id ==> chords(m, events, id) == 0,
        chords(m, events, id) == 1 && run(m, events).attempt == id ==> !(run(m, events).state
            is Preparing || run(m, events).state is WaitingForClipboard),
    decreases events.len(),
{
    if events.len() > 0 {
        lemma_chords(m, events.drop_last(), id);
    }
}

/// Attempts are numbered upwards.
pub proof fn attempt_numbers_never_decrease(m: Model, events: Seq<Event>)
    ensures
        run(m, events).attempt >= m.attempt,
    decreases events.len(),
{
    if events.len() > 0 {
        attempt_numbers_never_decrease(m, events.drop_last());
    }
}

/// A callback of any attempt but the current one changes nothing.
pub proof fn stale_callbacks_change_nothing(m: Model, event: Event)
    requires
        match event {
            Event::Shared { id, .. } => id != m.attempt,
            Event::Received { id, .. } => id != m.attempt,
            Event::Dispatched { id, .. } => id != m.attempt,
            _ => false,
        },
    ensures
        step(m, event) == m,
        !asks_for_chord(m, event),
{
}

/// After a cancellation or a failure nothing but a new beginning goes on: no callback and
/// no later look at the session revives the attempt.
pub proof fn ended_attempts_stay_ended(m: Model, events: Seq<Event>)
    requires
        m.state is Cancelled || m.state is Failed,
        forall|i: int| 0 <= i < events.len() ==> !(#[trigger] events[i] is Begun),
    ensures
        !run(m, events).pending(),
        run(m, events).state == m.state || run(m, events).state == State::Cancelled,
        chords(m, events, m.attempt) == 0,
    decreases events.len(),
{
    if events.len() > 0 {
        let rest = events.drop_last();
        assert forall|i: int| 0 <= i < rest.len() implies !(#[trigger] rest[i] is Begun) by {
            assert(rest[i] == events[i]);
        }
        ended_attempts_stay_ended(m, rest);
        assert(!(events[events.len() - 1] is Begun));
    }
}

/// The chord is asked for only in the session that the attempt began in, while that session
/// can take it and before the text is overdue.
pub proof fn chord_needs_the_destination(m: Model, event: Event)
    requires
        asks_for_chord(m, event),
    ensures
        event matches Event::Received { id, session, now } && {
            &&& id == m.attempt
            &&& session.destination == m.destination
            &&& session.foreground && session.connected && session.unlocked
            &&& session.isolated && session.clipboard_enabled && session.keyboard_enabled
            &&& now - m.since < m.sync_timeout
        },
{
}

/// The time that sharing takes counts against the time that the text has to arrive.
pub proof fn preparation_counts_against_the_deadline(
    m: Model,
    session: Session,
    profile: Profile,
    began: int,
    shared: int,
)
    ensures
        m.begun(session, profile, began).after_shared(m.attempt + 1, session, shared).since
            == began,
{
}

/// No profile presses anything but its paste chord.
pub proof fn chords_never_submit(profile: Profile)
    ensures
        profile.chord().key == 'v',
        profile.chord().command != profile.chord().control,
{
}

/// A text of any length is a single line that holds no control character, no line or paragraph
/// separator, and something besides white space.
pub proof fn plain_texts_are_single_lines(text: Seq<char>)
    ensures
        single_line(text) <==> {
            &&& exists|i: int| 0 <= i < text.len() && !white(#[trigger] text[i])
            &&& forall|i: int|
                0 <= i < text.len() ==> !control(#[trigger] text[i]) && text[i] as int != 0x2028
                    && text[i] as int != 0x2029
        },
{
    if text.contains('\u{2028}') {
        let i = choose|i: int| 0 <= i < text.len() && text[i] == '\u{2028}';
        assert(text[i] as int == 0x2028);
    }
    if text.contains('\u{2029}') {
        let i = choose|i: int| 0 <= i < text.len() && text[i] == '\u{2029}';
        assert(text[i] as int == 0x2029);
    }
}

/// A session has no obstacle exactly where it is the destination, in front, connected,
/// unlocked, isolated, and takes the clipboard and the keyboard; else the first of these that
/// it lacks is named.
pub proof fn obstacles_are_what_a_session_lacks(s: Session, destination: Destination)
    ensures
        obstacle(s, destination) is None <==> s.destination == destination && s.foreground
            && s.connected && s.unlocked && s.isolated && s.clipboard_enabled && s.keyboard_enabled,
        obstacle(s, destination) == Some(Failure::DestinationChanged) <==> s.destination
            != destination || !s.foreground,
        s.destination == destination && s.foreground ==> {
            &&& obstacle(s, destination) == Some(Failure::Disconnected) <==> !s.connected
            &&& s.connected ==> (obstacle(s, destination) == Some(Failure::Locked) <==> !s.unlocked)
            &&& s.connected && s.unlocked ==> (obstacle(s, destination) == Some(Failure::Ambiguous)
                <==> !s.isolated)
            &&& s.connected && s.unlocked && s.isolated ==> (obstacle(s, destination) == Some(
                Failure::ClipboardDisabled,
            ) <==> !s.clipboard_enabled)
        },
        obstacle(s, destination) == Some(Failure::KeyboardDenied) ==> !s.keyboard_enabled,
{
}

/// An attempt begins whenever the user opted in, none is under way, the text is a single line
/// and the session can take it.
pub proof fn attempts_begin_when_they_can(m: Model, enabled: bool, text: Seq<char>, s: Session)
    ensures
        m.refusal(enabled, text, s) is None <==> {
            &&& enabled
            &&& m.state != State::Preparing && m.state != State::WaitingForClipboard && m.state
                != State::PasteRequested
            &&& single_line(text)
            &&& s.foreground && s.connected && s.unlocked && s.isolated && s.clipboard_enabled
                && s.keyboard_enabled
        },
        !enabled <==> m.refusal(enabled, text, s) == Some(Failure::Disabled),
        enabled && m.pending() <==> m.refusal(enabled, text, s) == Some(Failure::Busy),
        enabled && !m.pending() && !single_line(text) <==> m.refusal(enabled, text, s) == Some(
            Failure::InvalidText,
        ),
{
}

/// In a session that can take it throughout, an attempt whose text is shared and received
/// before the time for that is up asks for its chord, and one whose chord is sent before the
/// time for that is up ends as sent, or as inserted where that was seen.
pub proof fn timely_attempts_succeed(
    m: Model,
    s: Session,
    profile: Profile,
    began: int,
    shared: int,
    received: int,
    dispatched: int,
    verified: bool,
)
    requires
        s.foreground,
        s.connected,
        s.unlocked,
        s.isolated,
        s.clipboard_enabled,
        s.keyboard_enabled,
        shared < began + m.sync_timeout,
        received < began + m.sync_timeout,
        dispatched < received + m.dispatch_timeout,
    ensures
        ({
            let id = m.attempt + 1;
            let a = m.begun(s, profile, began);
            let b = a.after_shared(id, s, shared);
            let c = b.after_received(id, s, received);
            let d = c.after_dispatched(id, verified, dispatched);
            &&& a.state == State::Preparing && a.attempt == id && a.profile == profile
                && a.destination == s.destination && a.since == began
            &&& b.state == State::WaitingForClipboard && b.profile == profile
            &&& c.state == State::PasteRequested && c.profile == profile && c.since == received
            &&& d.state == if verified {
                State::Inserted
            } else {
                State::PasteSent
            }
            &&& d.attempt == id
        }),
{
}

/// An attempt that waits longer than it may fails as timed out at whatever happens next, and
/// one that does not goes on as long as its session can take it.
pub proof fn waits_are_bounded(m: Model, s: Session, now: int)
    requires
        m.pending(),
    ensures
        ({
            let limit = if m.state == State::PasteRequested {
                m.dispatch_timeout
            } else {
                m.sync_timeout
            };
            let seen = m.after_observed(s, now);
            &&& now >= m.since + limit ==> seen.state == State::Failed(Failure::TimedOut)
            &&& now < m.since + limit ==> match obstacle(s, m.destination) {
                Some(failure) => seen.state == State::Failed(failure),
                None => seen == m,
            }
            &&& m.state == State::Preparing && now >= m.since + limit ==> m.after_shared(
                m.attempt,
                s,
                now,
            ).state == State::Failed(Failure::TimedOut)
            &&& m.state == State::WaitingForClipboard && now >= m.since + limit
                ==> m.after_received(m.attempt, s, now).state == State::Failed(Failure::TimedOut)
            &&& m.state == State::PasteRequested && now >= m.since + limit ==> m.after_dispatched(
                m.attempt,
                true,
                now,
            ).state == State::Failed(Failure::TimedOut)
        }),
{
}

/// A callback that comes in the wrong state changes nothing, and neither does a look at the
/// session while nothing is under way.
pub proof fn untimely_callbacks_change_nothing(
    m: Model,
    id: int,
    s: Session,
    verified: bool,
    now: int,
)
    ensures
        m.state != State::Preparing ==> m.after_shared(id, s, now) == m,
        m.state != State::WaitingForClipboard ==> m.after_received(id, s, now) == m,
        m.state != State::PasteRequested ==> m.after_dispatched(id, verified, now) == m,
        m.state != State::Preparing && m.state != State::WaitingForClipboard && m.state
            != State::PasteRequested ==> m.after_observed(s, now) == m,
{
}

/// The chord is Command-V on a Mac, Control-V on Linux and Control-Shift-V in a terminal there.
pub proof fn chords_go_by_the_profile()
    ensures
        Profile::Mac.chord() == (Shortcut {
            command: true,
            control: false,
            shift: false,
            key: 'v',
        }),
        Profile::Linux.chord() == (Shortcut {
            command: false,
            control: true,
            shift: false,
            key: 'v',
        }),
        Profile::LinuxTerminal.chord() == (Shortcut {
            command: false,
            control: true,
            shift: true,
            key: 'v',
        }),
{
}

/// A text that was received in time, by a session that can take it, is answered with the chord
/// of the attempt's profile, and in no other case with any.
pub proof fn received_texts_are_answered(m: Model, id: int, s: Session, now: int)
    ensures
        m.answer(id, s, now) is Some <==> {
            &&& m.state == State::WaitingForClipboard
            &&& id == m.attempt
            &&& now < m.since + m.sync_timeout
            &&& s.destination == m.destination && s.foreground && s.connected && s.unlocked
                && s.isolated && s.clipboard_enabled && s.keyboard_enabled
        },
        m.answer(id, s, now) is Some ==> m.answer(id, s, now) == Some(m.profile.chord()),
        asks_for_chord(m, Event::Received { id, session: s, now }) <==> m.answer(id, s, now) is Some,
{
}

} // verus!
