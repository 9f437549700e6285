//! Hold-to-dictate preserves quick taps and typing rollover.
use vstd::prelude::*;

verus! {

/// How long the key is held before dictation begins, in milliseconds.
pub const HOLD_MS: u64 = 350;

#[derive(Clone, Copy, Debug, PartialEq, Eq, Structural)]
pub enum Key {
    Down,
    ModifiedDown,
    Repeat,
    Up,
    Other,
    Escape,
}

#[derive(Clone, Copy, Debug, PartialEq, Eq, Structural)]
pub enum Command {
    Start,
    Finish,
    Cancel,
}

/// What becomes of a key event: whether it is swallowed, whether the held key is typed
/// after all, and what the dictation is told.
#[derive(Clone, Copy, Debug, PartialEq, Eq, Structural)]
pub struct Action {
    pub consume: bool,
    pub replay: bool,
    pub command: Option<Command>,
}

/// The event passes through and nothing happens.
pub open spec fn nothing() -> Action {
    Action { consume: false, replay: false, command: None }
}

impl Default for Action {
    fn default() -> (r: Action)
        ensures
            r == nothing(),
    {
        Action { consume: false, replay: false, command: None }
    }
}

/// The state of the held key.
#[derive(Clone, Copy, Debug, PartialEq, Eq, Structural)]
pub enum State {
    Idle,
    /// Held since the given time, not yet long enough.
    Pending(u64),
    Dictating,
    Cancelled,
    /// The press belongs to a shortcut or to typing.
    PassThrough,
}

/// What reaches the hotkey: a key event or a look at the clock.
pub enum Event {
    Key(Key, u64),
    Tick(u64),
}

/// The state after an event.
pub open spec fn next_state(state: State, event: Event) -> State {
    match event {
        Event::Key(Key::Down, now) => if state is Idle {
            State::Pending(now)
        } else {
            state
        },
        Event::Key(Key::ModifiedDown, _) => State::PassThrough,
        Event::Key(Key::Repeat, _) => state,
        Event::Key(Key::Up, _) => State::Idle,
        Event::Key(Key::Other, _) | Event::Key(Key::Escape, _) => match state {
            State::Pending(_) => State::PassThrough,
            State::Dictating => State::Cancelled,
            _ => state,
        },
        Event::Tick(now) => if held_long_enough(state, now) {
            State::Dictating
        } else {
            state
        },
    }
}

/// The key has been held for the whole delay.
pub open spec fn held_long_enough(state: State, now: u64) -> bool {
    state matches State::Pending(since) && now - since >= HOLD_MS
}

/// What an event leads to.
pub open spec fn action(state: State, event: Event) -> Action {
    match event {
        Event::Key(Key::Down, _) => Action { consume: !(state is PassThrough), ..nothing() },
        Event::Key(Key::ModifiedDown, _) => nothing(),
        Event::Key(Key::Repeat, _) => Action {
            consume: state is Pending || state is Dictating || state is Cancelled,
            ..nothing()
        },
        Event::Key(Key::Up, _) => match state {
            State::Pending(_) => Action { replay: true, ..nothing() },
            State::Dictating | State::Cancelled => Action {
                consume: true,
                replay: false,
                command: Some(Command::Finish),
            },
            _ => nothing(),
        },
        Event::Key(Key::Other, _) => match state {
            State::Pending(_) => Action { replay: true, ..nothing() },
            State::Dictating => Action { command: Some(Command::Cancel), ..nothing() },
            _ => nothing(),
        },
        Event::Key(Key::Escape, _) => match state {
            State::Pending(_) => Action { replay: true, ..nothing() },
            State::Dictating => Action {
                consume: true,
                replay: false,
                command: Some(Command::Cancel),
            },
            _ => Action { command: Some(Command::Cancel), ..nothing() },
        },
        Event::Tick(now) => if held_long_enough(state, now) {
            Action { consume: true, replay: false, command: Some(Command::Start) }
        } else {
            nothing()
        },
    }
}

/// The state after a series of events.
pub open spec fn state_after(state: State, events: Seq<Event>) -> State
    decreases events.len(),
{
    if events.len() == 0 {
        state
    } else {
        next_state(state_after(state, events.drop_last()), events.last())
    }
}

/// How many of a series of events start a dictation.
pub open spec fn starts(state: State, events: Seq<Event>) -> nat
    decreases events.len(),
{
    if events.len() == 0 {
        0
    } else {
        let before = state_after(state, events.drop_last());
        starts(state, events.drop_last()) + if action(before, events.last()).command == Some(
            Command::Start,
        ) {
            1nat
        } else {
            0nat
        }
    }
}

/// The hold-to-dictate key.
#[derive(Debug)]
pub struct HoldSpace {
    state: State,
}

impl View for HoldSpace {
    type V = State;

    closed spec fn view(&self) -> State {
        self.state
    }
}

impl Default for HoldSpace {
    fn default() -> (r: HoldSpace)
        ensures
            r@ == State::Idle,
    {
        HoldSpace { state: State::Idle }
    }
}

impl HoldSpace {
    /// Takes a key event at the time `now`.
    pub fn key(&mut self, key: Key, now: u64) -> (r: Action)
        ensures
            r == action(old(self)@, Event::Key(key, now)),
            final(self)@ == next_state(old(self)@, Event::Key(key, now)),
    {
        match key {
            Key::Down => {
                match self.state {
                    State::Idle => {
                        self.state = State::Pending(now);
                    },
                    _ => {},
                }
                let passes = match self.state {
                    State::PassThrough => true,
                    _ => false,
                };
                Action { consume: !passes, replay: false, command: None }
            },
            Key::ModifiedDown => {
                self.state = State::PassThrough;
                Action::default()
            },
            Key::Repeat => {
                let consume = match self.state {
                    State::Pending(_) | State::Dictating | State::Cancelled => true,
                    _ => false,
                };
                Action { consume, replay: false, command: None }
            },
            Key::Up => {
                let previous = self.state;
                self.state = State::Idle;
                match previous {
                    State::Pending(_) => Action { consume: false, replay: true, command: None },
                    State::Dictating | State::Cancelled => Action {
                        consume: true,
                        replay: false,
                        command: Some(Command::Finish),
                    },
                    _ => Action::default(),
                }
            },
            Key::Other | Key::Escape => {
                let escape = key == Key::Escape;
                match self.state {
                    State::Pending(_) => {
                        self.state = State::PassThrough;
                        Action { consume: false, replay: true, command: None }
                    },
                    State::Dictating => {
                        self.state = State::Cancelled;
                        Action { consume: escape, replay: false, command: Some(Command::Cancel) }
                    },
                    _ => Action {
                        consume: false,
                        replay: false,
                        command: if escape {
                            Some(Command::Cancel)
                        } else {
                            None
                        },
                    },
                }
            },
        }
    }

    /// Looks at the clock; a key held long enough starts the dictation.
    pub fn tick(&mut self, now: u64) -> (r: Action)
        ensures
            r == action(old(self)@, Event::Tick(now)),
            final(self)@ == next_state(old(self)@, Event::Tick(now)),
    {
        match self.state {
            State::Pending(since) => {
                if now >= since && now - since >= HOLD_MS {
                    self.state = State::Dictating;
                    return Action { consume: true, replay: false, command: Some(Command::Start) };
                }
            },
            _ => {},
        }
        Action::default()
    }
}

/// One press starts at most one dictation: no series of events without a release of the
/// key starts two.
pub proof fn one_press_starts_at_most_once(state: State, events: Seq<Event>)
    requires
        forall|i: int|
            0 <= i < events.len() ==> !(#[trigger] events[i] matches Event::Key(Key::Up, _)),
    ensures
        starts(state, events) <= 1,
{
    lemma_starts_once(state, events);
}

proof fn lemma_starts_once(state: State, events: Seq<Event>)
    requires
        forall|i: int|
            0 <= i < events.len() ==> !(#[trigger] events[i] matches Event::Key(Key::Up, _)),
    ensures
        starts(state, events) <= 1,
        starts(state, events) == 1 ==> !(state_after(state, events) is Idle || state_after(
            state,
            events,
        ) is Pending),
    decreases events.len(),
{
    if events.len() > 0 {
        let rest = events.drop_last();
        assert forall|i: int| 0 <= i < rest.len() implies !(#[trigger] rest[i] matches Event::Key(
            Key::Up,
            _,
        )) by {
            assert(rest[i] == events[i]);
        }
        lemma_starts_once(state, rest);
        let last = events[events.len() - 1];
        assert(!(last matches Event::Key(Key::Up, _)));
    }
}

/// A quick tap types the key and records nothing, however often the clock is looked at
/// in between.
pub proof fn quick_tap_is_typed(since: u64, ticks: Seq<Event>, up: u64)
    requires
        forall|i: int|
            0 <= i < ticks.len() ==> (#[trigger] ticks[i] matches Event::Tick(now) && now - since
                < HOLD_MS),
    ensures
        ({
            let pressed = next_state(State::Idle, Event::Key(Key::Down, since));
            let released = state_after(pressed, ticks);
            &&& starts(pressed, ticks) == 0
            &&& action(released, Event::Key(Key::Up, up)) == (Action {
                consume: false,
                replay: true,
                command: None,
            })
            &&& next_state(released, Event::Key(Key::Up, up)) == State::Idle
        }),
    decreases ticks.len(),
{
    lemma_pending_stays(since, ticks);
}

proof fn lemma_pending_stays(since: u64, ticks: Seq<Event>)
    requires
        forall|i: int|
            0 <= i < ticks.len() ==> (#[trigger] ticks[i] matches Event::Tick(now) && now - since
                < HOLD_MS),
    ensures
        starts(State::Pending(since), ticks) == 0,
        state_after(State::Pending(since), ticks) == State::Pending(since),
    decreases ticks.len(),
{
    if ticks.len() > 0 {
        let rest = ticks.drop_last();
        assert forall|i: int| 0 <= i < rest.len() implies (#[trigger] rest[i] matches Event::Tick(
            now,
        ) && now - since < HOLD_MS) by {
            assert(rest[i] == ticks[i]);
        }
        lemma_pending_stays(since, rest);
        let last = ticks[ticks.len() - 1];
        assert(last is Tick);
    }
}

/// A key held for the whole delay starts the dictation, and its release finishes it
/// without typing anything.
pub proof fn hold_starts_and_release_finishes(since: u64, now: u64, up: u64)
    requires
        now - since >= HOLD_MS,
    ensures
        action(State::Pending(since), Event::Tick(now)).command == Some(Command::Start),
        ({
            let held = next_state(State::Pending(since), Event::Tick(now));
            action(held, Event::Key(Key::Up, up)) == (Action {
                consume: true,
                replay: false,
                command: Some(Command::Finish),
            })
        }),
{
}

/// A press that became a shortcut never starts a dictation before it is released.
pub proof fn shortcut_never_starts(events: Seq<Event>)
    requires
        forall|i: int|
            0 <= i < events.len() ==> !(#[trigger] events[i] matches Event::Key(Key::Up, _)),
    ensures
        starts(State::PassThrough, events) == 0,
        state_after(State::PassThrough, events) == State::PassThrough,
    decreases events.len(),
{
    if events.len() > 0 {
        let rest = events.drop_last();
        assert forall|i: int| 0 <= i < rest.len() implies !(#[trigger] rest[i] matches Event::Key(
            Key::Up,
            _,
        )) by {
            assert(rest[i] == events[i]);
        }
        shortcut_never_starts(rest);
        let last = events[events.len() - 1];
        assert(!(last matches Event::Key(Key::Up, _)));
    }
}

/// Any other key cancels a dictation, and what follows until the release starts nothing.
pub proof fn another_key_cancels(key: Key, now: u64, events: Seq<Event>)
    requires
        key == Key::Other || key == Key::Escape,
        forall|i: int|
            0 <= i < events.len() ==> !(#[trigger] events[i] matches Event::Key(Key::Up, _)),
    ensures
        action(State::Dictating, Event::Key(key, now)).command == Some(Command::Cancel),
        starts(next_state(State::Dictating, Event::Key(key, now)), events) == 0,
{
    lemma_cancelled_starts_nothing(events);
}

proof fn lemma_cancelled_starts_nothing(events: Seq<Event>)
    requires
        forall|i: int|
            0 <= i < events.len() ==> !(#[trigger] events[i] matches Event::Key(Key::Up, _)),
    ensures
        starts(State::Cancelled, events) == 0,
        state_after(State::Cancelled, events) is Cancelled || state_after(
            State::Cancelled,
            events,
        ) is PassThrough,
    decreases events.len(),
{
    if events.len() > 0 {
        let rest = events.drop_last();
        assert forall|i: int| 0 <= i < rest.len() implies !(#[trigger] rest[i] matches Event::Key(
            Key::Up,
            _,
        )) by {
            assert(rest[i] == events[i]);
        }
        lemma_cancelled_starts_nothing(rest);
        let last = events[events.len() - 1];
        assert(!(last matches Event::Key(Key::Up, _)));
    }
}

/// Escape cancels in every state but that of a press that is not yet a dictation; there it
/// makes the press an ordinary one.
pub proof fn escape_cancels(state: State, now: u64)
    ensures
        state is Pending ==> next_state(state, Event::Key(Key::Escape, now)) == State::PassThrough,
        !(state is Pending) ==> action(state, Event::Key(Key::Escape, now)).command == Some(
            Command::Cancel,
        ),
{
}

/// A key held for 350 ms starts the dictation at the next look at the clock, whenever that is,
/// and not before.
pub proof fn the_delay_is_350_ms(since: u64, now: u64)
    ensures
        now >= since + 350 ==> action(State::Pending(since), Event::Tick(now)) == (Action {
            consume: true,
            replay: false,
            command: Some(Command::Start),
        }) && next_state(State::Pending(since), Event::Tick(now)) == State::Dictating,
        now < since + 350 ==> action(State::Pending(since), Event::Tick(now)) == (Action {
            consume: false,
            replay: false,
            command: None,
        }) && next_state(State::Pending(since), Event::Tick(now)) == State::Pending(since),
{
}

/// The clock matters only while a press is not yet a dictation.
pub proof fn the_clock_matters_only_to_a_fresh_press(state: State, now: u64)
    requires
        !(state is Pending),
    ensures
        action(state, Event::Tick(now)) == (Action {
            consume: false,
            replay: false,
            command: None,
        }),
        next_state(state, Event::Tick(now)) == state,
{
}

/// A press out of rest is swallowed and waits from its own time on; pressing again changes
/// nothing, and is swallowed unless the press belongs to typing.
pub proof fn presses_wait_from_their_time(state: State, now: u64)
    ensures
        next_state(State::Idle, Event::Key(Key::Down, now)) == State::Pending(now),
        !(state is Idle) ==> next_state(state, Event::Key(Key::Down, now)) == state,
        action(state, Event::Key(Key::Down, now)) == (Action {
            consume: state != State::PassThrough,
            replay: false,
            command: None,
        }),
        next_state(state, Event::Key(Key::Repeat, now)) == state,
        action(state, Event::Key(Key::Repeat, now)) == (Action {
            consume: state != State::PassThrough && state != State::Idle,
            replay: false,
            command: None,
        }),
        next_state(state, Event::Key(Key::ModifiedDown, now)) == State::PassThrough,
        action(state, Event::Key(Key::ModifiedDown, now)) == (Action {
            consume: false,
            replay: false,
            command: None,
        }),
{
}

/// Every release brings the key to rest. It types a press that was no dictation, finishes one
/// that was, and passes otherwise.
pub proof fn releases_end_the_press(state: State, now: u64)
    ensures
        next_state(state, Event::Key(Key::Up, now)) == State::Idle,
        state is Pending ==> action(state, Event::Key(Key::Up, now)) == (Action {
            consume: false,
            replay: true,
            command: None,
        }),
        state == State::Dictating || state == State::Cancelled ==> action(
            state,
            Event::Key(Key::Up, now),
        ) == (Action { consume: true, replay: false, command: Some(Command::Finish) }),
        state == State::Idle || state == State::PassThrough ==> action(
            state,
            Event::Key(Key::Up, now),
        ) == (Action { consume: false, replay: false, command: None }),
{
}

/// Another key types a press that is no dictation yet before itself, cancels a dictation, and
/// always passes; Escape does the same, and is swallowed where it cancels a dictation.
pub proof fn other_keys_break_the_press(state: State, since: u64, now: u64)
    ensures
        action(State::Pending(since), Event::Key(Key::Other, now)) == (Action {
            consume: false,
            replay: true,
            command: None,
        }),
        action(State::Pending(since), Event::Key(Key::Escape, now)) == (Action {
            consume: false,
            replay: true,
            command: None,
        }),
        next_state(State::Pending(since), Event::Key(Key::Other, now)) == State::PassThrough,
        action(State::Dictating, Event::Key(Key::Other, now)) == (Action {
            consume: false,
            replay: false,
            command: Some(Command::Cancel),
        }),
        action(State::Dictating, Event::Key(Key::Escape, now)) == (Action {
            consume: true,
            replay: false,
            command: Some(Command::Cancel),
        }),
        next_state(State::Dictating, Event::Key(Key::Other, now)) == State::Cancelled,
        next_state(State::Dictating, Event::Key(Key::Escape, now)) == State::Cancelled,
        !(state is Pending) && state != State::Dictating ==> {
            &&& next_state(state, Event::Key(Key::Other, now)) == state
            &&& next_state(state, Event::Key(Key::Escape, now)) == state
            &&& action(state, Event::Key(Key::Other, now)) == (Action {
                consume: false,
                replay: false,
                command: None,
            })
            &&& action(state, Event::Key(Key::Escape, now)) == (Action {
                consume: false,
                replay: false,
                command: Some(Command::Cancel),
            })
        },
{
}

} // verus!
