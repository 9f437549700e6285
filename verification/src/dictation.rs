//! Pure recording controller. Native callbacks contain no lifecycle decisions.
use crate::text::{blank, is_blank, view_of};
use vstd::prelude::*;

verus! {

#[derive(Debug, Clone, Copy, PartialEq, Eq, Structural)]
pub enum Phase {
    Idle,
    Recording,
    Processing,
}

impl Default for Phase {
    fn default() -> (r: Phase)
        ensures
            r == Phase::Idle,
    {
        Phase::Idle
    }
}

/// What the end of an attempt means for the user.
#[derive(Debug, PartialEq, Eq)]
pub enum CompletionEffect {
    Transcript(String),
    Empty,
    Error(String),
}

/// The state of the controller: its phase, whether the key is held, and the number of
/// the current attempt.
pub struct Model {
    pub phase: Phase,
    pub held: bool,
    pub generation: int,
}

/// Everything that can be asked of the controller.
pub enum Op {
    StartManual,
    Flags { key_down: bool, other_modifier: bool },
    Cancel,
    Finish,
    Complete { id: int },
    Stop,
}

/// What a change of the modifier keys asks for.
pub open spec fn flags_request(m: Model, key_down: bool, other_modifier: bool) -> Option<
    Seq<char>,
> {
    if other_modifier && m.phase == Phase::Recording {
        Some("cancel"@)
    } else if key_down && !m.held && !other_modifier && m.phase == Phase::Idle {
        Some("start"@)
    } else if !key_down && m.held && m.phase == Phase::Recording {
        Some("finish"@)
    } else {
        None
    }
}

/// The state after a change of the modifier keys.
pub open spec fn after_flags(m: Model, key_down: bool, other_modifier: bool) -> Model {
    if other_modifier && m.phase == Phase::Recording {
        Model { phase: Phase::Idle, held: key_down, generation: m.generation + 1 }
    } else if key_down && !m.held && !other_modifier && m.phase == Phase::Idle {
        Model { phase: Phase::Recording, held: key_down, generation: m.generation + 1 }
    } else if !key_down && m.held && m.phase == Phase::Recording {
        Model { phase: Phase::Processing, held: key_down, generation: m.generation }
    } else {
        Model { held: key_down, ..m }
    }
}

/// The state after any one request.
pub open spec fn after(m: Model, op: Op) -> Model {
    match op {
        Op::StartManual => if m.phase == Phase::Idle {
            Model { phase: Phase::Recording, held: false, generation: m.generation + 1 }
        } else {
            m
        },
        Op::Flags { key_down, other_modifier } => after_flags(m, key_down, other_modifier),
        Op::Cancel => if m.phase == Phase::Idle {
            m
        } else {
            Model { phase: Phase::Idle, generation: m.generation + 1, ..m }
        },
        Op::Finish => Model { phase: Phase::Idle, ..m },
        Op::Complete { id } => if awaits(m, id) {
            Model { phase: Phase::Idle, ..m }
        } else {
            m
        },
        Op::Stop => if m.phase == Phase::Recording {
            Model { phase: Phase::Processing, ..m }
        } else {
            m
        },
    }
}

/// The state after a series of requests.
pub open spec fn after_all(m: Model, ops: Seq<Op>) -> Model
    decreases ops.len(),
{
    if ops.len() == 0 {
        m
    } else {
        after(after_all(m, ops.drop_last()), ops.last())
    }
}

/// The attempt `id` is the current one and its result is still to come.
pub open spec fn awaits(m: Model, id: int) -> bool {
    id == m.generation && m.phase != Phase::Idle
}

/// The attempt `id` is the current one and its audio is complete.
pub open spec fn accepting(m: Model, id: int) -> bool {
    id == m.generation && m.phase == Phase::Processing
}

/// What the result of the attempt `id` amounts to.
pub open spec fn effect(m: Model, id: int, result: Result<String, String>) -> Option<
    CompletionEffect,
> {
    if !awaits(m, id) {
        None
    } else {
        match result {
            Ok(text) => if accepting(m, id) && !blank(text@) {
                Some(CompletionEffect::Transcript(text))
            } else {
                Some(CompletionEffect::Empty)
            },
            Err(error) => Some(CompletionEffect::Error(error)),
        }
    }
}

/// The recording controller.
#[derive(Debug)]
pub struct Dictation {
    pub phase: Phase,
    down: bool,
    generation: u64,
}

impl View for Dictation {
    type V = Model;

    closed spec fn view(&self) -> Model {
        Model { phase: self.phase, held: self.down, generation: self.generation as int }
    }
}

impl Default for Dictation {
    fn default() -> (r: Dictation)
        ensures
            r@ == (Model { phase: Phase::Idle, held: false, generation: 0 }),
    {
        Dictation { phase: Phase::Idle, down: false, generation: 0 }
    }
}

impl Dictation {
    /// The phase, as the public field shows it.
    pub fn phase(&self) -> (r: Phase)
        ensures
            r == self@.phase,
    {
        self.phase
    }

    /// Starts recording without a key, if nothing else is going on.
    pub fn start_manual(&mut self) -> (r: bool)
        requires
            after(old(self)@, Op::StartManual).generation <= u64::MAX,
        ensures
            r == (old(self)@.phase == Phase::Idle),
            r == (after(old(self)@, Op::StartManual) != old(self)@),
            final(self)@ == after(old(self)@, Op::StartManual),
    {
        if self.phase != Phase::Idle {
            return false;
        }
        self.down = false;
        self.generation += 1;
        self.phase = Phase::Recording;
        true
    }

    /// Takes note of the modifier keys; returns what that asks for, if anything.
    pub fn flags(&mut self, key_down: bool, other_modifier: bool) -> (r: Option<&'static str>)
        requires
            after(old(self)@, Op::Flags { key_down, other_modifier }).generation <= u64::MAX,
        ensures
            view_of(r) == flags_request(old(self)@, key_down, other_modifier),
            final(self)@ == after(old(self)@, Op::Flags { key_down, other_modifier }),
    {
        let rising = key_down && !self.down;
        let falling = !key_down && self.down;
        self.down = key_down;
        if other_modifier && self.phase == Phase::Recording {
            self.cancel();
            return Some("cancel");
        }
        if rising && !other_modifier && self.phase == Phase::Idle {
            self.generation += 1;
            self.phase = Phase::Recording;
            return Some("start");
        }
        if falling && self.phase == Phase::Recording {
            self.phase = Phase::Processing;
            return Some("finish");
        }
        None
    }

    /// Drops the current attempt, if there is one.
    pub fn cancel(&mut self) -> (r: bool)
        requires
            after(old(self)@, Op::Cancel).generation <= u64::MAX,
        ensures
            r == (old(self)@.phase != Phase::Idle),
            r == (after(old(self)@, Op::Cancel) != old(self)@),
            final(self)@ == after(old(self)@, Op::Cancel),
    {
        if self.phase == Phase::Idle {
            return false;
        }
        self.generation += 1;
        self.phase = Phase::Idle;
        true
    }

    /// Ends the current attempt.
    pub fn finish(&mut self)
        ensures
            final(self)@ == after(old(self)@, Op::Finish),
    {
        self.phase = Phase::Idle;
    }

    /// The number of the current attempt.
    pub fn generation(&self) -> (r: u64)
        ensures
            r == self@.generation,
    {
        self.generation
    }

    /// A transcript of the attempt `id` would be delivered.
    pub fn accepts(&self, id: u64) -> (r: bool)
        ensures
            r == accepting(self@, id as int),
    {
        self.generation == id && self.phase == Phase::Processing
    }

    /// Takes the result of the attempt `id`. A result of any other attempt, or a second
    /// one of this attempt, changes nothing and means nothing.
    pub fn complete(&mut self, id: u64, result: Result<String, String>) -> (r: Option<
        CompletionEffect,
    >)
        ensures
            r == effect(old(self)@, id as int, result),
            final(self)@ == after(old(self)@, Op::Complete { id: id as int }),
    {
        if id != self.generation || self.phase == Phase::Idle {
            return None;
        }
        let accepts = self.accepts(id);
        let effect = match result {
            Ok(text) => if accepts && !is_blank(text.as_str()) {
                CompletionEffect::Transcript(text)
            } else {
                CompletionEffect::Empty
            },
            Err(error) => CompletionEffect::Error(error),
        };
        self.finish();
        Some(effect)
    }

    /// Ends the recording and waits for its result.
    pub fn stop(&mut self) -> (r: bool)
        ensures
            r == (old(self)@.phase == Phase::Recording),
            r == (after(old(self)@, Op::Stop) != old(self)@),
            final(self)@ == after(old(self)@, Op::Stop),
    {
        if self.phase == Phase::Recording {
            self.phase = Phase::Processing;
            true
        } else {
            false
        }
    }
}

/// The number of the current attempt never goes down.
pub proof fn generation_never_decreases(m: Model, ops: Seq<Op>)
    ensures
        after_all(m, ops).generation >= m.generation,
    decreases ops.len(),
{
    if ops.len() > 0 {
        generation_never_decreases(m, ops.drop_last());
    }
}

/// Once an attempt was cancelled, nothing that happens later makes its result count.
pub proof fn cancelled_attempt_never_delivers(m: Model, ops: Seq<Op>)
    requires
        m.phase != Phase::Idle,
    ensures
        !accepting(after_all(after(m, Op::Cancel), ops), m.generation),
        !awaits(after_all(after(m, Op::Cancel), ops), m.generation),
{
    generation_never_decreases(after(m, Op::Cancel), ops);
}

/// Once an attempt was completed, no later result of it counts, whatever happens.
pub proof fn completed_attempt_never_delivers_again(m: Model, ops: Seq<Op>)
    requires
        m.phase != Phase::Idle,
    ensures
        !awaits(after_all(after(m, Op::Complete { id: m.generation }), ops), m.generation),
{
    let done = after(m, Op::Complete { id: m.generation });
    lemma_idle_attempt_stays_over(done, ops);
}

proof fn lemma_idle_attempt_stays_over(m: Model, ops: Seq<Op>)
    requires
        m.phase == Phase::Idle,
    ensures
        !awaits(after_all(m, ops), m.generation),
        after_all(m, ops).generation >= m.generation,
    decreases ops.len(),
{
    if ops.len() > 0 {
        lemma_idle_attempt_stays_over(m, ops.drop_last());
    }
}

/// A held key is one session: hearing of the same keys again asks for nothing and
/// changes nothing.
pub proof fn repeated_flags_ask_for_nothing(m: Model, key_down: bool)
    ensures
        ({
            let once = after_flags(m, key_down, false);
            &&& flags_request(once, key_down, false) is None
            &&& after_flags(once, key_down, false) == once
        }),
{
}

/// Releasing the key after a cancellation commits nothing.
pub proof fn release_after_cancel_commits_nothing(m: Model)
    ensures
        flags_request(after(m, Op::Cancel), false, false) is None,
        after(after(m, Op::Cancel), Op::Cancel) == after(m, Op::Cancel),
{
}

/// Nothing starts while a result is awaited.
pub proof fn no_start_while_processing(m: Model, key_down: bool, other_modifier: bool)
    requires
        m.phase == Phase::Processing,
    ensures
        flags_request(m, key_down, other_modifier) is None,
        after(m, Op::StartManual) == m,
        after_flags(m, key_down, other_modifier).phase == Phase::Processing,
        after_flags(m, key_down, other_modifier).generation == m.generation,
{
}

/// A started attempt can be stopped and its spoken result delivered.
pub proof fn started_attempt_can_deliver(m: Model, text: String)
    requires
        m.phase == Phase::Idle,
        !blank(text@),
    ensures
        ({
            let done = after(after(m, Op::StartManual), Op::Stop);
            &&& effect(done, done.generation, Ok(text)) == Some(
                CompletionEffect::Transcript(text),
            )
            &&& after(done, Op::Complete { id: done.generation }).phase == Phase::Idle
        }),
{
}

/// Pressing the key alone starts an attempt, releasing it finishes the recording, another
/// modifier cancels it, and nothing else that the keys do asks for anything.
pub proof fn keys_ask_for_what_they_mean(m: Model, other_modifier: bool)
    ensures
        m.phase == Phase::Idle && !m.held ==> flags_request(m, true, false) == Some("start"@)
            && after_flags(m, true, false) == (Model {
            phase: Phase::Recording,
            held: true,
            generation: m.generation + 1,
        }),
        m.phase == Phase::Recording && m.held ==> flags_request(m, false, false) == Some("finish"@)
            && after_flags(m, false, false) == (Model {
            phase: Phase::Processing,
            held: false,
            generation: m.generation,
        }),
        m.phase == Phase::Recording ==> flags_request(m, true, true) == Some("cancel"@)
            && flags_request(m, false, true) == Some("cancel"@) && after_flags(m, true, true).phase
            == Phase::Idle && after_flags(m, false, true).phase == Phase::Idle && after_flags(
            m,
            true,
            true,
        ).generation == m.generation + 1 && after_flags(m, false, true).generation == m.generation
            + 1,
        m.phase == Phase::Recording && !m.held ==> flags_request(m, false, false) is None,
        m.phase == Phase::Recording ==> flags_request(m, true, false) is None,
        m.phase == Phase::Idle ==> flags_request(m, true, true) is None && flags_request(
            m,
            false,
            other_modifier,
        ) is None,
        m.phase == Phase::Idle && m.held ==> flags_request(m, true, other_modifier) is None,
{
}

/// The controller always knows whether the key is held, and keeps its phase where nothing was
/// asked for.
pub proof fn keys_are_remembered(m: Model, key_down: bool, other_modifier: bool)
    ensures
        after_flags(m, key_down, other_modifier).held == key_down,
        flags_request(m, key_down, other_modifier) is None ==> after_flags(
            m,
            key_down,
            other_modifier,
        ).phase == m.phase && after_flags(m, key_down, other_modifier).generation == m.generation,
        after(m, Op::Flags { key_down, other_modifier }) == after_flags(
            m,
            key_down,
            other_modifier,
        ),
{
}

/// The result of the attempt that is being processed is delivered as it is: any text that is
/// not blank whole, a blank one as nothing, an error with its words.
pub proof fn results_are_delivered_whole(m: Model, text: String, error: String)
    requires
        m.phase == Phase::Processing,
    ensures
        !blank(text@) ==> effect(m, m.generation, Ok(text)) == Some(
            CompletionEffect::Transcript(text),
        ),
        blank(text@) ==> effect(m, m.generation, Ok(text)) == Some(CompletionEffect::Empty),
        effect(m, m.generation, Err(error)) == Some(CompletionEffect::Error(error)),
        after(m, Op::Complete { id: m.generation }) == (Model { phase: Phase::Idle, ..m }),
        accepting(m, m.generation),
        awaits(m, m.generation),
{
}

/// A result that comes while the attempt still records ends it without a text; an error is
/// told all the same.
pub proof fn early_results_give_no_text(m: Model, text: String, error: String)
    requires
        m.phase == Phase::Recording,
    ensures
        effect(m, m.generation, Ok(text)) == Some(CompletionEffect::Empty),
        effect(m, m.generation, Err(error)) == Some(CompletionEffect::Error(error)),
        after(m, Op::Complete { id: m.generation }).phase == Phase::Idle,
        !accepting(m, m.generation),
{
}

/// A result of another attempt, or of none, means nothing and changes nothing.
pub proof fn stray_results_mean_nothing(m: Model, id: int, result: Result<String, String>)
    requires
        id != m.generation || m.phase == Phase::Idle,
    ensures
        effect(m, id, result) is None,
        after(m, Op::Complete { id }) == m,
        !accepting(m, id),
        !awaits(m, id),
{
}

/// Starting by hand begins a new attempt only where nothing is going on; stopping ends only a
/// recording; cancelling ends whatever goes on and makes its number a past one.
pub proof fn requests_change_the_phase(m: Model)
    ensures
        m.phase == Phase::Idle ==> after(m, Op::StartManual) == (Model {
            phase: Phase::Recording,
            held: false,
            generation: m.generation + 1,
        }),
        m.phase != Phase::Idle ==> after(m, Op::StartManual) == m,
        m.phase == Phase::Recording ==> after(m, Op::Stop) == (Model {
            phase: Phase::Processing,
            ..m
        }),
        m.phase != Phase::Recording ==> after(m, Op::Stop) == m,
        m.phase != Phase::Idle ==> after(m, Op::Cancel) == (Model {
            phase: Phase::Idle,
            held: m.held,
            generation: m.generation + 1,
        }),
        m.phase == Phase::Idle ==> after(m, Op::Cancel) == m,
        after(m, Op::Finish) == (Model { phase: Phase::Idle, ..m }),
{
}

} // verus!
