//! One attempt at a dictation, from the microphone's callback to the provider: a bounded
//! handoff of samples, and what each tick of the attempt does. Times are milliseconds of
//! one steady clock; samples are handled as the bits of their floating-point values.
use vstd::prelude::*;

verus! {

/// The attempt goes on.
pub const RECORDING: u8 = 0;

/// The attempt is asked to finish.
pub const FINISH: u8 = 1;

/// The attempt is asked to stop without a result.
pub const CANCEL: u8 = 2;

/// How many samples the handoff holds.
pub const BUFFER_SAMPLES: usize = 192_000;

/// How many chunks wait for the provider: ten seconds of 10 ms, more than the handshake takes.
pub const QUEUE_CHUNKS: usize = 1024;

/// How long the provider may take to connect and to finish.
pub const PROVIDER_MS: u64 = 8_000;

/// How often the attempt looks at its state.
pub const TICK_MS: u64 = 10;

/// How long a recording may last.
pub const LONGEST_MS: u64 = 120_000;

/// How long a microphone may deliver nothing.
pub const SILENT_MS: u64 = 3_000;

/// How long an attempt may take to finish.
pub const FINISH_MS: u64 = 10_000;

#[verifier::external_type_specification]
#[verifier::external_body]
#[verifier::reject_recursive_types(T)]
pub struct ExProducer<T>(rtrb::Producer<T>);

#[verifier::external_type_specification]
#[verifier::external_body]
#[verifier::reject_recursive_types(T)]
pub struct ExConsumer<T>(rtrb::Consumer<T>);

/// All that was ever pushed into a buffer through its producer, in order.
pub uninterp spec fn written(p: rtrb::Producer<u32>) -> Seq<u32>;

/// How many items the producer's buffer holds at once.
pub uninterp spec fn capacity(p: rtrb::Producer<u32>) -> nat;

/// All that was ever popped from a buffer through its consumer, in order.
pub uninterp spec fn taken(c: rtrb::Consumer<u32>) -> Seq<u32>;

/// How many samples had been pushed in all, popped ones among them, each time that the
/// consumer counted those that wait.
pub uninterp spec fn seen(c: rtrb::Consumer<u32>) -> Seq<nat>;

/// The two are the ends of one buffer.
pub uninterp spec fn paired(p: rtrb::Producer<u32>, c: rtrb::Consumer<u32>) -> bool;

/// Calls `rtrb::RingBuffer::new`. Claims that the two are the ends of one buffer, that it has
/// the capacity asked for, and that nothing was pushed, popped or counted yet.
#[verifier::external_body]
fn new_ring(slots: usize) -> (r: (rtrb::Producer<u32>, rtrb::Consumer<u32>))
    requires
        2 * slots <= usize::MAX,
    ensures
        written(r.0) == Seq::<u32>::empty(),
        capacity(r.0) == slots,
        taken(r.1) == Seq::<u32>::empty(),
        seen(r.1) == Seq::<nat>::empty(),
        paired(r.0, r.1),
{
    rtrb::RingBuffer::new(slots)
}

/// Calls `rtrb::Producer::push`. Claims that the sample is added behind those pushed before,
/// or that nothing is; the latter only where as many were pushed before as the buffer holds.
/// The buffer stays the same one. Whether a full buffer has been emptied since is up to the consumer and not said.
#[verifier::external_body]
fn push_sample(p: &mut rtrb::Producer<u32>, sample: u32) -> (pushed: bool)
    ensures
        capacity(*final(p)) == capacity(*old(p)),
        pushed ==> written(*final(p)) == written(*old(p)).push(sample),
        !pushed ==> written(*final(p)) == written(*old(p)),
        written(*old(p)).len() < capacity(*old(p)) ==> pushed,
        forall|c: rtrb::Consumer<u32>|
            #![trigger paired(*final(p), c)]
            #![trigger paired(*old(p), c)]
            paired(*final(p), c) == paired(*old(p), c),
{
    p.push(sample).is_ok()
}

/// Calls `rtrb::Consumer::pop`. Claims that the sample given joins those popped before, that
/// without one nothing changes, and that there is one as long as the last count saw more
/// samples than were popped. Samples come out in the order in which the other end of the
/// buffer pushed them. Whether one has come since the last count is up to the producer and
/// not said.
#[verifier::external_body]
fn pop_sample(c: &mut rtrb::Consumer<u32>) -> (r: Option<u32>)
    ensures
        match r {
            Some(sample) => taken(*final(c)) == taken(*old(c)).push(sample),
            None => taken(*final(c)) == taken(*old(c)),
        },
        seen(*final(c)) == seen(*old(c)),
        seen(*old(c)).len() > 0 && taken(*old(c)).len() < seen(*old(c)).last() ==> r is Some,
        forall|p: rtrb::Producer<u32>|
            #![trigger paired(p, *final(c))]
            #![trigger paired(p, *old(c))]
            paired(p, *final(c)) == paired(p, *old(c)),
        forall|p: rtrb::Producer<u32>|
            #![trigger paired(p, *old(c))]
            paired(p, *old(c)) && r is Some && taken(*old(c)).len() < written(p).len() ==> r->0
                == written(p)[taken(*old(c)).len() as int],
{
    c.pop().ok()
}

/// Calls `rtrb::Consumer::slots`. Claims that nothing is popped, and that the number is that
/// of the samples pushed by now without those popped before. How many were pushed by now is
/// up to the producer and not said.
#[verifier::external_body]
fn count_samples(c: &mut rtrb::Consumer<u32>) -> (n: usize)
    ensures
        taken(*final(c)) == taken(*old(c)),
        seen(*final(c)) == seen(*old(c)).push(taken(*old(c)).len() + n as nat),
        forall|p: rtrb::Producer<u32>|
            #![trigger paired(p, *final(c))]
            #![trigger paired(p, *old(c))]
            paired(p, *final(c)) == paired(p, *old(c)),
{
    c.slots()
}

/// The two ends of the handoff from the microphone's callback.
pub fn ring() -> (r: (rtrb::Producer<u32>, rtrb::Consumer<u32>))
    ensures
        written(r.0) == Seq::<u32>::empty(),
        capacity(r.0) == BUFFER_SAMPLES,
        taken(r.1) == Seq::<u32>::empty(),
        seen(r.1) == Seq::<nat>::empty(),
        paired(r.0, r.1),
{
    new_ring(BUFFER_SAMPLES)
}

/// What the arrival of frames says of the microphone.
#[derive(Clone, Copy, Debug, PartialEq, Eq, Structural)]
pub struct Arrival {
    /// The microphone delivers.
    pub receiving: bool,
    /// Samples were lost.
    pub failed: bool,
}

/// Behind what was pushed before stand the frames, up to the first sample that was lost if one
/// was.
pub open spec fn handed_over(
    before: Seq<u32>,
    frames: Seq<u32>,
    after: Seq<u32>,
    failed: bool,
) -> bool {
    exists|n: int|
        0 <= n <= frames.len() && after == before + #[trigger] frames.take(n) && failed == (n
            < frames.len())
}

/// Hands over frames up to the first sample that finds the buffer full.
pub fn on_frames(producer: &mut rtrb::Producer<u32>, frames: &[u32]) -> (r: Arrival)
    ensures
        r.receiving == (frames@.len() > 0),
        capacity(*final(producer)) == capacity(*old(producer)),
        exists|n: int|
            0 <= n <= frames@.len() && written(*final(producer)) == written(*old(producer))
                + #[trigger] frames@.take(n) && r.failed == (n < frames@.len()),
        written(*old(producer)).len() + frames@.len() <= capacity(*old(producer)) ==> !r.failed,
        handed_over(written(*old(producer)), frames@, written(*final(producer)), r.failed),
        forall|c: rtrb::Consumer<u32>|
            #![trigger paired(*final(producer), c)]
            #![trigger paired(*old(producer), c)]
            paired(*final(producer), c) == paired(*old(producer), c),
{
    let ghost before = written(*producer);
    let mut i: usize = 0;
    assert(before + frames@.take(0) =~= before);
    while i < frames.len()
        invariant
            i <= frames@.len(),
            before == written(*old(producer)),
            capacity(*producer) == capacity(*old(producer)),
            written(*producer) == before + frames@.take(i as int),
            forall|c: rtrb::Consumer<u32>|
                #![trigger paired(*producer, c)]
                #![trigger paired(*old(producer), c)]
                paired(*producer, c) == paired(*old(producer), c),
        decreases frames.len() - i,
    {
        let ghost sofar = frames@.take(i as int);
        if !push_sample(producer, frames[i]) {
            return Arrival { receiving: true, failed: true };
        }
        assert(frames@.take(i + 1) =~= sofar.push(frames@[i as int]));
        assert(written(*producer) =~= before + frames@.take(i + 1));
        i += 1;
    }
    assert(frames@.take(frames@.len() as int) =~= frames@);
    Arrival { receiving: frames.len() > 0, failed: false }
}

/// The samples are those that the producer pushed from position `from` on, as far as it has.
pub open spec fn follows(p: rtrb::Producer<u32>, from: int, samples: Seq<u32>) -> bool {
    forall|j: int|
        0 <= j < samples.len() && from + j < written(p).len() ==> #[trigger] samples[j] == written(
            p,
        )[from + j]
}

/// Counts the samples that wait and takes them all, in the order in which the other end of
/// the buffer pushed them: none that had been pushed by the time of the count stays behind,
/// and none that came later is taken. How many wait is up to the producer and not said.
pub fn drain(consumer: &mut rtrb::Consumer<u32>) -> (r: Vec<u32>)
    ensures
        taken(*final(consumer)) == taken(*old(consumer)) + r@,
        seen(*final(consumer)) == seen(*old(consumer)).push(taken(*final(consumer)).len()),
        forall|p: rtrb::Producer<u32>|
            #![trigger paired(p, *final(consumer))]
            #![trigger paired(p, *old(consumer))]
            paired(p, *final(consumer)) == paired(p, *old(consumer)),
        forall|p: rtrb::Producer<u32>| #[trigger]
            paired(p, *old(consumer)) ==> follows(p, taken(*old(consumer)).len() as int, r@),
{
    let mut captured: Vec<u32> = Vec::new();
    let ghost before = taken(*consumer);
    let n: usize = count_samples(consumer);
    assert(before + captured@ =~= before);
    let mut i: usize = 0;
    while i < n
        invariant
            i <= n,
            captured@.len() == i,
            before == taken(*old(consumer)),
            taken(*consumer) == before + captured@,
            seen(*consumer) == seen(*old(consumer)).push(before.len() + n as nat),
            forall|p: rtrb::Producer<u32>|
                #![trigger paired(p, *consumer)]
                #![trigger paired(p, *old(consumer))]
                paired(p, *consumer) == paired(p, *old(consumer)),
            forall|p: rtrb::Producer<u32>| #[trigger]
                paired(p, *old(consumer)) ==> follows(p, before.len() as int, captured@),
        decreases n - i,
    {
        assert(seen(*consumer).last() == before.len() + n);
        let ghost ready = *consumer;
        if let Some(sample) = pop_sample(consumer) {
            let ghost sofar = captured@;
            captured.push(sample);
            proof {
                assert(before + captured@ =~= (before + sofar).push(sample));
                assert forall|p: rtrb::Producer<u32>| #[trigger]
                    paired(p, *old(consumer)) implies follows(
                    p,
                    before.len() as int,
                    captured@,
                ) by {
                    assert(paired(p, ready));
                    assert(follows(p, before.len() as int, sofar));
                    assert forall|j: int|
                        0 <= j < captured@.len() && before.len() + j < written(
                            p,
                        ).len() implies #[trigger] captured@[j] == written(p)[before.len() + j] by {
                        if j < sofar.len() {
                            assert(captured@[j] == sofar[j]);
                        }
                    }
                }
            }
        }
        i += 1;
    }
    captured
}

/// Why an attempt ends without a transcript.
#[derive(Clone, Copy, Debug, PartialEq, Eq, Structural)]
pub enum Failure {
    CancelledBeforeStart,
    CannotStart,
    UnsupportedFormat,
    Cancelled,
    FinishTimedOut,
    DeviceFailed,
    StopFailed,
    Silent,
    ConversionFailed,
    ProviderTooSlow,
}

impl Failure {
    /// What the user reads.
    pub open spec fn words(self) -> Seq<char> {
        match self {
            Failure::CancelledBeforeStart => "Cancelled before microphone startup"@,
            Failure::CannotStart => "Cannot start microphone; check permission and input device"@,
            Failure::UnsupportedFormat => "Unsupported microphone format"@,
            Failure::Cancelled => "Cancelled"@,
            Failure::FinishTimedOut => "Finalization timed out; no text inserted"@,
            Failure::DeviceFailed =>
                "Audio buffer overflow or microphone failure; no text inserted"@,
            Failure::StopFailed => "Microphone stop failed"@,
            Failure::Silent => "Microphone stopped delivering audio; no text inserted"@,
            Failure::ConversionFailed => "Audio conversion failed"@,
            Failure::ProviderTooSlow => "Transcription cannot keep up; no text inserted"@,
        }
    }

    /// What the user reads.
    pub fn message(self) -> (r: &'static str)
        ensures
            r@ == self.words(),
    {
        match self {
            Failure::CancelledBeforeStart => "Cancelled before microphone startup",
            Failure::CannotStart => "Cannot start microphone; check permission and input device",
            Failure::UnsupportedFormat => "Unsupported microphone format",
            Failure::Cancelled => "Cancelled",
            Failure::FinishTimedOut => "Finalization timed out; no text inserted",
            Failure::DeviceFailed =>
                "Audio buffer overflow or microphone failure; no text inserted",
            Failure::StopFailed => "Microphone stop failed",
            Failure::Silent => "Microphone stopped delivering audio; no text inserted",
            Failure::ConversionFailed => "Audio conversion failed",
            Failure::ProviderTooSlow => "Transcription cannot keep up; no text inserted",
        }
    }
}

/// An attempt with this control may open the microphone.
pub open spec fn startable(control: u8) -> bool {
    control == RECORDING
}

/// The attempt may open the microphone.
pub fn may_start(control: u8) -> (r: Result<(), Failure>)
    ensures
        r == if control == RECORDING {
            Ok::<(), Failure>(())
        } else {
            Err(Failure::CancelledBeforeStart)
        },
        r is Ok <==> startable(control),
{
    if control != RECORDING {
        return Err(Failure::CancelledBeforeStart);
    }
    Ok(())
}

/// How long ago `at` was.
pub open spec fn since(at: u64, now: u64) -> int {
    if at <= now {
        now - at
    } else {
        0
    }
}

fn elapsed(at: u64, now: u64) -> (r: u64)
    ensures
        r == since(at, now),
{
    if at <= now {
        now - at
    } else {
        0
    }
}

/// What a tick asks for.
#[derive(Clone, Copy, Debug, PartialEq, Eq, Structural)]
pub enum Next {
    /// End the attempt.
    Fail(Failure),
    /// Nothing: all audio has been sent.
    Wait,
    /// Send what was captured.
    Capture,
    /// Stop the microphone, then send what was captured.
    Finish,
}

/// What becomes of captured audio once it is converted.
#[derive(Clone, Copy, Debug, PartialEq, Eq, Structural)]
pub struct Delivery {
    /// Send it to the provider.
    pub send: bool,
    /// Tell the provider that no more will come.
    pub close: bool,
}

/// The state of an attempt whose microphone is open.
#[derive(Clone, Copy, Debug, PartialEq, Eq, Structural)]
pub struct Attempt {
    /// When the attempt began.
    pub started: u64,
    /// When audio last arrived.
    pub heard: u64,
    /// When the microphone was stopped.
    pub finished: Option<u64>,
}

impl Attempt {
    /// The attempt takes longer to finish than it may.
    pub open spec fn overdue(self, now: u64) -> bool {
        self.finished matches Some(at) && since(at, now) > FINISH_MS
    }

    /// The recording is to end.
    pub open spec fn ends(self, control: u8, now: u64) -> bool {
        control == FINISH || since(self.started, now) >= LONGEST_MS
    }

    /// What a tick asks for.
    pub open spec fn next(self, control: u8, failed: bool, now: u64) -> Next {
        if control == CANCEL {
            Next::Fail(Failure::Cancelled)
        } else if self.overdue(now) {
            Next::Fail(Failure::FinishTimedOut)
        } else if failed {
            Next::Fail(Failure::DeviceFailed)
        } else if self.finished is Some {
            Next::Wait
        } else if self.ends(control, now) {
            Next::Finish
        } else {
            Next::Capture
        }
    }

    /// The state when `samples` samples have been taken.
    pub open spec fn after_capture(self, samples: usize, now: u64) -> Attempt {
        if samples > 0 {
            Attempt { heard: now, ..self }
        } else {
            self
        }
    }

    /// The microphone delivers nothing although it should.
    pub open spec fn deaf(self, now: u64) -> bool {
        self.finished is None && since(self.heard, now) > SILENT_MS
    }

    /// An attempt that has just begun.
    pub open spec fn fresh(now: u64) -> Attempt {
        Attempt { started: now, heard: now, finished: None }
    }

    /// The state when the microphone was told to stop.
    pub open spec fn after_stop(self, stopped: bool, now: u64) -> Attempt {
        if stopped {
            Attempt { finished: Some(now), ..self }
        } else {
            self
        }
    }

    /// How many silent samples follow what was captured.
    pub open spec fn silence(self, rate: u32) -> int {
        if self.finished is Some {
            rate as int / 5
        } else {
            0
        }
    }

    /// What becomes of converted samples.
    pub open spec fn delivered(self, samples: usize, open: bool) -> Delivery {
        Delivery { send: samples > 0 && open, close: self.finished is Some }
    }

    pub fn begin(now: u64) -> (r: Attempt)
        ensures
            r == (Attempt { started: now, heard: now, finished: None }),
            r == Attempt::fresh(now),
    {
        Attempt { started: now, heard: now, finished: None }
    }

    /// What this tick asks for.
    pub fn tick(&self, control: u8, failed: bool, now: u64) -> (r: Next)
        ensures
            r == self.next(control, failed, now),
    {
        if control == CANCEL {
            return Next::Fail(Failure::Cancelled);
        }
        if let Some(at) = self.finished {
            if elapsed(at, now) > FINISH_MS {
                return Next::Fail(Failure::FinishTimedOut);
            }
        }
        if failed {
            return Next::Fail(Failure::DeviceFailed);
        }
        if self.finished.is_some() {
            return Next::Wait;
        }
        if control == FINISH || elapsed(self.started, now) >= LONGEST_MS {
            return Next::Finish;
        }
        Next::Capture
    }

    /// The microphone was told to stop; `stopped` says whether it did.
    pub fn stop(&mut self, stopped: bool, now: u64) -> (r: Result<(), Failure>)
        ensures
            stopped ==> r is Ok && *final(self) == (Attempt { finished: Some(now), ..*old(self) }),
            !stopped ==> r == Err::<(), Failure>(Failure::StopFailed) && *final(self) == *old(self),
            *final(self) == old(self).after_stop(stopped, now),
            r is Ok <==> stopped,
    {
        if !stopped {
            return Err(Failure::StopFailed);
        }
        self.finished = Some(now);
        Ok(())
    }

    /// `samples` samples were taken from the handoff.
    pub fn capture(&mut self, samples: usize, now: u64) -> (r: Result<(), Failure>)
        ensures
            *final(self) == old(self).after_capture(samples, now),
            r == if final(self).deaf(now) {
                Err::<(), Failure>(Failure::Silent)
            } else {
                Ok(())
            },
    {
        if samples > 0 {
            self.heard = now;
        }
        if elapsed(self.heard, now) > SILENT_MS && self.finished.is_none() {
            return Err(Failure::Silent);
        }
        Ok(())
    }

    /// How many silent samples follow what was captured: a fifth of a second at the end, so
    /// that the last word leaves the converter.
    pub fn padding(&self, rate: u32) -> (r: usize)
        ensures
            r == if self.finished is Some {
                rate as int / 5
            } else {
                0
            },
            r == self.silence(rate),
    {
        if self.finished.is_some() {
            (rate / 5) as usize
        } else {
            0
        }
    }

    /// What becomes of `samples` converted samples while the provider's queue is `open`.
    pub fn delivery(&self, samples: usize, open: bool) -> (r: Delivery)
        ensures
            r == (Delivery { send: samples > 0 && open, close: self.finished is Some }),
            r == self.delivered(samples, open),
    {
        Delivery { send: samples > 0 && open, close: self.finished.is_some() }
    }
}

/// A cancelled attempt ends at the next tick, whatever else happened.
pub proof fn cancellation_comes_first(attempt: Attempt, failed: bool, now: u64)
    ensures
        attempt.next(CANCEL, failed, now) == Next::Fail(Failure::Cancelled),
{
}

/// A lost sample or a failed microphone ends the attempt at the next tick: what is
/// transcribed is all that was said.
pub proof fn lost_audio_ends_the_attempt(attempt: Attempt, control: u8, now: u64)
    ensures
        attempt.next(control, true, now) is Fail,
{
}

/// A recording that was not asked to finish finishes at its longest duration.
pub proof fn recordings_are_bounded(attempt: Attempt, control: u8, now: u64)
    requires
        since(attempt.started, now) >= LONGEST_MS,
    ensures
        attempt.next(control, false, now) != Next::Capture,
{
}

/// No attempt waits longer for its end than it may.
pub proof fn finishing_is_bounded(attempt: Attempt, control: u8, failed: bool, now: u64)
    requires
        attempt.finished matches Some(at) && since(at, now) > FINISH_MS,
    ensures
        attempt.next(control, failed, now) is Fail,
{
}

/// Once the microphone is stopped it is neither stopped again nor listened to.
pub proof fn audio_ends_once(attempt: Attempt, control: u8, failed: bool, now: u64)
    requires
        attempt.finished is Some,
    ensures
        attempt.next(control, failed, now) != Next::Finish,
        attempt.next(control, failed, now) != Next::Capture,
{
}

/// Silence while the last audio is collected is no failure.
pub proof fn a_stopped_microphone_may_be_silent(attempt: Attempt, samples: usize, now: u64)
    requires
        attempt.finished is Some,
    ensures
        !attempt.after_capture(samples, now).deaf(now),
{
}

/// What two drains took, one after the other, is what was pushed, in one piece.
pub proof fn drains_follow_one_another(
    p: rtrb::Producer<u32>,
    from: int,
    first: Seq<u32>,
    second: Seq<u32>,
)
    requires
        follows(p, from, first),
        follows(p, from + first.len(), second),
    ensures
        follows(p, from, first + second),
{
    let both = first + second;
    assert forall|j: int|
        0 <= j < both.len() && from + j < written(p).len() implies #[trigger] both[j] == written(
        p,
    )[from + j] by {
        if j < first.len() {
            assert(both[j] == first[j]);
        } else {
            assert(both[j] == second[j - first.len()]);
        }
    }
}

/// An attempt that is asked to finish finishes at the next tick, whatever the time is.
pub proof fn finishing_is_obeyed_at_any_time(attempt: Attempt, now: u64)
    requires
        attempt.finished is None,
    ensures
        attempt.next(1, false, now) == Next::Finish,
{
}

/// A recording goes on, and all that is captured is sent, until two minutes have passed; then
/// it finishes by itself.
pub proof fn recordings_last_two_minutes(attempt: Attempt, control: u8, now: u64)
    requires
        attempt.finished is None,
        control != 1,
        control != 2,
    ensures
        now < attempt.started + 120_000 ==> attempt.next(control, false, now) == Next::Capture,
        now >= attempt.started + 120_000 ==> attempt.next(control, false, now) == Next::Finish,
{
}

/// Once the microphone is stopped the attempt has ten seconds to end, and waits that long.
pub proof fn the_end_may_take_ten_seconds(attempt: Attempt, at: u64, control: u8, now: u64)
    requires
        attempt.finished == Some(at),
        control != 2,
    ensures
        now <= at + 10_000 ==> attempt.next(control, false, now) == Next::Wait,
        now > at + 10_000 ==> attempt.next(control, false, now) == Next::Fail(
            Failure::FinishTimedOut,
        ),
{
}

/// A failed device ends an attempt that is not cancelled, as a failure of the device unless it
/// already takes too long to end.
pub proof fn failed_devices_are_named(attempt: Attempt, control: u8, now: u64)
    requires
        control != 2,
        attempt.finished matches Some(at) ==> now <= at + 10_000,
    ensures
        attempt.next(control, true, now) == Next::Fail(Failure::DeviceFailed),
{
}

/// An open microphone may be silent for three seconds and no longer; audio starts the time
/// again.
pub proof fn silence_may_last_three_seconds(attempt: Attempt, samples: usize, now: u64, later: u64)
    requires
        attempt.finished is None,
    ensures
        attempt.deaf(now) <==> now > attempt.heard + 3_000,
        samples > 0 ==> {
            let after = attempt.after_capture(samples, now);
            &&& after.heard == now
            &&& after.deaf(later) <==> later > now + 3_000
        },
        attempt.after_capture(0, now) == attempt,
        attempt.after_capture(samples, now).started == attempt.started,
        attempt.after_capture(samples, now).finished == attempt.finished,
{
}

/// An attempt opens the microphone unless it was told otherwise before.
pub proof fn only_undisturbed_attempts_start(control: u8)
    ensures
        startable(0),
        control != 0 ==> !startable(control),
{
}

/// A fresh attempt captures for two minutes from its beginning, and may at first be silent for
/// three seconds.
pub proof fn fresh_attempts_capture(begun: u64, now: u64)
    ensures
        begun <= now < begun + 120_000 ==> Attempt::fresh(begun).next(0, false, now)
            == Next::Capture,
        now <= begun + 3_000 ==> !Attempt::fresh(begun).deaf(now),
        now > begun + 3_000 ==> Attempt::fresh(begun).deaf(now),
{
}

/// A stopped attempt waits for its end, ten seconds from when it was stopped; one whose
/// microphone did not stop is as before.
pub proof fn stopped_attempts_wait(attempt: Attempt, at: u64, control: u8, now: u64)
    requires
        control != 2,
    ensures
        now <= at + 10_000 ==> attempt.after_stop(true, at).next(control, false, now) == Next::Wait,
        now > at + 10_000 ==> attempt.after_stop(true, at).next(control, false, now) is Fail,
        attempt.after_stop(true, at).started == attempt.started,
        attempt.after_stop(true, at).heard == attempt.heard,
        attempt.after_stop(false, at) == attempt,
{
}

/// Behind a recording that has ended a fifth of a second of silence follows, at any rate;
/// before, none.
pub proof fn a_fifth_of_a_second_follows(attempt: Attempt, rate: u32)
    ensures
        attempt.finished is Some ==> 5 * attempt.silence(rate) <= rate < 5 * attempt.silence(rate)
            + 5,
        attempt.finished is None ==> attempt.silence(rate) == 0,
{
}

/// All converted samples go to an open queue, whether or not the recording has ended; the end
/// is told exactly where it has.
pub proof fn all_samples_are_sent(attempt: Attempt, samples: usize, open: bool)
    ensures
        attempt.delivered(samples, true).send <==> samples >= 1,
        !attempt.delivered(samples, false).send,
        attempt.delivered(samples, open).close <==> attempt.finished is Some,
{
}

/// Where no sample was lost all frames were handed over, in order; where one was, only those
/// before it were.
pub proof fn frames_are_handed_over_whole(
    before: Seq<u32>,
    frames: Seq<u32>,
    after: Seq<u32>,
    failed: bool,
)
    requires
        handed_over(before, frames, after, failed),
    ensures
        !failed ==> after == before + frames,
        failed ==> after.len() < before.len() + frames.len(),
        before.len() <= after.len(),
        forall|i: int| 0 <= i < before.len() ==> #[trigger] after[i] == before[i],
        forall|i: int|
            before.len() <= i < after.len() ==> #[trigger] after[i] == frames[i - before.len()],
{
    assert(frames.take(frames.len() as int) =~= frames);
}

/// What was drained is a piece of what was pushed, without a gap, as far as the producer is
/// known to have pushed.
pub proof fn drained_samples_are_the_pushed_ones(
    p: rtrb::Producer<u32>,
    from: int,
    samples: Seq<u32>,
)
    requires
        follows(p, from, samples),
        0 <= from,
        from + samples.len() <= written(p).len(),
    ensures
        samples == written(p).subrange(from, from + samples.len()),
{
    assert(samples =~= written(p).subrange(from, from + samples.len()));
}

/// The queue holds more audio than arrives while the provider connects, the provider's time is
/// up before the attempt's, and the handoff holds more audio at 48 kHz than the time for which a
/// microphone may be silent.
pub proof fn the_limits_agree()
    ensures
        QUEUE_CHUNKS * TICK_MS > PROVIDER_MS,
        PROVIDER_MS < FINISH_MS,
        SILENT_MS < PROVIDER_MS,
        BUFFER_SAMPLES * 1_000 > 48_000 * SILENT_MS,
{
}

} // verus!
