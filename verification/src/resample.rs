//! Getting captured audio into the shape a provider takes: 16 kHz, mono, 16-bit little endian.
//!
//! A microphone runs at 44.1 kHz normally, and at 16 or 24 kHz once a headset takes calls, so
//! any plausible rate is accepted. The converter wants blocks of a size of its own choosing;
//! what a block leaves over is carried into the next one, so that nothing is lost at the
//! boundaries. What a sample is does not matter here: blocks are formed of samples of any type.
use crate::text::{decimal, digits};
use vstd::prelude::*;

verus! {

/// The rate that every provider takes.
pub const TARGET_RATE: u32 = 16_000;

/// Frames per block of output: 10 ms at the target rate.
pub const CHUNK_FRAMES: usize = 160;

/// The rates that a real stream can have.
pub const LOWEST_RATE: u32 = 4_000;

pub const HIGHEST_RATE: u32 = 768_000;

/// Why a converter cannot be had or does not work.
#[derive(Debug)]
pub enum ResampleError {
    /// The input rate could not describe a real stream.
    BadRate(u32),
    /// The channel count could not describe a real stream.
    BadChannels(u16),
    /// The converter itself failed.
    Backend(String),
}

impl ResampleError {
    /// What a log says.
    pub open spec fn words(self) -> Seq<char> {
        match self {
            ResampleError::BadRate(rate) => "implausible input sample rate: "@ + digits(rate as nat)
                + " Hz"@,
            ResampleError::BadChannels(channels) => "implausible channel count: "@ + digits(
                channels as nat,
            ),
            ResampleError::Backend(reason) => "resampler failed: "@ + reason@,
        }
    }

    /// What a log says.
    pub fn message(&self) -> (r: String)
        ensures
            r@ == self.words(),
    {
        match self {
            ResampleError::BadRate(rate) => "implausible input sample rate: ".to_owned().concat(
                decimal(*rate as u64).as_str(),
            ).concat(" Hz"),
            ResampleError::BadChannels(channels) => "implausible channel count: ".to_owned().concat(
                decimal(*channels as u64).as_str(),
            ),
            ResampleError::Backend(reason) => "resampler failed: ".to_owned().concat(
                reason.as_str(),
            ),
        }
    }
}

/// A stream of frames on its way to the converter.
#[derive(Debug)]
pub struct Resampler16k<T> {
    input_rate: u32,
    channels: u16,
    pending: Vec<T>,
}

/// What a stream on its way to the converter is.
pub ghost struct Stream<T> {
    pub input_rate: u32,
    pub channels: u16,
    /// The samples that no block has taken yet.
    pub pending: Seq<T>,
}

impl<T> View for Resampler16k<T> {
    type V = Stream<T>;

    closed spec fn view(&self) -> Stream<T> {
        Stream {
            input_rate: self.input_rate,
            channels: self.channels,
            pending: self.pending@,
        }
    }
}

/// A real stream can have this rate.
pub open spec fn plausible_rate(rate: u32) -> bool {
    LOWEST_RATE <= rate <= HIGHEST_RATE
}

/// The stream when more samples have arrived.
pub open spec fn extended<T>(stream: Stream<T>, more: Seq<T>) -> Stream<T> {
    Stream { pending: stream.pending + more, ..stream }
}

/// The next block of `frames` frames, if there are so many, and the stream after it.
pub open spec fn after_block<T>(stream: Stream<T>, frames: usize) -> (Option<Seq<T>>, Stream<T>) {
    let n = frames * stream.channels;
    if stream.pending.len() < n {
        (None, stream)
    } else {
        (
            Some(stream.pending.take(n)),
            Stream { pending: stream.pending.skip(n), ..stream },
        )
    }
}

impl<T: Copy> Resampler16k<T> {
    /// A stream of frames of `channels` samples at `input_rate`.
    pub fn new(input_rate: u32, channels: u16) -> (r: Result<Resampler16k<T>, ResampleError>)
        ensures
            match r {
                Ok(s) => plausible_rate(input_rate) && channels != 0 && s@ == (Stream {
                    input_rate,
                    channels,
                    pending: Seq::<T>::empty(),
                }),
                Err(ResampleError::BadRate(rate)) => !plausible_rate(input_rate) && rate
                    == input_rate,
                Err(ResampleError::BadChannels(n)) => plausible_rate(input_rate) && channels == 0
                    && n == channels,
                Err(ResampleError::Backend(_)) => false,
            },
    {
        if input_rate < LOWEST_RATE || input_rate > HIGHEST_RATE {
            return Err(ResampleError::BadRate(input_rate));
        }
        if channels == 0 {
            return Err(ResampleError::BadChannels(channels));
        }
        let s = Resampler16k { input_rate, channels, pending: Vec::new() };
        assert(s@.pending =~= Seq::<T>::empty());
        Ok(s)
    }

    /// The rate that the stream has.
    pub fn input_rate(&self) -> (r: u32)
        ensures
            r == self@.input_rate,
    {
        self.input_rate
    }

    /// The rate that the stream is converted to.
    pub fn output_rate(&self) -> (r: u32)
        ensures
            r == TARGET_RATE,
    {
        TARGET_RATE
    }

    /// How many samples a frame has.
    pub fn channels(&self) -> (r: u16)
        ensures
            r == self@.channels,
    {
        self.channels
    }

    /// More samples arrive.
    pub fn extend(&mut self, interleaved: &[T])
        ensures
            final(self)@ == (Stream {
                pending: old(self)@.pending + interleaved@,
                ..old(self)@
            }),
            final(self)@ == extended(old(self)@, interleaved@),
    {
        let ghost before = self.pending@;
        let mut i: usize = 0;
        assert(before + interleaved@.take(0) =~= before);
        while i < interleaved.len()
            invariant
                i <= interleaved@.len(),
                self.pending@ == before + interleaved@.take(i as int),
                self.input_rate == old(self).input_rate,
                self.channels == old(self).channels,
            decreases interleaved.len() - i,
        {
            self.pending.push(interleaved[i]);
            assert(self.pending@ =~= before + interleaved@.take(i + 1));
            i += 1;
        }
        assert(interleaved@.take(i as int) =~= interleaved@);
    }

    /// The next block of `frames` frames, as soon as there are so many.
    pub fn block(&mut self, frames: usize) -> (r: Option<Vec<T>>)
        ensures
            old(self)@.pending.len() < frames * old(self)@.channels ==> r is None && final(self)@
                == old(self)@,
            old(self)@.pending.len() >= frames * old(self)@.channels ==> {
                &&& r is Some
                &&& r->0@ == old(self)@.pending.take(frames * old(self)@.channels)
                &&& final(self)@ == (Stream {
                    pending: old(self)@.pending.skip(frames * old(self)@.channels),
                    ..old(self)@
                })
            },
            final(self)@ == after_block(old(self)@, frames).1,
            r is Some <==> after_block(old(self)@, frames).0 is Some,
            r is Some ==> r->0@ == after_block(old(self)@, frames).0->0,
    {
        let wanted: u128 = mul_frames(frames, self.channels);
        if (self.pending.len() as u128) < wanted {
            return None;
        }
        let n: usize = wanted as usize;
        let ghost all = self.pending@;
        let mut out: Vec<T> = Vec::new();
        let mut rest: Vec<T> = Vec::new();
        let mut i: usize = 0;
        while i < self.pending.len()
            invariant
                all == self.pending@,
                n <= all.len(),
                i <= all.len(),
                self.input_rate == old(self).input_rate,
                self.channels == old(self).channels,
                out@ == all.take(if i <= n { i as int } else { n as int }),
                rest@ == if i <= n { Seq::<T>::empty() } else { all.subrange(n as int, i as int) },
            decreases all.len() - i,
        {
            if i < n {
                out.push(self.pending[i]);
                assert(out@ =~= all.take(i + 1));
            } else {
                rest.push(self.pending[i]);
                assert(rest@ =~= all.subrange(n as int, i + 1));
            }
            i += 1;
        }
        assert(rest@ =~= all.skip(n as int));
        self.pending = rest;
        Some(out)
    }

    /// Hands all complete blocks to `convert`, one after the other and each once, and joins
    /// what it makes of them. The converter's `state` goes from block to block and comes back
    /// in the end. Each time `needed` says how many frames the next block has. What is left
    /// over is carried into the next call.
    pub fn process_all<S, N: Fn(&S) -> usize, C: Fn(S, Vec<T>) -> (S, Result<Vec<T>, String>)>(
        &mut self,
        state: S,
        interleaved: &[T],
        needed: N,
        convert: C,
    ) -> (r: (S, Result<Vec<T>, ResampleError>))
        requires
            old(self)@.channels > 0,
            forall|s: S| #[trigger] call_requires(needed, (&s,)),
            hungry(needed),
            forall|s: S, block: Vec<T>| #[trigger] call_requires(convert, (s, block)),
        ensures
            final(self)@.input_rate == old(self)@.input_rate,
            final(self)@.channels == old(self)@.channels,
            ({
                let outcome = match r.1 {
                    Ok(out) => Ok(out@),
                    Err(ResampleError::Backend(reason)) => Err(Some(reason@)),
                    Err(_) => Err(None),
                };
                processed(
                    needed,
                    convert,
                    old(self)@.channels,
                    state,
                    old(self)@.pending + interleaved@,
                    r.0,
                    final(self)@.pending,
                    outcome,
                )
            }),
    {
        self.extend(interleaved);
        let ghost came = self@.pending;
        let ghost start = state;
        let ghost mut run: Run<S, T> = Run { states: seq![start], blocks: seq![], outs: seq![] };
        let mut out: Vec<T> = Vec::new();
        let mut current = state;
        assert(flat(run.blocks) + self@.pending =~= came);
        loop
            invariant
                self@.channels == old(self)@.channels,
                self@.input_rate == old(self)@.input_rate,
                self@.channels > 0,
                came == old(self)@.pending + interleaved@,
                forall|s: S| #[trigger] call_requires(needed, (&s,)),
                hungry(needed),
                forall|s: S, block: Vec<T>| #[trigger] call_requires(convert, (s, block)),
                ran(needed, convert, old(self)@.channels, start, run),
                start == state,
                current == run.states.last(),
                flat(run.blocks) + self@.pending == came,
                out@ == flat(run.outs),
            decreases self@.pending.len(),
        {
            let n: usize = needed(&current);
            let ghost before = self@.pending;
            let ghost was = current;
            let channels: u16 = self.channels;
            match self.block(n) {
                None => {
                    assert(starved(needed, old(self)@.channels, current, self@.pending));
                    assert(processed(
                        needed,
                        convert,
                        old(self)@.channels,
                        state,
                        came,
                        current,
                        self@.pending,
                        Ok(out@),
                    ));
                    return (current, Ok(out));
                },
                Some(block) => {
                    let ghost taken = block@;
                    assert(before =~= taken + self@.pending);
                    assert(n * channels >= 1) by (nonlinear_arith)
                        requires
                            n > 0,
                            channels > 0,
                    ;
                    let (next, made) = convert(current, block);
                    match made {
                        Err(reason) => {
                            assert(came =~= flat(run.blocks) + taken + self@.pending);
                            assert(spoiled(
                                needed,
                                convert,
                                old(self)@.channels,
                                was,
                                taken,
                                next,
                                reason@,
                            ));
                            assert(stopped(
                                needed,
                                convert,
                                old(self)@.channels,
                                run,
                                came,
                                next,
                                self@.pending,
                                reason@,
                            ));
                            assert(processed(
                                needed,
                                convert,
                                old(self)@.channels,
                                state,
                                came,
                                next,
                                self@.pending,
                                Err(Some(reason@)),
                            ));
                            return (next, Err(ResampleError::Backend(reason)));
                        },
                        Ok(made) => {
                            append(&mut out, &made);
                            proof {
                                assert(made_of(
                                    needed,
                                    convert,
                                    old(self)@.channels,
                                    was,
                                    taken,
                                    made@,
                                    next,
                                ));
                                assert(run.blocks.push(taken).drop_last() =~= run.blocks);
                                assert(run.outs.push(made@).drop_last() =~= run.outs);
                                assert(flat(run.blocks.push(taken)) + self@.pending =~= flat(
                                    run.blocks,
                                ) + before);
                                run = Run {
                                    states: run.states.push(next),
                                    blocks: run.blocks.push(taken),
                                    outs: run.outs.push(made@),
                                };
                            }
                            current = next;
                        },
                    }
                },
            }
        }
    }
}

/// Sequences set one after the other.
pub open spec fn flat<T>(parts: Seq<Seq<T>>) -> Seq<T>
    decreases parts.len(),
{
    if parts.len() == 0 {
        seq![]
    } else {
        flat(parts.drop_last()) + parts.last()
    }
}

/// A converter always asks for some frames.
pub open spec fn hungry<S, N: Fn(&S) -> usize>(needed: N) -> bool {
    forall|s: S, n: usize| #[trigger] call_ensures(needed, (&s,), n) ==> n > 0
}

/// Out of the state `before` the converter asked for a block of this size, made `out` of it
/// and went into the state `after`.
pub open spec fn made_of<
    S,
    T,
    N: Fn(&S) -> usize,
    C: Fn(S, Vec<T>) -> (S, Result<Vec<T>, String>),
>(
    needed: N,
    convert: C,
    channels: u16,
    before: S,
    block: Seq<T>,
    out: Seq<T>,
    after: S,
) -> bool {
    exists|n: usize, given: Vec<T>, made: Vec<T>|
        #![trigger call_ensures(needed, (&before,), n), call_ensures(convert, (before, given), (after, Ok(made)))]
        {
            &&& call_ensures(needed, (&before,), n)
            &&& block.len() == n * channels
            &&& given@ == block
            &&& call_ensures(convert, (before, given), (after, Ok(made)))
            &&& made@ == out
        }
}

/// The work of a converter: the blocks that it was given, what it made of each, and its
/// states before, between and after them.
pub ghost struct Run<S, T> {
    pub states: Seq<S>,
    pub blocks: Seq<Seq<T>>,
    pub outs: Seq<Seq<T>>,
}

/// The converter did this work: it was given each block once, in order.
pub open spec fn ran<
    S,
    T,
    N: Fn(&S) -> usize,
    C: Fn(S, Vec<T>) -> (S, Result<Vec<T>, String>),
>(needed: N, convert: C, channels: u16, start: S, run: Run<S, T>) -> bool {
    &&& run.outs.len() == run.blocks.len()
    &&& run.states.len() == run.blocks.len() + 1
    &&& run.states[0] == start
    &&& forall|i: int|
        0 <= i < run.blocks.len() ==> made_of(
            needed,
            convert,
            channels,
            run.states[i],
            #[trigger] run.blocks[i],
            run.outs[i],
            run.states[i + 1],
        )
}

/// What remains is less than the block that the converter asks for.
pub open spec fn starved<S, T, N: Fn(&S) -> usize>(
    needed: N,
    channels: u16,
    state: S,
    rest: Seq<T>,
) -> bool {
    exists|n: usize| #[trigger] call_ensures(needed, (&state,), n) && rest.len() < n * channels
}

/// Out of the state `before` the converter refused a block of the size that it asked for, and
/// went into the state `after`.
pub open spec fn spoiled<
    S,
    T,
    N: Fn(&S) -> usize,
    C: Fn(S, Vec<T>) -> (S, Result<Vec<T>, String>),
>(
    needed: N,
    convert: C,
    channels: u16,
    before: S,
    block: Seq<T>,
    after: S,
    reason: Seq<char>,
) -> bool {
    exists|n: usize, given: Vec<T>, why: String|
        #![trigger call_ensures(needed, (&before,), n), call_ensures(convert, (before, given), (after, Err(why)))]
        {
            &&& call_ensures(needed, (&before,), n)
            &&& block.len() == n * channels
            &&& given@ == block
            &&& call_ensures(convert, (before, given), (after, Err(why)))
            &&& why@ == reason
        }
}

/// After the work `run` the converter refused the block that followed.
pub open spec fn stopped<
    S,
    T,
    N: Fn(&S) -> usize,
    C: Fn(S, Vec<T>) -> (S, Result<Vec<T>, String>),
>(
    needed: N,
    convert: C,
    channels: u16,
    run: Run<S, T>,
    came: Seq<T>,
    end: S,
    rest: Seq<T>,
    reason: Seq<char>,
) -> bool {
    exists|block: Seq<T>|
        {
            &&& #[trigger] spoiled(
                needed,
                convert,
                channels,
                run.states.last(),
                block,
                end,
                reason,
            )
            &&& came == flat(run.blocks) + block + rest
        }
}

/// A converter that began in the state `start` was given what came, block by block, ended in
/// the state `end` and left the rest. It stopped at a block that it refused, or where what
/// remained was too little for another one.
pub open spec fn processed<
    S,
    T,
    N: Fn(&S) -> usize,
    C: Fn(S, Vec<T>) -> (S, Result<Vec<T>, String>),
>(
    needed: N,
    convert: C,
    channels: u16,
    start: S,
    came: Seq<T>,
    end: S,
    rest: Seq<T>,
    outcome: Result<Seq<T>, Option<Seq<char>>>,
) -> bool {
    exists|run: Run<S, T>|
        {
            &&& #[trigger] ran(needed, convert, channels, start, run)
            &&& match outcome {
                Ok(out) => {
                    &&& out == flat(run.outs)
                    &&& came == flat(run.blocks) + rest
                    &&& end == run.states.last()
                    &&& starved(needed, channels, end, rest)
                },
                Err(Some(reason)) => stopped(
                    needed,
                    convert,
                    channels,
                    run,
                    came,
                    end,
                    rest,
                    reason,
                ),
                Err(None) => false,
            }
        }
}

fn append<T: Copy>(out: &mut Vec<T>, more: &Vec<T>)
    ensures
        final(out)@ == old(out)@ + more@,
{
    let ghost before = out@;
    let mut i: usize = 0;
    assert(before + more@.take(0) =~= before);
    while i < more.len()
        invariant
            i <= more@.len(),
            out@ == before + more@.take(i as int),
        decreases more.len() - i,
    {
        out.push(more[i]);
        assert(out@ =~= before + more@.take(i + 1));
        i += 1;
    }
    assert(more@.take(i as int) =~= more@);
}

fn mul_frames(frames: usize, channels: u16) -> (r: u128)
    ensures
        r == frames * channels,
{
    assert(frames * channels <= 0xffff_ffff_ffff_ffff * 0xffff) by (nonlinear_arith)
        requires
            frames <= 0xffff_ffff_ffff_ffff,
            channels <= 0xffff,
    ;
    assert(0 <= frames * channels) by (nonlinear_arith);
    (frames as u128) * (channels as u128)
}

/// What happens to a stream: samples arrive, or a block of so many samples is taken.
pub ghost enum Step<T> {
    Extend(Seq<T>),
    Block(nat),
}

/// The samples that arrived, in order.
pub open spec fn arrived<T>(steps: Seq<Step<T>>) -> Seq<T>
    decreases steps.len(),
{
    if steps.len() == 0 {
        seq![]
    } else {
        match steps.last() {
            Step::Extend(more) => arrived(steps.drop_last()) + more,
            Step::Block(_) => arrived(steps.drop_last()),
        }
    }
}

/// The samples that blocks took, in order, and those that remain.
pub open spec fn blocks<T>(steps: Seq<Step<T>>) -> (Seq<T>, Seq<T>)
    decreases steps.len(),
{
    if steps.len() == 0 {
        (seq![], seq![])
    } else {
        let (out, pending) = blocks(steps.drop_last());
        match steps.last() {
            Step::Extend(more) => (out, pending + more),
            Step::Block(n) => if n <= pending.len() {
                (out + pending.take(n as int), pending.skip(n as int))
            } else {
                (out, pending)
            },
        }
    }
}

/// However a stream is cut into arrivals and blocks, the blocks and what remains are what
/// arrived: nothing is lost, repeated or reordered at the boundaries.
pub proof fn nothing_is_lost_at_boundaries<T>(steps: Seq<Step<T>>)
    ensures
        blocks(steps).0 + blocks(steps).1 == arrived(steps),
    decreases steps.len(),
{
    if steps.len() > 0 {
        nothing_is_lost_at_boundaries(steps.drop_last());
        let (out, pending) = blocks(steps.drop_last());
        match steps.last() {
            Step::Extend(more) => {
                assert(out + (pending + more) =~= (out + pending) + more);
            },
            Step::Block(n) => {
                if n <= pending.len() {
                    assert((out + pending.take(n as int)) + pending.skip(n as int) =~= out
                        + pending);
                }
            },
        }
    } else {
        assert(blocks(steps).0 + blocks(steps).1 =~= arrived(steps));
    }
}

/// In one state a converter always asks for the same number of frames.
pub open spec fn asks_alike<S, N: Fn(&S) -> usize>(needed: N) -> bool {
    forall|s: S, m: usize, n: usize|
        #![trigger call_ensures(needed, (&s,), m), call_ensures(needed, (&s,), n)]
        call_ensures(needed, (&s,), m) && call_ensures(needed, (&s,), n) ==> m == n
}

/// In one state a converter always makes the same of a block and goes into the same state.
pub open spec fn converts_alike<S, T, C: Fn(S, Vec<T>) -> (S, Result<Vec<T>, String>)>(
    convert: C,
) -> bool {
    forall|s: S, a: Vec<T>, b: Vec<T>, x: S, y: S, u: Vec<T>, v: Vec<T>|
        #![trigger call_ensures(convert, (s, a), (x, Ok(u))), call_ensures(convert, (s, b), (y, Ok(v)))]
        a@ == b@ && call_ensures(convert, (s, a), (x, Ok(u))) && call_ensures(
            convert,
            (s, b),
            (y, Ok(v)),
        ) ==> x == y && u@ == v@
}

proof fn lemma_flat_joins<T>(a: Seq<Seq<T>>, b: Seq<Seq<T>>)
    ensures
        flat(a + b) == flat(a) + flat(b),
    decreases b.len(),
{
    if b.len() == 0 {
        assert(a + b =~= a);
        assert(flat(a) + flat(b) =~= flat(a));
    } else {
        lemma_flat_joins(a, b.drop_last());
        assert((a + b).drop_last() =~= a + b.drop_last());
        assert(flat(a) + (flat(b.drop_last()) + b.last()) =~= (flat(a) + flat(b.drop_last()))
            + b.last());
    }
}

proof fn lemma_flat_starts<T>(parts: Seq<Seq<T>>, k: int)
    requires
        0 <= k < parts.len(),
    ensures
        flat(parts.take(k + 1)) == flat(parts.take(k)) + parts[k],
        flat(parts) == flat(parts.take(k)) + parts[k] + flat(parts.skip(k + 1)),
{
    assert(parts.take(k + 1).drop_last() =~= parts.take(k));
    assert(parts =~= parts.take(k + 1) + parts.skip(k + 1));
    lemma_flat_joins(parts.take(k + 1), parts.skip(k + 1));
}

proof fn lemma_same_step<
    S,
    T,
    N: Fn(&S) -> usize,
    C: Fn(S, Vec<T>) -> (S, Result<Vec<T>, String>),
>(
    needed: N,
    convert: C,
    channels: u16,
    s: S,
    a: Seq<T>,
    b: Seq<T>,
    u: Seq<T>,
    v: Seq<T>,
    x: S,
    y: S,
)
    requires
        asks_alike(needed),
        converts_alike(convert),
        made_of(needed, convert, channels, s, a, u, x),
        made_of(needed, convert, channels, s, b, v, y),
    ensures
        a.len() == b.len(),
        a == b ==> u == v && x == y,
{
}

proof fn lemma_steps_agree<
    S,
    T,
    N: Fn(&S) -> usize,
    C: Fn(S, Vec<T>) -> (S, Result<Vec<T>, String>),
>(
    needed: N,
    convert: C,
    channels: u16,
    start: S,
    p: Run<S, T>,
    q: Run<S, T>,
    came: Seq<T>,
    p_rest: Seq<T>,
    q_rest: Seq<T>,
    k: int,
)
    requires
        asks_alike(needed),
        converts_alike(convert),
        ran(needed, convert, channels, start, p),
        ran(needed, convert, channels, start, q),
        came == flat(p.blocks) + p_rest,
        came == flat(q.blocks) + q_rest,
        0 <= k <= p.blocks.len(),
        k <= q.blocks.len(),
    ensures
        p.blocks.take(k) == q.blocks.take(k),
        p.outs.take(k) == q.outs.take(k),
        p.states[k] == q.states[k],
    decreases k,
{
    if k == 0 {
        assert(p.blocks.take(0) =~= q.blocks.take(0));
        assert(p.outs.take(0) =~= q.outs.take(0));
    } else {
        let i = k - 1;
        lemma_steps_agree(needed, convert, channels, start, p, q, came, p_rest, q_rest, i);
        let a = p.blocks[i];
        let b = q.blocks[i];
        lemma_same_step(
            needed,
            convert,
            channels,
            p.states[i],
            a,
            b,
            p.outs[i],
            q.outs[i],
            p.states[i + 1],
            q.states[i + 1],
        );
        lemma_flat_starts(p.blocks, i);
        lemma_flat_starts(q.blocks, i);
        let at = flat(p.blocks.take(i)).len() as int;
        assert(a =~= came.subrange(at, at + a.len()));
        assert(b =~= came.subrange(at, at + b.len()));
        assert(p.blocks.take(k) =~= p.blocks.take(i).push(a));
        assert(q.blocks.take(k) =~= q.blocks.take(i).push(b));
        assert(p.outs.take(k) =~= p.outs.take(i).push(p.outs[i]));
        assert(q.outs.take(k) =~= q.outs.take(i).push(q.outs[i]));
    }
}

proof fn lemma_no_more_steps<
    S,
    T,
    N: Fn(&S) -> usize,
    C: Fn(S, Vec<T>) -> (S, Result<Vec<T>, String>),
>(
    needed: N,
    convert: C,
    channels: u16,
    start: S,
    p: Run<S, T>,
    q: Run<S, T>,
    came: Seq<T>,
    p_rest: Seq<T>,
    q_rest: Seq<T>,
)
    requires
        asks_alike(needed),
        converts_alike(convert),
        ran(needed, convert, channels, start, p),
        ran(needed, convert, channels, start, q),
        came == flat(p.blocks) + p_rest,
        came == flat(q.blocks) + q_rest,
        starved(needed, channels, p.states.last(), p_rest),
    ensures
        q.blocks.len() <= p.blocks.len(),
{
    if q.blocks.len() > p.blocks.len() {
        let k = p.blocks.len() as int;
        lemma_steps_agree(needed, convert, channels, start, p, q, came, p_rest, q_rest, k);
        assert(p.blocks.take(k) =~= p.blocks);
        lemma_flat_starts(q.blocks, k);
        let block = q.blocks[k];
        assert(made_of(
            needed,
            convert,
            channels,
            q.states[k],
            block,
            q.outs[k],
            q.states[k + 1],
        ));
        let n = choose|n: usize| #[trigger]
            call_ensures(needed, (&p.states.last(),), n) && p_rest.len() < n * channels;
        assert(call_ensures(needed, (&q.states[k],), n));
        assert(block.len() == n * channels);
        assert(came.len() == flat(p.blocks).len() + p_rest.len());
        assert(came.len() >= flat(q.blocks).len() >= flat(p.blocks).len() + block.len());
    }
}

/// Streaming through two calls gives what one call gives: for a converter whose state decides
/// what it asks for and makes, the two outputs joined are the output of one call on all that
/// came, the converter ends in the same state, and the same samples are left over.
pub proof fn two_calls_are_one<
    S,
    T,
    N: Fn(&S) -> usize,
    C: Fn(S, Vec<T>) -> (S, Result<Vec<T>, String>),
>(
    needed: N,
    convert: C,
    channels: u16,
    start: S,
    pending: Seq<T>,
    a: Seq<T>,
    b: Seq<T>,
    middle: S,
    carried: Seq<T>,
    first: Seq<T>,
    end: S,
    rest: Seq<T>,
    second: Seq<T>,
    once_end: S,
    once_rest: Seq<T>,
    once: Seq<T>,
)
    requires
        asks_alike(needed),
        converts_alike(convert),
        processed(needed, convert, channels, start, pending + a, middle, carried, Ok(first)),
        processed(needed, convert, channels, middle, carried + b, end, rest, Ok(second)),
        processed(
            needed,
            convert,
            channels,
            start,
            pending + (a + b),
            once_end,
            once_rest,
            Ok(once),
        ),
    ensures
        once == first + second,
        once_end == end,
        once_rest == rest,
{
    let p = choose|run: Run<S, T>|
        {
            &&& #[trigger] ran(needed, convert, channels, start, run)
            &&& first == flat(run.outs)
            &&& pending + a == flat(run.blocks) + carried
            &&& middle == run.states.last()
            &&& starved(needed, channels, middle, carried)
        };
    let q = choose|run: Run<S, T>|
        {
            &&& #[trigger] ran(needed, convert, channels, middle, run)
            &&& second == flat(run.outs)
            &&& carried + b == flat(run.blocks) + rest
            &&& end == run.states.last()
            &&& starved(needed, channels, end, rest)
        };
    let w = choose|run: Run<S, T>|
        {
            &&& #[trigger] ran(needed, convert, channels, start, run)
            &&& once == flat(run.outs)
            &&& pending + (a + b) == flat(run.blocks) + once_rest
            &&& once_end == run.states.last()
            &&& starved(needed, channels, once_end, once_rest)
        };
    let both = Run {
        states: p.states + q.states.drop_first(),
        blocks: p.blocks + q.blocks,
        outs: p.outs + q.outs,
    };
    let n = p.blocks.len() as int;
    assert forall|i: int| 0 <= i < both.blocks.len() implies made_of(
        needed,
        convert,
        channels,
        both.states[i],
        #[trigger] both.blocks[i],
        both.outs[i],
        both.states[i + 1],
    ) by {
        if i < n {
            assert(both.blocks[i] == p.blocks[i]);
        } else {
            assert(both.blocks[i] == q.blocks[i - n]);
            assert(both.states[i] == q.states[i - n]);
        }
    }
    assert(ran(needed, convert, channels, start, both));
    lemma_flat_joins(p.blocks, q.blocks);
    lemma_flat_joins(p.outs, q.outs);
    let came = pending + (a + b);
    assert(came =~= (pending + a) + b);
    assert((flat(p.blocks) + carried) + b =~= flat(p.blocks) + (carried + b));
    assert(came =~= flat(both.blocks) + rest);
    assert(both.states.last() == end);
    lemma_no_more_steps(needed, convert, channels, start, both, w, came, rest, once_rest);
    lemma_no_more_steps(needed, convert, channels, start, w, both, came, once_rest, rest);
    let k = both.blocks.len() as int;
    lemma_steps_agree(needed, convert, channels, start, both, w, came, rest, once_rest, k);
    assert(both.blocks.take(k) =~= both.blocks && w.blocks.take(k) =~= w.blocks);
    assert(both.outs.take(k) =~= both.outs && w.outs.take(k) =~= w.outs);
    assert(rest =~= came.skip(flat(both.blocks).len() as int));
    assert(once_rest =~= came.skip(flat(w.blocks).len() as int));
}

/// The unsigned number with the same sixteen bits.
pub open spec fn bits(x: i16) -> int {
    if x < 0 {
        x + 0x10000
    } else {
        x as int
    }
}

/// The bytes of sixteen bits, the low one first.
pub open spec fn sample_bytes(samples: Seq<i16>) -> Seq<u8> {
    Seq::new(
        2 * samples.len(),
        |i: int|
            if i % 2 == 0 {
                (bits(samples[i / 2]) % 256) as u8
            } else {
                (bits(samples[i / 2]) / 256) as u8
            },
    )
}

/// Channel folding and sample formats.
#[derive(Debug)]
pub struct Downmixer;

impl Downmixer {
    /// One sample for each frame, made by `average`. A frame that is not complete is left
    /// out; without frames of several channels there is nothing to fold.
    pub fn to_mono<T: Copy, F: Fn(&[T]) -> T>(
        interleaved: &[T],
        channels: u16,
        average: F,
    ) -> (r: Vec<T>)
        requires
            forall|frame: &[T]| frame@.len() == channels ==> call_requires(average, (frame,)),
        ensures
            channels <= 1 ==> r@ == interleaved@,
            channels > 1 ==> r@.len() == interleaved@.len() / channels as nat,
            channels > 1 ==> forall|i: int|
                0 <= i < r@.len() ==> folded(
                    average,
                    interleaved@.subrange(i * channels, i * channels + channels),
                    #[trigger] r@[i],
                ),
            mono_of(average, channels, interleaved@, r@),
    {
        let n: usize = interleaved.len();
        let mut out: Vec<T> = Vec::new();
        if channels <= 1 {
            let mut i: usize = 0;
            while i < n
                invariant
                    n == interleaved@.len(),
                    i <= n,
                    out@ == interleaved@.take(i as int),
                decreases n - i,
            {
                out.push(interleaved[i]);
                assert(out@ =~= interleaved@.take(i + 1));
                i += 1;
            }
            assert(interleaved@.take(n as int) =~= interleaved@);
            return out;
        }
        let ch: usize = channels as usize;
        let mut at: usize = 0;
        assert(at == 0 * ch) by (nonlinear_arith)
            requires
                at == 0,
        ;
        while n - at >= ch
            invariant
                n == interleaved@.len(),
                ch == channels,
                ch > 1,
                at <= n,
                at == out@.len() * ch,
                forall|frame: &[T]| frame@.len() == channels ==> call_requires(average, (frame,)),
                forall|i: int|
                    0 <= i < out@.len() ==> folded(
                        average,
                        interleaved@.subrange(i * channels, i * channels + channels),
                        #[trigger] out@[i],
                    ),
            decreases n - at,
        {
            let frame = vstd::slice::slice_subrange(interleaved, at, at + ch);
            let sample = average(frame);
            let ghost k = out@.len() as int;
            assert(folded(
                average,
                interleaved@.subrange(k * channels, k * channels + channels),
                sample,
            ));
            out.push(sample);
            assert((k + 1) * ch == k * ch + ch) by (nonlinear_arith);
            at += ch;
        }
        proof {
            let k = out@.len() as int;
            vstd::arithmetic::div_mod::lemma_fundamental_div_mod_converse(
                n as int,
                ch as int,
                k,
                n - at,
            );
        }
        out
    }

    /// The samples as bytes for a provider's socket, the low byte of each first.
    pub fn to_le_bytes(samples: &[i16]) -> (r: Vec<u8>)
        ensures
            r@ == sample_bytes(samples@),
    {
        let mut out: Vec<u8> = Vec::new();
        let mut i: usize = 0;
        while i < samples.len()
            invariant
                i <= samples@.len(),
                out@ == sample_bytes(samples@.take(i as int)),
            decreases samples.len() - i,
        {
            let x: i16 = samples[i];
            let u: u32 = if x < 0 {
                (x as i32 + 0x10000) as u32
            } else {
                x as u32
            };
            let ghost sofar = out@;
            out.push((u % 256) as u8);
            out.push((u / 256) as u8);
            proof {
                let more = samples@.take(i + 1);
                assert(sofar.len() == 2 * i);
                assert(out@.len() == sample_bytes(more).len());
                assert forall|j: int| 0 <= j < out@.len() implies out@[j] == sample_bytes(
                    more,
                )[j] by {
                    if j < sofar.len() {
                        assert(sofar[j] == sample_bytes(samples@.take(i as int))[j]);
                        assert(j / 2 < i);
                    } else {
                        assert(j / 2 == i);
                    }
                }
                assert(out@ =~= sample_bytes(more));
            }
            i += 1;
        }
        assert(samples@.take(i as int) =~= samples@);
        out
    }
}

/// `samples` are what `average` makes of the complete frames, one after the other; samples of
/// one channel are themselves.
pub open spec fn mono_of<T, F: Fn(&[T]) -> T>(
    average: F,
    channels: u16,
    interleaved: Seq<T>,
    samples: Seq<T>,
) -> bool {
    &&& channels <= 1 ==> samples == interleaved
    &&& channels > 1 ==> samples.len() == interleaved.len() / channels as nat
    &&& channels > 1 ==> forall|i: int|
        0 <= i < samples.len() ==> folded(
            average,
            interleaved.subrange(i * channels, i * channels + channels),
            #[trigger] samples[i],
        )
}

/// `sample` is what `average` makes of a frame.
pub open spec fn folded<T, F: Fn(&[T]) -> T>(average: F, frame: Seq<T>, sample: T) -> bool {
    exists|slice: &[T]| slice@ == frame && #[trigger] call_ensures(average, (slice,), sample)
}

proof fn lemma_bytes_of_one(samples: Seq<i16>, i: int)
    requires
        0 <= i < samples.len(),
    ensures
        bits(samples[i]) == sample_bytes(samples)[2 * i] + 256 * sample_bytes(samples)[2 * i + 1],
{
    let x: i16 = samples[i];
    assert(0 <= bits(x) < 0x10000);
    assert((2 * i) / 2 == i && (2 * i + 1) / 2 == i && (2 * i) % 2 == 0 && (2 * i + 1) % 2 == 1);
    assert(sample_bytes(samples)[2 * i] == (bits(x) % 256) as u8);
    assert(sample_bytes(samples)[2 * i + 1] == (bits(x) / 256) as u8);
}

/// No two sequences of samples have the same bytes.
pub proof fn bytes_tell_samples_apart(a: Seq<i16>, b: Seq<i16>)
    requires
        sample_bytes(a) == sample_bytes(b),
    ensures
        a == b,
{
    assert(sample_bytes(a).len() == 2 * a.len());
    assert(sample_bytes(b).len() == 2 * b.len());
    assert forall|i: int| 0 <= i < a.len() implies a[i] == b[i] by {
        lemma_bytes_of_one(a, i);
        lemma_bytes_of_one(b, i);
    }
    assert(a =~= b);
}

/// Two bytes for each sample give it back: the low one and 256 times the high one, as a number
/// of sixteen bits with a sign.
pub proof fn bytes_give_the_samples_back(samples: Seq<i16>)
    ensures
        sample_bytes(samples).len() == 2 * samples.len(),
        forall|i: int|
            0 <= i < samples.len() ==> (#[trigger] samples[i]) as int == {
                let both = sample_bytes(samples)[2 * i] as int + 256 * sample_bytes(samples)[2 * i
                    + 1] as int;
                if both < 32_768 {
                    both
                } else {
                    both - 65_536
                }
            },
{
    assert forall|i: int| 0 <= i < samples.len() implies (#[trigger] samples[i]) as int == {
        let both = sample_bytes(samples)[2 * i] as int + 256 * sample_bytes(samples)[2 * i
            + 1] as int;
        if both < 32_768 {
            both
        } else {
            both - 65_536
        }
    } by {
        lemma_bytes_of_one(samples, i);
    }
}

/// A rate is plausible from 4 kHz to 768 kHz, both counted.
pub proof fn plausible_rates_have_bounds(rate: u32)
    ensures
        plausible_rate(rate) <==> 4_000 <= rate && rate <= 768_000,
{
}

proof fn lemma_outs_are_blocks<
    S,
    T,
    N: Fn(&S) -> usize,
    C: Fn(S, Vec<T>) -> (S, Result<Vec<T>, String>),
>(needed: N, convert: C, channels: u16, start: S, run: Run<S, T>)
    requires
        ran(needed, convert, channels, start, run),
        forall|s: S, given: Vec<T>, next: S, made: Vec<T>| #[trigger]
            call_ensures(convert, (s, given), (next, Ok(made))) ==> made@ == given@,
    ensures
        run.outs == run.blocks,
{
    assert forall|i: int| 0 <= i < run.outs.len() implies run.outs[i] == run.blocks[i] by {
        assert(made_of(
            needed,
            convert,
            channels,
            run.states[i],
            run.blocks[i],
            run.outs[i],
            run.states[i + 1],
        ));
    }
    assert(run.outs =~= run.blocks);
}

/// Through a converter that hands blocks back unchanged, what comes out and what is left over
/// are together what came: every sample is converted once, in order, and none is added.
pub proof fn every_sample_is_converted_once<
    S,
    T,
    N: Fn(&S) -> usize,
    C: Fn(S, Vec<T>) -> (S, Result<Vec<T>, String>),
>(
    needed: N,
    convert: C,
    channels: u16,
    start: S,
    came: Seq<T>,
    end: S,
    rest: Seq<T>,
    out: Seq<T>,
)
    requires
        processed(needed, convert, channels, start, came, end, rest, Ok(out)),
        forall|s: S, given: Vec<T>, next: S, made: Vec<T>| #[trigger]
            call_ensures(convert, (s, given), (next, Ok(made))) ==> made@ == given@,
    ensures
        out + rest == came,
{
    let run = choose|run: Run<S, T>|
        {
            &&& #[trigger] ran(needed, convert, channels, start, run)
            &&& out == flat(run.outs)
            &&& came == flat(run.blocks) + rest
            &&& end == run.states.last()
            &&& starved(needed, channels, end, rest)
        };
    lemma_outs_are_blocks(needed, convert, channels, start, run);
}

/// What is left over is less than the next block that the converter asks for: no complete
/// block waits.
pub proof fn no_complete_block_waits<
    S,
    T,
    N: Fn(&S) -> usize,
    C: Fn(S, Vec<T>) -> (S, Result<Vec<T>, String>),
>(
    needed: N,
    convert: C,
    channels: u16,
    start: S,
    came: Seq<T>,
    end: S,
    rest: Seq<T>,
    out: Seq<T>,
    n: usize,
)
    requires
        processed(needed, convert, channels, start, came, end, rest, Ok(out)),
        asks_alike(needed),
        call_ensures(needed, (&end,), n),
    ensures
        rest.len() < n * channels,
{
}

/// A failure is one that the converter itself gave for a block, with the reason that it gave.
pub proof fn failures_come_from_the_converter<
    S,
    T,
    N: Fn(&S) -> usize,
    C: Fn(S, Vec<T>) -> (S, Result<Vec<T>, String>),
>(
    needed: N,
    convert: C,
    channels: u16,
    start: S,
    came: Seq<T>,
    end: S,
    rest: Seq<T>,
    why: Option<Seq<char>>,
)
    requires
        processed(needed, convert, channels, start, came, end, rest, Err(why)),
    ensures
        why is Some,
        exists|s: S, given: Vec<T>, reason: String|
            reason@ == why->0 && #[trigger] call_ensures(
                convert,
                (s, given),
                (end, Err::<Vec<T>, String>(reason)),
            ),
{
    let reason = why->0;
    let run = choose|run: Run<S, T>|
        {
            &&& #[trigger] ran(needed, convert, channels, start, run)
            &&& stopped(needed, convert, channels, run, came, end, rest, reason)
        };
    let block = choose|block: Seq<T>|
        {
            &&& #[trigger] spoiled(
                needed,
                convert,
                channels,
                run.states.last(),
                block,
                end,
                reason,
            )
            &&& came == flat(run.blocks) + block + rest
        };
    assert(spoiled(needed, convert, channels, run.states.last(), block, end, reason));
}

/// A sequence of sequences holds the elements of each, one sequence after the other.
pub proof fn flat_joins_all_parts<T>(parts: Seq<Seq<T>>, more: Seq<T>)
    ensures
        flat(Seq::<Seq<T>>::empty()) == Seq::<T>::empty(),
        flat(parts.push(more)) == flat(parts) + more,
{
    assert(parts.push(more).drop_last() =~= parts);
}

/// Samples that arrive follow those that wait, and a block takes the first of them: the block
/// and what is left are what waited, in order, whatever the sizes.
pub proof fn blocks_take_what_waits<T>(stream: Stream<T>, more: Seq<T>, frames: usize)
    ensures
        extended(stream, more).pending == stream.pending + more,
        extended(stream, more).channels == stream.channels,
        after_block(stream, frames).0 is Some <==> stream.pending.len() >= frames * stream.channels,
        after_block(stream, frames).0 matches Some(block) ==> {
            &&& block.len() == frames * stream.channels
            &&& block + after_block(stream, frames).1.pending == stream.pending
        },
        after_block(stream, frames).0 is None ==> after_block(stream, frames).1 == stream,
        after_block(stream, frames).1.channels == stream.channels,
        after_block(stream, frames).1.input_rate == stream.input_rate,
{
    let n = frames * stream.channels;
    assert(n >= 0) by (nonlinear_arith)
        requires
            n == frames * stream.channels,
    ;
    if stream.pending.len() >= n {
        assert(stream.pending.take(n) + stream.pending.skip(n) =~= stream.pending);
    }
}

/// One more complete frame gives one more sample, what `average` makes of that frame, and the
/// samples before it are those of the frames before it, however many there are.
pub proof fn every_frame_gives_a_sample<T, F: Fn(&[T]) -> T>(
    average: F,
    channels: u16,
    interleaved: Seq<T>,
    frame: Seq<T>,
    samples: Seq<T>,
)
    requires
        channels > 1,
        interleaved.len() % channels as nat == 0,
        frame.len() == channels,
        mono_of(average, channels, interleaved + frame, samples),
    ensures
        samples.len() > 0,
        folded(average, frame, samples.last()),
        mono_of(average, channels, interleaved, samples.drop_last()),
{
    let c = channels as int;
    let n = interleaved.len() as int;
    let k = n / c;
    let all = interleaved + frame;
    vstd::arithmetic::div_mod::lemma_fundamental_div_mod(n, c);
    assert(c * k == n);
    assert((k + 1) * c == k * c + c) by (nonlinear_arith);
    assert(k * c == c * k) by (nonlinear_arith);
    vstd::arithmetic::div_mod::lemma_fundamental_div_mod_converse(n + c, c, k + 1, 0);
    assert(samples.len() == k + 1);
    assert(samples[k] == samples.last());
    assert(all.subrange(k * channels, k * channels + channels) =~= frame);
    let before = samples.drop_last();
    assert forall|i: int| 0 <= i < before.len() implies folded(
        average,
        interleaved.subrange(i * channels, i * channels + channels),
        #[trigger] before[i],
    ) by {
        assert(before[i] == samples[i]);
        assert(0 <= i * c && i * c + c <= n) by (nonlinear_arith)
            requires
                0 <= i < k,
                c * k == n,
                c > 0,
        ;
        assert(interleaved.subrange(i * channels, i * channels + channels) =~= all.subrange(
            i * channels,
            i * channels + channels,
        ));
    }
}

/// Samples of one channel are handed on as they are.
pub proof fn one_channel_is_left_alone<T, F: Fn(&[T]) -> T>(
    average: F,
    channels: u16,
    interleaved: Seq<T>,
    samples: Seq<T>,
)
    requires
        channels <= 1,
    ensures
        mono_of(average, channels, interleaved, samples) <==> samples == interleaved,
{
}

/// Every block that the converter is given has as many samples as it asked for.
pub proof fn blocks_have_the_size_asked_for<
    S,
    T,
    N: Fn(&S) -> usize,
    C: Fn(S, Vec<T>) -> (S, Result<Vec<T>, String>),
>(needed: N, convert: C, channels: u16, start: S, run: Run<S, T>, i: int, n: usize)
    requires
        ran(needed, convert, channels, start, run),
        asks_alike(needed),
        0 <= i < run.blocks.len(),
        call_ensures(needed, (&run.states[i],), n),
    ensures
        run.blocks[i].len() == n * channels,
        run.states[0] == start,
{
    assert(made_of(
        needed,
        convert,
        channels,
        run.states[i],
        run.blocks[i],
        run.outs[i],
        run.states[i + 1],
    ));
}

/// A block of output is ten milliseconds at the provider's rate.
pub proof fn blocks_are_ten_milliseconds()
    ensures
        100 * CHUNK_FRAMES == TARGET_RATE,
        TARGET_RATE == 16_000,
{
}

/// The sample of a frame is what `average` gives for that very frame, of any width.
pub proof fn frames_are_folded_by_the_average<T, F: Fn(&[T]) -> T>(
    average: F,
    frame: Seq<T>,
    sample: T,
    expected: T,
)
    requires
        folded(average, frame, sample),
        forall|slice: &[T], given: T|
            slice@ == frame && #[trigger] call_ensures(average, (slice,), given) ==> given
                == expected,
    ensures
        sample == expected,
{
}

} // verus!
