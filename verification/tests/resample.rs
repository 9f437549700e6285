//! Audio on its way to 16 kHz mono. What is out of the speech band must be filtered out, not
//! folded into it, whatever rate the microphone has.
use murmur::resample::{Downmixer, ResampleError, Resampler16k, CHUNK_FRAMES, TARGET_RATE};
use rubato::audioadapter_buffers::direct::InterleavedSlice;
use rubato::{Fft, FixedSync, Resampler};

struct Converter {
    stream: Resampler16k<f32>,
    inner: Option<Fft<f32>>,
}

impl Converter {
    fn new(rate: u32, channels: u16) -> Self {
        let inner = Fft::<f32>::new(
            rate as usize,
            TARGET_RATE as usize,
            CHUNK_FRAMES,
            channels as usize,
            FixedSync::Output,
        );
        Converter {
            stream: Resampler16k::new(rate, channels).unwrap(),
            inner: Some(inner.unwrap()),
        }
    }

    fn process_all(&mut self, interleaved: &[f32]) -> Vec<f32> {
        let channels = self.stream.channels() as usize;
        let needed = |inner: &Fft<f32>| inner.input_frames_next();
        let convert = |mut inner: Fft<f32>, block: Vec<f32>| {
            let frames = block.len() / channels;
            let adapter = InterleavedSlice::new(&block, channels, frames).unwrap();
            let out = inner.process(&adapter, None).unwrap().take_data();
            (inner, Ok(out))
        };
        let inner = self.inner.take().unwrap();
        let (inner, out) = self.stream.process_all(inner, interleaved, needed, convert);
        self.inner = Some(inner);
        out.unwrap()
    }
}

fn average(frame: &[f32]) -> f32 {
    frame.iter().sum::<f32>() / frame.len() as f32
}

/// Energy at `freq` in `samples`, as a fraction of full scale.
///
/// A single-bin Goertzel rather than a full FFT: one number is wanted, and
/// pulling in an FFT crate for a test assertion is not worth it.
fn tone_level(samples: &[f32], rate: f32, freq: f32) -> f32 {
    let k = 2.0 * std::f32::consts::PI * freq / rate;
    let (mut re, mut im) = (0.0f32, 0.0f32);
    for (n, s) in samples.iter().enumerate() {
        let phase = k * n as f32;
        re += s * phase.cos();
        im += s * phase.sin();
    }
    2.0 * (re * re + im * im).sqrt() / samples.len() as f32
}

fn db(v: f32) -> f32 {
    20.0 * v.max(1e-12).log10()
}

fn sine(rate: u32, freq: f32, seconds: f32, amp: f32) -> Vec<f32> {
    let n = (rate as f32 * seconds) as usize;
    (0..n)
        .map(|i| (2.0 * std::f32::consts::PI * freq * i as f32 / rate as f32).sin() * amp)
        .collect()
}

#[test]
fn a_passband_tone_survives_downsampling() {
    let input = sine(48_000, 1_000.0, 1.0, 0.5);
    let mut r = Converter::new(48_000, 1);
    let out = r.process_all(&input);

    // 48k -> 16k is 3:1, so a second of input is a second of output.
    let expected = 16_000;
    assert!(
        (out.len() as i64 - expected as i64).abs() < 500,
        "expected ~{expected} frames, got {}",
        out.len()
    );

    let level = tone_level(&out[800..], 16_000.0, 1_000.0);
    assert!(
        db(level) > -12.0,
        "the 1 kHz tone must survive; got {:.1} dBFS",
        db(level)
    );
}

/// The test that separates a real resampler from a decimator.
///
/// 15 kHz is above the 8 kHz Nyquist limit at 16 kHz. A correct
/// implementation filters it out before decimating. A naive one folds it to
/// |16000 - 15000| = 1000 Hz at nearly full amplitude — right in the middle of
/// the speech band, and completely inaudible as a bug.
#[test]
fn an_out_of_band_tone_is_filtered_rather_than_folded_into_the_speech_band() {
    let input = sine(48_000, 15_000.0, 1.0, 0.5);
    let mut r = Converter::new(48_000, 1);
    let out = r.process_all(&input);

    // Skip the filter's start-up transient.
    let steady = &out[1_600..];
    let alias = tone_level(steady, 16_000.0, 1_000.0);
    let total: f32 = steady.iter().map(|s| s.abs()).sum::<f32>() / steady.len() as f32;

    assert!(
        db(alias) < -60.0,
        "15 kHz folded back to 1 kHz at {:.1} dBFS — the anti-alias filter is \
         missing or ineffective. A decimator would show roughly -6 dBFS here.",
        db(alias)
    );
    assert!(
        db(total) < -40.0,
        "out-of-band energy should be removed, not merely displaced; mean \
         level {:.1} dBFS",
        db(total)
    );
}

#[test]
fn handles_the_rates_a_bluetooth_headset_actually_produces() {
    // 44.1 kHz normal, 24/16 kHz once HFP engages mid-meeting. None of these
    // is an integer ratio to 16 kHz, which is why a fixed 3:1 decimator is
    // not an option.
    for rate in [44_100u32, 32_000, 24_000, 22_050, 16_000] {
        let input = sine(rate, 1_000.0, 0.5, 0.5);
        let mut r = Converter::new(rate, 1);
        let out = r.process_all(&input);

        let expected = 8_000i64; // 0.5s at 16 kHz
        assert!(
            (out.len() as i64 - expected).abs() < 400,
            "{rate} Hz -> expected ~{expected} frames, got {}",
            out.len()
        );
        let level = tone_level(&out[800..], 16_000.0, 1_000.0);
        assert!(
            db(level) > -12.0,
            "{rate} Hz: 1 kHz tone came out at {:.1} dBFS",
            db(level)
        );
    }
}

#[test]
fn stereo_is_downmixed_to_mono_without_clipping() {
    // Two identical channels must average to the same signal, not sum to
    // double it — summing would clip anything above half scale, and the tap
    // routinely delivers louder than that.
    let mono = sine(48_000, 1_000.0, 0.2, 0.8);
    let mut interleaved = Vec::with_capacity(mono.len() * 2);
    for s in &mono {
        interleaved.push(*s);
        interleaved.push(*s);
    }

    let out = Downmixer::to_mono(&interleaved, 2, average);
    assert_eq!(out.len(), mono.len());
    for (a, b) in out.iter().zip(&mono) {
        assert!((a - b).abs() < 1e-6, "{a} vs {b}");
    }
    assert!(out.iter().all(|s| s.abs() <= 1.0), "downmix must not clip");
}

#[test]
fn opposite_phase_channels_cancel_rather_than_wrapping() {
    let mut interleaved = Vec::new();
    for i in 0..1000 {
        let v = (i as f32 / 1000.0) - 0.5;
        interleaved.push(v);
        interleaved.push(-v);
    }
    let out = Downmixer::to_mono(&interleaved, 2, average);
    assert!(
        out.iter().all(|s| s.abs() < 1e-6),
        "equal and opposite channels must cancel"
    );
}

#[test]
fn a_resampler_reports_its_output_rate_and_channel_count() {
    let r = Resampler16k::<f32>::new(48_000, 2).unwrap();
    assert_eq!(r.output_rate(), 16_000);
    assert_eq!(r.channels(), 2);
}

#[test]
fn an_implausible_input_rate_is_a_typed_error() {
    assert!(Resampler16k::<f32>::new(0, 1).is_err());
}

#[test]
fn implausible_streams_are_told_apart() {
    for rate in [0, 3_999, 768_001, u32::MAX] {
        let error = Resampler16k::<f32>::new(rate, 1).unwrap_err();
        assert!(matches!(error, ResampleError::BadRate(r) if r == rate));
    }
    for rate in [4_000, 44_100, 768_000] {
        assert_eq!(Resampler16k::<f32>::new(rate, 1).unwrap().input_rate(), rate);
    }
    let error = Resampler16k::<f32>::new(48_000, 0).unwrap_err();
    assert!(matches!(error, ResampleError::BadChannels(0)));
    assert_eq!(error.message(), "implausible channel count: 0");
    assert_eq!(
        ResampleError::BadRate(12).message(),
        "implausible input sample rate: 12 Hz"
    );
    assert_eq!(
        ResampleError::Backend("why".into()).message(),
        "resampler failed: why"
    );
}

#[test]
fn blocks_lose_nothing_at_the_boundaries() {
    let mut stream = Resampler16k::<u32>::new(48_000, 2).unwrap();
    let mut out = Vec::new();
    let mut next = 0;
    for size in [1, 5, 0, 7, 2, 12] {
        let arrived: Vec<u32> = (next..next + size).collect();
        next += size;
        stream.extend(&arrived);
        while let Some(block) = stream.block(3) {
            assert_eq!(block.len(), 6);
            out.extend(block);
        }
    }
    assert_eq!(out, (0..24).collect::<Vec<u32>>());
    assert_eq!(stream.block(2), None);
    assert_eq!(stream.block(usize::MAX), None);
    assert_eq!(stream.block(1), Some(vec![24, 25]));
    assert_eq!(stream.block(0), Some(vec![]));
}

/// A converter that asks for two frames at first and for three from then on, doubles each
/// sample and remembers what it was given.
fn asks(fed: &Vec<Vec<u32>>) -> usize {
    if fed.is_empty() {
        2
    } else {
        3
    }
}

fn doubles(mut fed: Vec<Vec<u32>>, block: Vec<u32>) -> (Vec<Vec<u32>>, Result<Vec<u32>, String>) {
    let out = block.iter().map(|s| s * 2).collect();
    fed.push(block);
    (fed, Ok(out))
}

#[test]
fn whole_blocks_are_converted_once_and_the_rest_is_carried() {
    let mut stream = Resampler16k::<u32>::new(48_000, 1).unwrap();
    let (fed, out) = stream.process_all(vec![], &[1, 2, 3, 4, 5, 6], asks, doubles);
    assert_eq!(out.unwrap(), [2, 4, 6, 8, 10]);
    assert_eq!(fed, [vec![1, 2], vec![3, 4, 5]]);
    let (fed, out) = stream.process_all(fed, &[7], asks, doubles);
    assert_eq!(out.unwrap(), [0u32; 0]);
    assert_eq!(fed.len(), 2);
    let (fed, out) = stream.process_all(fed, &[8], asks, doubles);
    assert_eq!(out.unwrap(), [12, 14, 16]);
    assert_eq!(fed[2], [6, 7, 8]);
}

#[test]
fn two_calls_give_what_one_call_gives() {
    let samples: Vec<u32> = (0..20).collect();
    let mut once = Resampler16k::<u32>::new(48_000, 1).unwrap();
    let (once_fed, once_out) = once.process_all(vec![], &samples, asks, doubles);
    let once_out = once_out.unwrap();
    for cut in 0..=samples.len() {
        let mut twice = Resampler16k::<u32>::new(48_000, 1).unwrap();
        let (fed, first) = twice.process_all(vec![], &samples[..cut], asks, doubles);
        let (fed, second) = twice.process_all(fed, &samples[cut..], asks, doubles);
        assert_eq!([first.unwrap(), second.unwrap()].concat(), once_out);
        assert_eq!(fed, once_fed);
    }
}

#[test]
fn a_block_that_cannot_be_converted_ends_the_call() {
    let mut stream = Resampler16k::<u32>::new(48_000, 1).unwrap();
    let refuse = |fed: u32, block: Vec<u32>| {
        if block[0] > 2 {
            (fed + 1, Err("too loud".to_string()))
        } else {
            (fed + 1, Ok(block))
        }
    };
    let (fed, out) = stream.process_all(0, &[1, 2, 3, 4, 5], |_: &u32| 2, refuse);
    assert_eq!(out.unwrap_err().message(), "resampler failed: too loud");
    assert_eq!(fed, 2);
    assert_eq!(stream.block(1), Some(vec![5]));
}

#[test]
fn incomplete_frames_are_left_out_of_the_fold() {
    let sum = |frame: &[u32]| frame.iter().sum::<u32>();
    assert_eq!(Downmixer::to_mono(&[1, 2, 3, 4, 5], 2, sum), [3, 7]);
    assert_eq!(Downmixer::to_mono(&[1, 2, 3], 4, sum), [0u32; 0]);
    assert_eq!(Downmixer::to_mono(&[1, 2, 3], 1, sum), [1, 2, 3]);
    assert_eq!(Downmixer::to_mono(&[1, 2, 3], 0, sum), [1, 2, 3]);
}

#[test]
fn bytes_are_those_of_the_standard_library() {
    let samples = [0i16, 1, -1, 255, 256, -256, i16::MAX, i16::MIN];
    let bytes: Vec<u8> = samples.iter().flat_map(|s| s.to_le_bytes()).collect();
    assert_eq!(Downmixer::to_le_bytes(&samples), bytes);
}
