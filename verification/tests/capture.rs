use murmur::capture::{
    drain, may_start, on_frames, ring, Attempt, Delivery, Failure, Next, BUFFER_SAMPLES, CANCEL,
    FINISH, FINISH_MS, LONGEST_MS, RECORDING, SILENT_MS,
};

#[test]
fn frames_cross_the_handoff_in_order() {
    let (mut producer, mut consumer) = ring();
    let first: Vec<u32> = [0.25f32, -0.5].iter().map(|s| s.to_bits()).collect();
    let arrival = on_frames(&mut producer, &first);
    assert!(arrival.receiving && !arrival.failed);
    assert!(!on_frames(&mut producer, &[]).receiving);
    on_frames(&mut producer, &[7]);
    assert_eq!(drain(&mut consumer), [0.25f32.to_bits(), (-0.5f32).to_bits(), 7]);
    assert!(drain(&mut consumer).is_empty());
}

#[test]
fn a_full_handoff_fails_and_keeps_what_fitted() {
    let (mut producer, mut consumer) = ring();
    let frames: Vec<u32> = (0..BUFFER_SAMPLES as u32).collect();
    assert!(!on_frames(&mut producer, &frames).failed);
    let overflow = on_frames(&mut producer, &[1]);
    assert!(overflow.failed && overflow.receiving);
    assert_eq!(drain(&mut consumer), frames);
    assert!(!on_frames(&mut producer, &[1]).failed);
    assert_eq!(drain(&mut consumer), [1]);
}

#[test]
fn what_comes_out_is_what_went_in() {
    let (mut producer, mut consumer) = ring();
    let mut sent = Vec::new();
    let mut received = Vec::new();
    for round in 0..5_000u32 {
        let frames: Vec<u32> = (0..round % 97).map(|i| round * 100 + i).collect();
        assert!(!on_frames(&mut producer, &frames).failed);
        sent.extend(frames);
        if round % 3 == 0 {
            received.extend(drain(&mut consumer));
        }
    }
    received.extend(drain(&mut consumer));
    assert_eq!(received, sent);
}

#[test]
fn a_cancelled_start_opens_no_microphone() {
    assert_eq!(may_start(RECORDING), Ok(()));
    assert_eq!(may_start(CANCEL), Err(Failure::CancelledBeforeStart));
    assert_eq!(may_start(FINISH), Err(Failure::CancelledBeforeStart));
}

#[test]
fn release_stops_the_microphone_once_and_closes_the_stream() {
    let mut attempt = Attempt::begin(1_000);
    assert_eq!(attempt.tick(RECORDING, false, 1_010), Next::Capture);
    assert_eq!(attempt.capture(480, 1_010), Ok(()));
    assert_eq!(attempt.padding(48_000), 0);
    assert_eq!(attempt.delivery(160, true), Delivery { send: true, close: false });
    assert_eq!(attempt.delivery(0, true), Delivery { send: false, close: false });
    assert_eq!(attempt.tick(FINISH, false, 1_020), Next::Finish);
    assert_eq!(attempt.stop(true, 1_020), Ok(()));
    assert_eq!(attempt.capture(0, 9_000), Ok(()));
    assert_eq!(attempt.padding(48_000), 9_600);
    assert_eq!(attempt.delivery(160, true), Delivery { send: true, close: true });
    assert_eq!(attempt.delivery(160, false), Delivery { send: false, close: true });
    assert_eq!(attempt.tick(FINISH, false, 1_030), Next::Wait);
}

#[test]
fn each_way_to_fail_has_its_time_and_order() {
    let mut attempt = Attempt::begin(0);
    assert_eq!(attempt.tick(CANCEL, true, 5), Next::Fail(Failure::Cancelled));
    assert_eq!(attempt.tick(RECORDING, true, 5), Next::Fail(Failure::DeviceFailed));
    assert_eq!(attempt.tick(RECORDING, false, LONGEST_MS - 1), Next::Capture);
    assert_eq!(attempt.tick(RECORDING, false, LONGEST_MS), Next::Finish);
    assert_eq!(attempt.capture(0, SILENT_MS), Ok(()));
    assert_eq!(attempt.capture(0, SILENT_MS + 1), Err(Failure::Silent));
    assert_eq!(attempt.capture(1, SILENT_MS + 1), Ok(()));
    assert_eq!(attempt.heard, SILENT_MS + 1);
    assert_eq!(attempt.stop(false, 10), Err(Failure::StopFailed));
    assert_eq!(attempt.finished, None);
    attempt.stop(true, 10).unwrap();
    assert_eq!(attempt.tick(FINISH, false, 10 + FINISH_MS), Next::Wait);
    assert_eq!(
        attempt.tick(FINISH, true, 11 + FINISH_MS),
        Next::Fail(Failure::FinishTimedOut)
    );
}

#[test]
fn failures_say_what_happened() {
    for (failure, words) in [
        (Failure::CancelledBeforeStart, "Cancelled before microphone startup"),
        (
            Failure::CannotStart,
            "Cannot start microphone; check permission and input device",
        ),
        (Failure::UnsupportedFormat, "Unsupported microphone format"),
        (Failure::Cancelled, "Cancelled"),
        (Failure::FinishTimedOut, "Finalization timed out; no text inserted"),
        (
            Failure::DeviceFailed,
            "Audio buffer overflow or microphone failure; no text inserted",
        ),
        (Failure::StopFailed, "Microphone stop failed"),
        (
            Failure::Silent,
            "Microphone stopped delivering audio; no text inserted",
        ),
        (Failure::ConversionFailed, "Audio conversion failed"),
        (
            Failure::ProviderTooSlow,
            "Transcription cannot keep up; no text inserted",
        ),
    ] {
        assert_eq!(failure.message(), words);
    }
}
