use murmur::streaming::{
    authorization, kind_of, permit, Action, Conversation, Event, Failure, Kind, Segment, Wire,
};

const INTERIM: &str = r#"{"type":"Results","is_final":false,"speech_final":false,"channel":{"alternatives":[{"transcript":"wrong interim"}]}}"#;
const FINAL: &str = r#"{"type":"Results","is_final":true,"speech_final":true,"from_finalize":false,"channel":{"alternatives":[{"transcript":"Hello world."}]}}"#;
const METADATA: &str = r#"{"type":"Metadata","duration":0.01}"#;

fn segment(text: &str, is_final: bool) -> Option<Segment> {
    Some(Segment {
        id: "a".into(),
        revision: 0,
        text: text.into(),
        is_final,
    })
}

fn closed(now: u64) -> Conversation {
    let mut talk = Conversation::new();
    let action = talk.react(&Event::AudioEnd);
    assert!(matches!(action, Action::SendClose));
    talk.sent(&action, true, now, 250).unwrap();
    talk
}

#[test]
fn a_trailing_final_is_waited_for_and_interim_is_never_committed() {
    let mut talk = closed(0);
    let interim = Wire::read(INTERIM).unwrap();
    assert!(!talk.wants_news(&interim) && !talk.wants_last(&interim));
    assert_eq!(talk.receive(&interim, Ok(segment("wrong interim", false)), None), None);
    let last = Wire::read(FINAL).unwrap();
    assert!(talk.wants_news(&last) && !talk.wants_last(&last));
    assert_eq!(talk.receive(&last, Ok(segment("Hello world.", true)), None), None);
    let metadata = Wire::read(METADATA).unwrap();
    assert!(!talk.wants_news(&metadata) && talk.wants_last(&metadata));
    assert_eq!(
        talk.receive(&metadata, Ok(None), None),
        Some(Ok("Hello world.".into()))
    );
}

#[test]
fn metadata_before_the_end_completes_nothing() {
    let mut talk = Conversation::new();
    let metadata = Wire::read(METADATA).unwrap();
    assert!(!talk.wants_last(&metadata));
    assert_eq!(talk.receive(&metadata, Ok(None), segment("early", true)), None);
    let mut talk = closed(0);
    assert_eq!(talk.receive(&metadata, Ok(None), None), Some(Ok("".into())));
}

#[test]
fn what_was_held_back_is_committed_at_the_end() {
    let mut talk = closed(0);
    let metadata = Wire::read(METADATA).unwrap();
    assert_eq!(
        talk.receive(&metadata, Ok(None), segment(" held back ", true)),
        Some(Ok("held back".into()))
    );
}

#[test]
fn an_interim_only_session_gives_empty_text() {
    let mut talk = closed(0);
    let news = Wire { kind: Kind::Other, is_final: true };
    assert_eq!(talk.receive(&news, Ok(segment("never", false)), None), None);
    let metadata = Wire::read(METADATA).unwrap();
    assert_eq!(
        talk.receive(&metadata, Ok(None), segment("commit me", false)),
        Some(Ok("".into()))
    );
}

#[test]
fn bad_messages_end_the_conversation() {
    assert_eq!(Wire::read("{"), Err(Failure::InvalidResponse));
    let mut talk = closed(0);
    let error = Wire::read(r#"{"type":"Error","is_final":true}"#).unwrap();
    assert!(!talk.wants_news(&error));
    assert_eq!(
        talk.receive(&error, Ok(segment("x", true)), None),
        Some(Err(Failure::Rejected))
    );
    let last = Wire::read(FINAL).unwrap();
    assert_eq!(
        talk.receive(&last, Err(()), None),
        Some(Err(Failure::InvalidTranscript))
    );
}

#[test]
fn messages_are_read_for_their_kind_and_finality() {
    assert_eq!(Wire::read(FINAL), Ok(Wire { kind: Kind::Other, is_final: true }));
    assert_eq!(Wire::read("[]"), Ok(Wire { kind: Kind::Other, is_final: false }));
    assert_eq!(
        Wire::read(r#"{"type":"Metadata","is_final":"true"}"#),
        Ok(Wire { kind: Kind::Metadata, is_final: false })
    );
    assert_eq!(kind_of(&Some("Error".into())), Kind::Error);
    assert_eq!(kind_of(&Some("error".into())), Kind::Other);
    assert_eq!(kind_of(&None), Kind::Other);
}

#[test]
fn audio_is_sent_low_byte_first_until_the_end() {
    let talk = Conversation::new();
    assert!(talk.listens());
    match talk.react(&Event::Audio(vec![1, -2, 0x1234])) {
        Action::SendAudio(bytes) => assert_eq!(bytes, [1, 0, 0xfe, 0xff, 0x34, 0x12]),
        other => panic!("{other:?}"),
    }
    let talk = closed(0);
    assert!(!talk.listens());
    assert!(matches!(talk.react(&Event::Audio(vec![1])), Action::Nothing));
    assert!(matches!(talk.react(&Event::AudioEnd), Action::Nothing));
}

#[test]
fn the_connection_is_answered_and_kept_open() {
    let talk = Conversation::new();
    assert!(matches!(talk.react(&Event::Ping), Action::SendPong));
    assert!(matches!(talk.react(&Event::Keepalive), Action::SendKeepalive));
    assert!(matches!(talk.react(&Event::Unused), Action::Nothing));
    assert!(matches!(talk.react(&Event::Closed), Action::Fail(Failure::EndedEarly)));
}

#[test]
fn the_deadline_counts_from_the_end_of_audio() {
    let talk = Conversation::new();
    assert!(matches!(talk.react(&Event::Clock(u64::MAX)), Action::Nothing));
    let talk = closed(1_000);
    assert!(matches!(talk.react(&Event::Clock(1_249)), Action::Nothing));
    assert!(matches!(
        talk.react(&Event::Clock(1_250)),
        Action::Fail(Failure::TimedOut)
    ));
}

#[test]
fn what_cannot_be_sent_says_what_was_lost() {
    let mut talk = Conversation::new();
    for (action, failure) in [
        (Action::SendAudio(vec![]), Failure::AudioLost),
        (Action::SendClose, Failure::CannotFinalize),
        (Action::SendPong, Failure::Disconnected),
        (Action::SendKeepalive, Failure::Disconnected),
    ] {
        assert_eq!(talk.sent(&action, false, 0, 250), Err(failure));
        assert!(talk.listens());
    }
    assert_eq!(talk.sent(&Action::SendPong, true, 0, 250), Ok(()));
    assert!(talk.listens());
}

#[test]
fn only_encrypted_or_local_providers_are_permitted() {
    assert_eq!(permit(true, "example.com"), Ok(()));
    assert_eq!(permit(false, "127.0.0.1"), Ok(()));
    assert_eq!(permit(false, "example.com"), Err(Failure::Unencrypted));
    assert!(Failure::Unencrypted.message().contains("Unencrypted"));
    assert_eq!(authorization("test-key"), "Token test-key");
}

#[test]
fn conversations_end_with_words_of_their_own() {
    let words: std::collections::HashSet<&str> = [
        Failure::Unencrypted,
        Failure::BadConfiguration,
        Failure::BadKey,
        Failure::ConnectTimedOut,
        Failure::CannotConnect,
        Failure::AudioLost,
        Failure::CannotFinalize,
        Failure::InvalidResponse,
        Failure::Rejected,
        Failure::InvalidTranscript,
        Failure::Disconnected,
        Failure::EndedEarly,
        Failure::TimedOut,
    ]
    .iter()
    .map(|f| f.message())
    .collect();
    assert_eq!(words.len(), 13);
    assert!(words.contains("Finalization timed out; no text inserted"));
    assert!(words.contains("Provider disconnected before finalization; no text inserted"));
}
