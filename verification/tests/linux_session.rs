use murmur::capture::{CANCEL, FINISH, RECORDING};
use murmur::config::EnvFile;
use murmur::platform::linux::{
    announces, available, check_private, config_path, credentials, microphones_from_json,
    microphones_in, recorder_args, report, samples, AlreadyRunning, Metadata, Microphone,
    Node, Order, Output, Reading, Recorder, Report, Snapshot,
};

fn vars(list: &[(&str, &str)]) -> Vec<(String, String)> {
    list.iter().map(|(k, v)| (k.to_string(), v.to_string())).collect()
}

fn source(id: u64, serial: u64, name: &str) -> Node {
    Node {
        id: Some(id),
        removed: false,
        described: true,
        serial: Some(serial),
        name: Some(name.into()),
        class: Some("Audio/Source".into()),
        description: None,
    }
}

fn serials(list: Vec<Microphone>) -> Vec<String> {
    list.into_iter().map(|m| m.serial).collect()
}

#[test]
fn each_kind_of_bad_response_is_told_apart() {
    let error = |raw: &str| microphones_from_json(raw).unwrap_err();
    assert_eq!(error("invalid"), "Invalid PipeWire response");
    assert_eq!(error("{}"), "Invalid PipeWire node list");
    assert_eq!(error(""), "Empty PipeWire response");
    assert_eq!(error("[] {} nonsense"), "Invalid PipeWire node list");
    assert_eq!(error("[] nonsense {}"), "Invalid PipeWire response");
    assert!(microphones_from_json("[]").unwrap().is_empty());
}

#[test]
fn descriptions_are_shown_and_names_stand_in_for_them() {
    let raw = r#"[
        {"id":7,"info":{"props":{"media.class":"Audio/Source","object.serial":70,"node.name":"a","node.description":"Desk"}}},
        {"id":8,"info":{"props":{"media.class":"Audio/Source","object.serial":80,"node.name":"b"}}}]"#;
    let list = microphones_from_json(raw).unwrap();
    assert_eq!(list[0].name, "Desk");
    assert_eq!(list[1].name, "b");
}

#[test]
fn microphones_are_sorted_by_the_text_of_their_identity() {
    let list = microphones_in(&[Snapshot::Nodes(vec![
        source(9, 1, "a"),
        source(10, 2, "b"),
        source(100, 3, "c"),
        Node { id: None, ..source(0, 4, "d") },
        source(2, 5, "e"),
    ])]);
    assert_eq!(serials(list.unwrap()), ["2", "3", "5", "1", "4"]);
}

#[test]
fn the_last_word_on_a_node_counts() {
    let list = microphones_in(&[
        Snapshot::Nodes(vec![source(1, 11, "one"), source(2, 22, "two")]),
        Snapshot::Nodes(vec![
            Node { removed: true, ..source(1, 11, "one") },
            source(2, 23, "two again"),
        ]),
        Snapshot::Nodes(vec![Node { described: false, ..source(2, 99, "unsaid") }]),
    ]);
    let list = list.unwrap();
    assert_eq!(list.len(), 1);
    assert_eq!(list[0].serial, "23");
    assert_eq!(list[0].name, "two again");
}

#[test]
fn a_node_that_becomes_something_else_is_no_longer_listed() {
    for changed in [
        Node { class: Some("Audio/Sink".into()), ..source(1, 11, "one") },
        Node { class: None, ..source(1, 11, "one") },
        Node { name: None, ..source(1, 11, "one") },
        Node { serial: None, ..source(1, 11, "one") },
        source(1, 11, "one.monitor"),
    ] {
        let snapshots = [
            Snapshot::Nodes(vec![source(1, 11, "one")]),
            Snapshot::Nodes(vec![changed]),
        ];
        assert!(microphones_in(&snapshots).unwrap().is_empty());
    }
}

#[test]
fn nodes_may_come_in_one_snapshot_or_in_two() {
    let one = microphones_in(&[Snapshot::Nodes(vec![source(1, 1, "a"), source(2, 2, "b")])]);
    let two = microphones_in(&[
        Snapshot::Nodes(vec![source(1, 1, "a")]),
        Snapshot::Nodes(vec![source(2, 2, "b")]),
    ]);
    assert_eq!(serials(one.unwrap()), serials(two.unwrap()));
}

#[test]
fn a_relative_config_home_is_not_used() {
    let relative = vars(&[("XDG_CONFIG_HOME", "config"), ("HOME", "/home/a/")]);
    assert_eq!(config_path(&relative).unwrap(), "/home/a/.config/murmur/env");
    assert_eq!(config_path(&vars(&[("XDG_CONFIG_HOME", "")])), None);
    assert_eq!(config_path(&[]), None);
    let blank = vars(&[("FOTW_ENV_FILE", " "), ("XDG_CONFIG_HOME", "/c/")]);
    assert_eq!(config_path(&blank).unwrap(), "/c/murmur/env");
}

fn secret_file(_: &str) -> EnvFile {
    EnvFile::Text(b"DEEPGRAM_API_KEY=fixture-secret\n".to_vec())
}

fn with_mode(mode: u32) -> impl Fn(&str) -> Option<Metadata> {
    move |_| Some(Metadata { is_file: true, mode })
}

#[test]
fn a_key_in_the_environment_spares_the_file_its_inspection() {
    let set = vars(&[("FOTW_ENV_FILE", "/explicit"), ("DEEPGRAM_API_KEY", "k")]);
    let found = credentials(&set, |_| panic!(), |_| panic!()).ok().unwrap();
    assert_eq!((found.key.expose(), found.source), ("k", "environment"));
}

#[test]
fn a_file_that_others_may_use_is_not_read() {
    let named = vars(&[("FOTW_ENV_FILE", "/explicit"), ("DEEPGRAM_API_KEY", " ")]);
    let blocked = credentials(&named, with_mode(0o100644), |_| panic!());
    assert!(blocked.err().unwrap().contains("chmod 600"));
    let folder = |_: &str| Some(Metadata { is_file: false, mode: 0o40700 });
    let blocked = credentials(&named, folder, |_| panic!());
    assert!(blocked.err().unwrap().contains("chmod 600"));
    let private = credentials(&named, with_mode(0o100600), secret_file).ok().unwrap();
    assert_eq!((private.key.expose(), private.source), ("fixture-secret", "dotenv"));
}

#[test]
fn a_file_that_was_named_must_exist_and_another_need_not() {
    let named = vars(&[("FOTW_ENV_FILE", "/explicit")]);
    let missing = credentials(&named, |_| None, |_| panic!());
    assert_eq!(missing.err().unwrap(), "Cannot read configured credential file");
    let home = vars(&[("HOME", "/h")]);
    let missing = credentials(&home, |_| None, |_| panic!());
    assert!(missing.err().unwrap().starts_with("No Deepgram key."));
    let asked = |path: &str| {
        assert_eq!(path, "/h/.config/murmur/env");
        Some(Metadata { is_file: true, mode: 0o600 })
    };
    let found = credentials(&home, asked, |path| {
        assert_eq!(path, "/h/.config/murmur/env");
        secret_file(path)
    });
    assert_eq!(found.ok().unwrap().key.expose(), "fixture-secret");
}

#[test]
fn credential_files_must_be_private() {
    let check = |is_file, mode| check_private(Some(Metadata { is_file, mode }));
    assert!(check(true, 0o100600).is_ok());
    assert!(check(true, 0o100400).is_ok());
    for mode in [0o100644, 0o100640, 0o100601, 0o100620] {
        assert!(check(true, mode).unwrap_err().contains("chmod 600"));
    }
    assert!(check(false, 0o40700).unwrap_err().contains("chmod 600"));
    assert_eq!(check_private(None).unwrap_err(), "Cannot read configured credential file");
}

#[test]
fn a_missing_key_comes_with_guidance_for_this_desktop() {
    let guidance =
        "No Deepgram key. Set DEEPGRAM_API_KEY or configure ~/.config/murmur/env (mode 600).";
    let none = credentials(&[], |_| panic!(), |_| panic!());
    assert_eq!(none.err().unwrap(), guidance);
    let named = vars(&[("FOTW_ENV_FILE", "/f")]);
    let empty = credentials(&named, with_mode(0o600), |_| {
        EnvFile::Text(b"A=1\n".to_vec())
    });
    assert_eq!(empty.err().unwrap(), guidance);
    assert!(!guidance.contains("Keychain"));
    let malformed = credentials(&named, with_mode(0o600), |_| {
        EnvFile::Text(b"bad-entry-without-equals\n".to_vec())
    });
    let malformed = malformed.err().unwrap();
    assert!(!malformed.contains("bad-entry") && !malformed.contains("Keychain"));
}

#[test]
fn only_known_microphones_are_available() {
    let list = [Microphone { serial: "22".into(), name: "mic".into() }];
    assert!(available(&list, "22"));
    assert!(!available(&list, "2"));
    assert!(!available(&[], "22"));
}

#[test]
fn orders_are_obeyed_and_cancellation_stands() {
    assert_eq!(Order::read("stop"), Order::Stop);
    assert_eq!(Order::read("cancel"), Order::Cancel);
    assert_eq!(Order::read("Stop"), Order::Unknown);
    assert_eq!(Order::Stop.obey(RECORDING), FINISH);
    assert_eq!(Order::Stop.obey(CANCEL), CANCEL);
    assert_eq!(Order::Unknown.obey(RECORDING), RECORDING);
    let mut control = RECORDING;
    for order in [Order::Stop, Order::Gone, Order::Stop, Order::Unknown] {
        control = order.obey(control);
    }
    assert_eq!(control, CANCEL);
    assert!(Order::Cancel.is_last() && Order::Gone.is_last());
    assert!(!Order::Stop.is_last() && !Order::Unknown.is_last());
}

#[test]
fn cancelled_sessions_report_no_text() {
    assert!(matches!(report(CANCEL, Ok("secret".into())), Report::Cancelled));
    assert!(matches!(report(FINISH, Ok("text".into())), Report::Review(t) if t == "text"));
    assert!(matches!(report(RECORDING, Err("why".into())), Report::Error(m) if m == "why"));
    assert!(announces(false, true, RECORDING));
    assert!(!announces(true, true, RECORDING));
    assert!(!announces(false, false, RECORDING));
    assert!(!announces(false, true, FINISH));
}

#[test]
fn the_recorder_is_told_its_target_and_format() {
    assert_eq!(
        recorder_args("22"),
        [
            "--target",
            "22",
            "--rate",
            "48000",
            "--channels",
            "1",
            "--format",
            "f32",
            "--properties",
            "{ node.dont-reconnect = true }",
            "-"
        ]
    );
    assert_eq!(Recorder { running: true }.may_start(), Err(AlreadyRunning));
    assert_eq!(Recorder { running: false }.may_start(), Ok(()));
}

#[test]
fn samples_are_read_low_byte_first() {
    let values = [0.0f32, 1.0, -1.0, 0.25, f32::MIN_POSITIVE];
    let bytes: Vec<u8> = values.iter().flat_map(|v| v.to_le_bytes()).collect();
    let bits: Vec<u32> = values.iter().map(|v| v.to_bits()).collect();
    assert_eq!(samples(&bytes), bits);
    assert_eq!(samples(&[1, 2, 3, 4, 5]), [0x04030201]);
    assert!(samples(&[1, 2, 3]).is_empty());
}

#[test]
fn frames_are_counted_and_a_lost_microphone_is_noticed() {
    let mut output = Output { position: 0 };
    for position in [0, 2, 4] {
        match output.read(Some(&[0; 8]), false) {
            Reading::Frames { samples, position: at } => {
                assert_eq!((samples.len(), at), (2, position));
            }
            other => panic!("{other:?}"),
        }
    }
    assert!(matches!(output.read(None, false), Reading::Lost));
    assert!(matches!(output.read(None, true), Reading::Ended));
    assert_eq!(output.position, 6);
}
