use murmur::config::{
    bundle_env, env_beside, env_file, from_keychain, join, key_in, key_in_file, lookup, resolve,
    EnvFile, Place,
};

fn vars(list: &[(&str, &str)]) -> Vec<(String, String)> {
    list.iter().map(|(k, v)| (k.to_string(), v.to_string())).collect()
}

fn file(text: &str) -> EnvFile {
    EnvFile::Text(text.as_bytes().to_vec())
}

#[test]
fn finder_launch_finds_env_beside_app_even_with_unrelated_working_directory() {
    let found = bundle_env(
        "/fixture/Text-to-speech.app/Contents/MacOS/text-to-speech",
        |path| path == "/fixture/.env",
    );
    assert_eq!(found.as_deref(), Some("/fixture/.env"));
    assert_eq!(
        bundle_env("/fixture/target/debug/text-to-speech", |_| true),
        None
    );
}

#[test]
fn a_bundle_without_a_file_beside_it_gives_none() {
    let inside = "/fixture/Text-to-speech.app/Contents/MacOS/text-to-speech";
    assert_eq!(bundle_env(inside, |_| false), None);
}

#[test]
fn a_program_is_in_a_bundle_or_it_is_not() {
    for (executable, beside) in [
        ("/X.app/Contents/MacOS/x", Some("/.env")),
        ("X.app/Contents/MacOS/x", Some(".env")),
        ("./X.app/Contents/MacOS/x", Some("./.env")),
        ("/a b/X.y.app/Contents/MacOS/x", Some("/a b/.env")),
        ("/a//X.app/Contents/MacOS//x", Some("/a/.env")),
        ("/a/X.app/Contents/MacOS/x/", Some("/a/.env")),
        ("/a./X.app/Contents/MacOS/x", Some("/a./.env")),
        ("/a/../X.app/Contents/MacOS/x", Some("/a/../.env")),
        ("/a/./X.app/Contents/MacOS/x", Some("/a/.env")),
        ("/a/X.app/Contents/MacOS./x", None),
        ("/a/X/Contents/MacOS/x", None),
        ("/a/X.APP/Contents/MacOS/x", None),
        ("/a/.app/Contents/MacOS/x", None),
        ("/a/X.app./Contents/MacOS/x", None),
        ("/a/X.app/Contents/Resources/x", None),
        ("/a/X.app/MacOS/Contents/x", None),
        ("/a/X.app/Contents/MacOS/deep/x", None),
        ("/Contents/MacOS/x", None),
        ("/x", None),
        ("/", None),
        ("x", None),
        ("", None),
    ] {
        assert_eq!(bundle_env(executable, |_| true).as_deref(), beside, "{executable}");
    }
}

#[test]
fn the_place_of_a_program_is_read_from_its_path() {
    let place = Place::find("/a/X.app/Contents/MacOS/x");
    assert_eq!(place.folder.as_deref(), Some("MacOS"));
    assert_eq!(place.contents.as_deref(), Some("Contents"));
    assert_eq!(place.extension.as_deref(), Some("app"));
    assert_eq!(place.outside.as_deref(), Some("/a"));
    let shallow = Place::find("/b/x");
    assert_eq!(shallow.folder.as_deref(), Some("b"));
    assert_eq!(shallow.contents, None);
    assert_eq!(shallow.outside, None);
    assert_eq!(env_beside(&shallow), None);
    assert_eq!(env_beside(&place).as_deref(), Some("/a/.env"));
}

#[test]
fn a_dollar_sign_spoils_no_file() {
    let key = |text: &str| key_in_file(&file(text));
    assert_eq!(key("DEEPGRAM_API_KEY='a$b'\n"), Ok(Some("a$b".into())));
    assert_eq!(key("# costs $5\nDEEPGRAM_API_KEY=k\n"), Ok(Some("k".into())));
    assert_eq!(key("DEEPGRAM_API_KEY=a\\$b\n"), Ok(Some("a$b".into())));
    assert_eq!(key("A=$A\nDEEPGRAM_API_KEY=\n"), Ok(None));
    assert!(key("DEEPGRAM_API_KEY=k\nA=${B\n").is_err());
}

#[test]
fn process_key_wins_over_file_and_keychain_without_logging_secrets() {
    let vars = vars(&[("DEEPGRAM_API_KEY", "process-secret")]);
    let key = resolve(
        &vars,
        None,
        |_| panic!("no file must be read"),
        || panic!("keychain must not be read"),
    )
    .ok()
    .unwrap();
    assert_eq!(key.key.expose(), "process-secret");
    assert_eq!(key.source, "environment");
}

#[test]
fn dotenv_is_parsed_as_data_and_blank_key_uses_keychain() {
    let key = resolve(
        &[],
        Some(".env"),
        |_| file("DEEPGRAM_API_KEY='literal-$(not-executed)'\n"),
        || panic!(),
    )
    .ok()
    .unwrap();
    assert_eq!(key.key.expose(), "literal-$(not-executed)");
    assert_eq!(key.source, "dotenv");
    let key = resolve(
        &[],
        Some(".env"),
        |_| file("DEEPGRAM_API_KEY=\n"),
        || Ok(Some("keychain-secret".into())),
    )
    .ok()
    .unwrap();
    assert_eq!(key.key.expose(), "keychain-secret");
    assert_eq!(key.source, "FlyOnTheWall Keychain");
}

#[test]
fn malformed_or_missing_explicit_env_fails_without_exposing_contents() {
    let missing = resolve(&[], Some(".env"), |_| EnvFile::Missing, || Ok(None));
    assert_eq!(missing.err().unwrap(), "Cannot read the configured .env file");
    let malformed = resolve(
        &[],
        Some(".env"),
        |_| file("DEEPGRAM_API_KEY='secret-no-closing-quote"),
        || Ok(None),
    );
    let err = malformed.err().unwrap();
    assert!(!err.contains("secret-no-closing-quote"));
    assert_eq!(err, "Invalid .env syntax; values withheld");
    let broken = resolve(&[], Some(".env"), |_| EnvFile::Broken, || Ok(None));
    assert_eq!(broken.err().unwrap(), "Invalid .env syntax; values withheld");
}

#[test]
fn the_keychain_is_not_asked_where_the_file_decides() {
    for found in [EnvFile::Missing, EnvFile::Broken, file("no equals sign\n")] {
        assert!(resolve(&[], Some(".env"), |_| found, || panic!()).is_err());
    }
    assert!(resolve(&[], Some(".env"), |_| file("DEEPGRAM_API_KEY=k\n"), || panic!()).is_ok());
}

#[test]
fn the_file_is_asked_for_by_its_path() {
    let key = resolve(
        &vars(&[("DEEPGRAM_API_KEY", " \t")]),
        Some("/explicit"),
        |path| {
            assert_eq!(path, "/explicit");
            file("OTHER=1\nDEEPGRAM_API_KEY=first\nDEEPGRAM_API_KEY=\"second\"\n")
        },
        || panic!(),
    )
    .ok()
    .unwrap();
    assert_eq!(key.key.expose(), "second");
}

#[test]
fn a_later_blank_value_hides_an_earlier_one() {
    let text = "DEEPGRAM_API_KEY=first\nDEEPGRAM_API_KEY=\n";
    assert_eq!(key_in_file(&file(text)), Ok(None));
    assert_eq!(key_in_file(&file("# nothing\n")), Ok(None));
    assert_eq!(key_in_file(&file("bad entry\n")).is_err(), true);
}

#[test]
fn entries_are_taken_as_they_were_read() {
    let entry = |k: &str, v: &str| Some((k.to_string(), v.to_string()));
    assert_eq!(
        key_in(&[entry("DEEPGRAM_API_KEY", "a"), entry("X", "b")]),
        Ok(Some("a".into()))
    );
    assert_eq!(
        key_in(&[entry("DEEPGRAM_API_KEY", "a"), None]),
        Err("Invalid .env syntax; values withheld".into())
    );
    assert_eq!(key_in(&[]), Ok(None));
}

#[test]
fn the_keychain_answers_with_a_key_or_with_a_reason() {
    let none = "No Deepgram key. Configure DEEPGRAM_API_KEY or FlyOnTheWall's Keychain key.";
    assert_eq!(from_keychain(Ok(None)).err().unwrap(), none);
    assert_eq!(from_keychain(Ok(Some("  ".into()))).err().unwrap(), none);
    assert_eq!(from_keychain(Err("locked".into())).err().unwrap(), "locked");
    assert_eq!(from_keychain(Ok(Some(" k ".into()))).ok().unwrap().key.expose(), " k ");
}

#[test]
fn of_several_values_the_last_counts() {
    let list = vars(&[("A", "1"), ("B", "2"), ("A", "3")]);
    assert_eq!(lookup(&list, "A"), Some("3"));
    assert_eq!(lookup(&list, "B"), Some("2"));
    assert_eq!(lookup(&list, "C"), None);
}

#[test]
fn paths_are_joined_as_the_standard_library_joins_them() {
    for base in ["", "/", "/a", "/a/", "a/b", "a//", "."] {
        for name in [".env", ".config", "murmur/env"] {
            let std = std::path::PathBuf::from(base).join(name);
            assert_eq!(join(base, name), std.to_str().unwrap(), "{base} {name}");
        }
    }
}

#[test]
fn the_configured_file_comes_before_the_bundle_and_the_working_folder() {
    let set = vars(&[("FOTW_ENV_FILE", "/explicit")]);
    let blank = vars(&[("FOTW_ENV_FILE", "  ")]);
    let bundle = Some("/beside/.env".to_string());
    assert_eq!(env_file(&set, bundle.clone(), true).as_deref(), Some("/explicit"));
    assert_eq!(env_file(&blank, bundle, true).as_deref(), Some("/beside/.env"));
    assert_eq!(env_file(&blank, None, true).as_deref(), Some(".env"));
    assert_eq!(env_file(&[], None, false), None);
}
