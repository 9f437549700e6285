use murmur::platform::linux::{config_path, microphones_from_json};
#[test]
fn sources_exclude_monitor_and_missing_identity() {
    let raw = r#"[{"info":{"props":{"media.class":"Audio/Sink","object.serial":1}}},{"info":{"props":{"media.class":"Audio/Source","object.serial":2,"node.name":"mic","node.description":"Microphone"}}},{"info":{"props":{"media.class":"Audio/Source","object.serial":3,"node.name":"output.monitor"}}},{"info":{"props":{"media.class":"Audio/Source"}}}]"#;
    let sources = microphones_from_json(raw).unwrap();
    assert_eq!(sources.len(), 1);
    assert_eq!(sources[0].serial, "2");
    assert!(microphones_from_json("invalid").is_err());
}
#[test]
fn config_precedence_is_explicit_then_xdg_then_home() {
    let mut vars: Vec<(String, String)> = vec![("HOME".into(), "/fixture".into())];
    assert_eq!(
        config_path(&vars).unwrap(),
        "/fixture/.config/murmur/env"
    );
    vars.push(("XDG_CONFIG_HOME".into(), "/config".into()));
    assert_eq!(
        config_path(&vars).unwrap(),
        "/config/murmur/env"
    );
    vars.push(("FOTW_ENV_FILE".into(), "/explicit".into()));
    assert_eq!(config_path(&vars).unwrap(), "/explicit");
}
#[test]
fn pipewire_streamed_snapshots_apply_device_removal() {
    let raw = r#"[{"id":1,"info":{"props":{"media.class":"Audio/Source","object.serial":11,"node.name":"mic-one"}}},{"id":2,"info":{"props":{"media.class":"Audio/Source","object.serial":22,"node.name":"mic-two"}}}]
[{"id":1,"info":null}]
[{"id":2,"info":{"state":"running"}}]"#;
    let sources = microphones_from_json(raw).unwrap();
    assert_eq!(sources.len(), 1);
    assert_eq!(sources[0].serial, "22");
}
