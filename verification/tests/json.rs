use murmur::json::Json;

fn value(raw: &str) -> Json {
    Json::parse(raw).unwrap()
}

#[test]
fn one_value_is_parsed_and_only_one() {
    assert!(Json::parse("{}").is_some());
    assert!(Json::parse("{").is_none());
    assert!(Json::parse("1 2").is_none());
    assert!(Json::parse("").is_none());
}

#[test]
fn values_in_a_row_are_parsed_up_to_the_first_error() {
    let values = Json::stream("[1]\n[2] nonsense [3]");
    assert_eq!(values.len(), 3);
    assert!(values[0].is_some() && values[1].is_some() && values[2].is_none());
    assert!(Json::stream(" \n ").is_empty());
}

#[test]
fn members_and_elements_are_found() {
    let v = value(r#"{"a":{"b":[1,"x",null]},"c":true}"#);
    let list = v.member("a").unwrap().member("b").unwrap().elements().unwrap();
    assert_eq!(list.len(), 3);
    assert_eq!(list[0].as_u64(), Some(1));
    assert_eq!(list[1].as_string().as_deref(), Some("x"));
    assert!(list[2].is_null());
    assert_eq!(v.member("c").unwrap().as_bool(), Some(true));
    assert!(v.member("d").is_none());
    assert!(list[0].member("a").is_none());
    assert!(v.elements().is_none());
}

#[test]
fn values_are_what_they_are_and_nothing_else() {
    assert!(value("{}").is_object());
    assert!(!value("[]").is_object());
    assert!(!value("0").is_null());
    assert!(!value(r#""null""#).is_null() && !value("[null]").is_null());
    assert!(value(" \n{\t} ").is_object() && value(" null\r\n").is_null());
    assert!(!value(r#""{}""#).is_object() && !value("null").is_object());
    assert_eq!(value(" false ").as_bool(), Some(false));
    assert_eq!(value("1").as_bool(), None);
    assert_eq!(value("-1").as_u64(), None);
    assert_eq!(value("1.5").as_u64(), None);
    assert_eq!(value("18446744073709551615").as_u64(), Some(u64::MAX));
    assert_eq!(value("1").as_string(), None);
    assert_eq!(value(r#""true""#).as_bool(), None);
    assert_eq!(value(r#""café""#).as_string().as_deref(), Some("café"));
}
