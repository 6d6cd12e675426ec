use vector_screen::json::JsonValue;
use vector_screen::klipper::macros::MacroList;

fn s(text: &str) -> JsonValue {
    JsonValue::String(text.to_string())
}

fn obj(members: Vec<(&str, JsonValue)>) -> JsonValue {
    JsonValue::Object(members.into_iter().map(|(k, v)| (k.to_string(), v)).collect())
}

fn entry(name: &str, params: Vec<&str>) -> JsonValue {
    obj(vec![("name", s(name)), ("params", JsonValue::Array(params.into_iter().map(s).collect()))])
}

#[test]
fn test_parse_macro_list() {
    let response = obj(vec![(
        "macros",
        JsonValue::Array(vec![entry("LOAD_FILAMENT", vec!["SPEED"]), entry("HOME_ALL", vec![])]),
    )]);

    let list = MacroList::parse(&response).expect("should parse successfully");
    assert_eq!(list.len(), 2);

    let names = list.get_names();
    assert_eq!(names, vec!["LOAD_FILAMENT", "HOME_ALL"]);

    assert_eq!(list.macros()[0].params, vec!["SPEED"]);
    assert!(list.macros()[1].params.is_empty());
}

#[test]
fn test_get_names() {
    let response = obj(vec![(
        "macros",
        JsonValue::Array(vec![
            entry("LOAD_FILAMENT", vec!["SPEED"]),
            entry("HOME_ALL", vec![]),
            entry("DISABLE_STEPPERS", vec![]),
        ]),
    )]);

    let list = MacroList::parse(&response).unwrap();
    let names = list.get_names();
    assert_eq!(names, vec!["LOAD_FILAMENT", "HOME_ALL", "DISABLE_STEPPERS"]);
}

#[test]
fn test_execute_command() {
    assert_eq!(MacroList::execute_command("LOAD_FILAMENT"), "RUN_MACRO NAME=LOAD_FILAMENT");
    assert_eq!(MacroList::execute_command("HOME_ALL"), "RUN_MACRO NAME=HOME_ALL");
    assert_eq!(MacroList::execute_command("CUSTOM_MACRO"), "RUN_MACRO NAME=CUSTOM_MACRO");
}

#[test]
fn test_empty_macro_list() {
    let response = obj(vec![("macros", JsonValue::Array(vec![]))]);

    let list = MacroList::parse(&response).expect("should parse successfully");
    assert!(list.is_empty());
    assert_eq!(list.len(), 0);
    assert!(list.get_names().is_empty());
}

#[test]
fn test_parse_invalid_response() {
    let response = obj(vec![("not_macros", JsonValue::Array(vec![]))]);
    assert!(MacroList::parse(&response).is_none());

    let response = s("just a string");
    assert!(MacroList::parse(&response).is_none());
}

#[test]
fn macros_skip_unnamed_entries_and_non_string_params() {
    let response = obj(vec![(
        "macros",
        JsonValue::Array(vec![
            obj(vec![("params", JsonValue::Array(vec![]))]),
            obj(vec![("name", JsonValue::Number("3".to_string()))]),
            obj(vec![
                ("name", s("PURGE")),
                ("params", JsonValue::Array(vec![s("LEN"), JsonValue::Null, s("TEMP")])),
            ]),
            obj(vec![("name", s("PARK")), ("params", s("not a list"))]),
        ]),
    )]);
    let list = MacroList::parse(&response).unwrap();
    assert_eq!(list.get_names(), vec!["PURGE", "PARK"]);
    assert_eq!(list.macros()[0].params, vec!["LEN", "TEMP"]);
    assert!(list.macros()[1].params.is_empty());
}
