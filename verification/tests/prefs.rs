use kute::prefs::{prepared_preferences, apply_preferences, client_preferences, pref_path, set_pref, PrefValue};

fn obj(entries: Vec<(&str, PrefValue)>) -> PrefValue {
    PrefValue::Object(entries.into_iter().map(|(k, v)| (k.to_string(), v)).collect())
}

fn other(text: &str) -> PrefValue {
    PrefValue::Other(text.to_string())
}

fn get<'a>(value: &'a PrefValue, path: &[&str]) -> Option<&'a PrefValue> {
    match path.split_first() {
        None => Some(value),
        Some((key, rest)) => match value {
            PrefValue::Object(entries) => entries.iter().find(|(k, _)| k == key).and_then(|(_, v)| get(v, rest)),
            PrefValue::Other(_) => None,
        },
    }
}

#[test]
fn set_in_empty_object_creates_the_path() {
    let prefs = set_pref(obj(vec![]), "profile.exit_type", other("\"Normal\""));
    assert_eq!(prefs, obj(vec![("profile", obj(vec![("exit_type", other("\"Normal\""))]))]));
}

#[test]
fn set_keeps_other_entries_and_their_order() {
    let prefs = obj(vec![
        ("browser", obj(vec![("window_placement", other("{}"))])),
        ("profile", obj(vec![("name", other("\"Person 1\"")), ("exit_type", other("\"Crashed\""))])),
        ("zoom", other("1.5")),
    ]);
    let prefs = set_pref(prefs, "profile.exit_type", other("\"Normal\""));
    assert_eq!(
        prefs,
        obj(vec![
            ("browser", obj(vec![("window_placement", other("{}"))])),
            ("profile", obj(vec![("name", other("\"Person 1\"")), ("exit_type", other("\"Normal\""))])),
            ("zoom", other("1.5")),
        ])
    );
}

#[test]
fn set_replaces_a_value_that_is_no_object() {
    let prefs = set_pref(obj(vec![("autofill", other("true"))]), "autofill.profile_enabled", other("false"));
    assert_eq!(prefs, obj(vec![("autofill", obj(vec![("profile_enabled", other("false"))]))]));
    let root = set_pref(other("[1,2]"), "translate.enabled", other("false"));
    assert_eq!(root, obj(vec![("translate", obj(vec![("enabled", other("false"))]))]));
}

#[test]
fn new_key_goes_last() {
    let prefs = set_pref(obj(vec![("a", other("1"))]), "b", other("2"));
    assert_eq!(prefs, obj(vec![("a", other("1")), ("b", other("2"))]));
}

#[test]
fn set_then_get_and_others_unchanged() {
    let prefs = obj(vec![("a", obj(vec![("b", other("1")), ("c", other("2"))])), ("d", other("3"))]);
    let set = set_pref(prefs, "a.b", other("9"));
    assert_eq!(get(&set, &["a", "b"]), Some(&other("9")));
    assert_eq!(get(&set, &["a", "c"]), Some(&other("2")));
    assert_eq!(get(&set, &["d"]), Some(&other("3")));
}

#[test]
fn client_preferences_on_a_fresh_profile() {
    let prefs = apply_preferences(obj(vec![]), client_preferences());
    assert_eq!(
        prefs,
        obj(vec![
            ("profile", obj(vec![("exit_type", other("\"Normal\""))])),
            ("credentials_enable_service", other("false")),
            ("credentials_enable_autosignin", other("false")),
            ("autofill", obj(vec![("profile_enabled", other("false")), ("credit_card_enabled", other("false"))])),
            ("translate", obj(vec![("enabled", other("false"))])),
        ])
    );
}

#[test]
fn client_preferences_twice_change_nothing() {
    let once = apply_preferences(obj(vec![("x", other("1"))]), client_preferences());
    let twice = apply_preferences(apply_preferences(obj(vec![("x", other("1"))]), client_preferences()), client_preferences());
    assert_eq!(once, twice);
}

#[test]
fn preference_paths() {
    assert_eq!(pref_path("profile.exit_type"), vec!["profile".to_string(), "exit_type".to_string()]);
    assert_eq!(pref_path("translate.enabled"), vec!["translate".to_string(), "enabled".to_string()]);
    assert_eq!(pref_path("credentials_enable_service"), vec!["credentials_enable_service".to_string()]);
}

const FRESH: &str = "{\"autofill\":{\"credit_card_enabled\":false,\"profile_enabled\":false},\"credentials_enable_autosignin\":false,\"credentials_enable_service\":false,\"profile\":{\"exit_type\":\"Normal\"},\"translate\":{\"enabled\":false}}";

#[test]
fn preferences_file_written_once() {
    assert_eq!(prepared_preferences(None).as_deref(), Some(FRESH));
    assert_eq!(prepared_preferences(Some("not json")).as_deref(), Some(FRESH));
    assert_eq!(prepared_preferences(Some(FRESH)), None);
    let spaced = "{ \"translate\": {\"enabled\": false}, \"profile\": {\"exit_type\": \"Normal\"},\n \"credentials_enable_service\": false, \"credentials_enable_autosignin\": false,\n \"autofill\": {\"profile_enabled\": false, \"credit_card_enabled\": false} }";
    assert_eq!(prepared_preferences(Some(spaced)), None);
}

#[test]
fn preferences_file_keeps_the_rest() {
    let file = "{\"profile\":{\"name\":\"Person 1\",\"exit_type\":\"Crashed\"},\"a\\\"b\":[1,{\"c\":null}],\"autofill\":true}";
    let written = prepared_preferences(Some(file)).unwrap();
    assert_eq!(
        written,
        "{\"a\\\"b\":[1,{\"c\":null}],\"autofill\":{\"credit_card_enabled\":false,\"profile_enabled\":false},\"credentials_enable_autosignin\":false,\"credentials_enable_service\":false,\"profile\":{\"exit_type\":\"Normal\",\"name\":\"Person 1\"},\"translate\":{\"enabled\":false}}"
    );
    assert_eq!(prepared_preferences(Some(&written)), None);
    assert_eq!(prepared_preferences(Some("[1,2]")).as_deref(), Some(FRESH));
}
