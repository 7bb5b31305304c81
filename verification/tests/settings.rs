use forty_two_tools::json::{apply_runtime_settings, parse_runtime_settings, settings_or_default};
use forty_two_tools::server::settings_notice;
use forty_two_tools::settings::{
    initial_settings_text, load_initial_runtime_settings, resolve_login_from_sources,
    AuthorIdentity, FormatterSettings, HeaderSettings, RuntimeSettings,
};
use forty_two_tools::text::trimmed_option;
use serde_json::Value;

fn json(text: &str) -> Value {
    serde_json::from_str(text).expect("valid JSON")
}

fn text_member(value: &Value, group: &str, name: &str) -> Option<String> {
    value.get(group)?.get(name)?.as_str().map(|text| text.to_string())
}

/// Settings as they stand in a JSON value.
fn decode(value: &Value) -> Result<RuntimeSettings, String> {
    let arguments = value
        .get("formatter")
        .and_then(|formatter| formatter.get("arguments"))
        .and_then(Value::as_array)
        .map(|arguments| {
            arguments
                .iter()
                .filter_map(|argument| argument.as_str())
                .map(|argument| argument.to_string())
                .collect()
        })
        .unwrap_or_default();
    Ok(RuntimeSettings {
        formatter: FormatterSettings {
            path: text_member(value, "formatter", "path"),
            arguments,
        },
        header: HeaderSettings {
            login: text_member(value, "header", "login"),
            email_domain: text_member(value, "header", "email_domain"),
        },
    })
}

#[test]
fn resolve_login_uses_expected_fallback_order() {
    assert_eq!(
        resolve_login_from_sources(Some("marvin"), Some("fallback")),
        "marvin"
    );
    assert_eq!(
        resolve_login_from_sources(Some("   "), Some("marvin")),
        "marvin"
    );
    assert_eq!(resolve_login_from_sources(None, Some("marvin")), "marvin");
    assert_eq!(resolve_login_from_sources(None, None), "unknown");
}

#[test]
fn header_settings_override_environment_defaults() {
    let identity = AuthorIdentity::from_settings(
        &HeaderSettings {
            login: Some("cadet".to_string()),
            email_domain: Some("student.42lyon.fr".to_string()),
        },
        None,
        None,
    );

    assert_eq!(identity.login, "cadet");
    assert_eq!(identity.email, "cadet@student.42lyon.fr");
}

#[test]
fn runtime_settings_are_loaded_from_json_values() {
    let value = json(
        r#"{
            "formatter": {
                "path": "/tmp/c_formatter_42",
                "arguments": ["--strict"]
            },
            "header": {
                "login": "marvin",
                "email_domain": "student.42istanbul.com.tr"
            }
        }"#,
    );
    let settings = parse_runtime_settings(&value, decode(&value)).expect("settings parsed");

    assert_eq!(
        settings.formatter.path.as_deref(),
        Some("/tmp/c_formatter_42")
    );
    assert_eq!(settings.formatter.arguments, vec!["--strict"]);
    assert_eq!(settings.header.login.as_deref(), Some("marvin"));
}

#[test]
fn logins_are_trimmed() {
    assert_eq!(resolve_login_from_sources(Some("  marvin\t"), None), "marvin");
    assert_eq!(resolve_login_from_sources(Some(""), Some(" \u{a0} ")), "unknown");
    assert_eq!(resolve_login_from_sources(Some("\u{3000}marvin"), Some("x")), "marvin");
    assert_eq!(trimmed_option("  a b "), Some("a b"));
    assert_eq!(trimmed_option(" \n\t "), None);
    assert_eq!(trimmed_option(""), None);
}

#[test]
fn identity_falls_back_to_the_environment() {
    let settings = HeaderSettings {
        login: Some("  ".to_string()),
        email_domain: None,
    };
    let identity = AuthorIdentity::from_settings(&settings, Some("marvin"), Some("other"));
    assert_eq!(identity.login, "marvin");
    assert_eq!(identity.email, "marvin@student.42istanbul.com.tr");
    let identity = AuthorIdentity::from_settings(&HeaderSettings::default(), None, None);
    assert_eq!(identity.email, "unknown@student.42istanbul.com.tr");
    let settings = HeaderSettings {
        login: Some(" cadet ".to_string()),
        email_domain: Some(" 42.fr ".to_string()),
    };
    let identity = AuthorIdentity::from_settings(&settings, Some("marvin"), None);
    assert_eq!(identity.login, "cadet");
    assert_eq!(identity.email, "cadet@42.fr");
}

#[test]
fn initial_settings_come_from_the_environment() {
    assert_eq!(initial_settings_text(None), None);
    assert_eq!(initial_settings_text(Some("  ")), None);
    assert_eq!(initial_settings_text(Some(" {} ")), Some("{}".to_string()));
    let given = RuntimeSettings {
        formatter: FormatterSettings::default(),
        header: HeaderSettings {
            login: Some("marvin".to_string()),
            email_domain: None,
        },
    };
    assert_eq!(load_initial_runtime_settings(Some(Ok(given.clone()))), given);
    assert_eq!(load_initial_runtime_settings(None), RuntimeSettings::default());
    assert_eq!(
        load_initial_runtime_settings(Some(Err("expected value".to_string()))),
        RuntimeSettings::default()
    );
}

#[test]
fn null_settings_are_the_defaults() {
    let null = json("null");
    let settings = parse_runtime_settings(&null, Err("invalid type: null".to_string()));
    assert_eq!(settings, Ok(RuntimeSettings::default()));
    assert_eq!(
        settings_or_default(false, Err("invalid type".to_string())),
        Err("invalid type".to_string())
    );
    let number = json("3");
    assert_eq!(
        parse_runtime_settings(&number, Err("invalid type: integer".to_string())),
        Err("invalid type: integer".to_string())
    );
}

#[test]
fn invalid_settings_leave_the_current_ones() {
    let value = json(r#"{"header": {"login": "marvin"}}"#);
    let mut current = RuntimeSettings::default();
    assert_eq!(apply_runtime_settings(&mut current, &value, decode(&value)), Ok(()));
    assert_eq!(current.header.login.as_deref(), Some("marvin"));
    let outcome =
        apply_runtime_settings(&mut current, &json("[]"), Err("invalid length 0".to_string()));
    assert_eq!(outcome, Err("invalid length 0".to_string()));
    assert_eq!(current.header.login.as_deref(), Some("marvin"));
    let outcome = apply_runtime_settings(&mut current, &json("null"), Err("null".to_string()));
    assert_eq!(outcome, Ok(()));
    assert_eq!(current, RuntimeSettings::default());
}

#[test]
fn new_settings_are_announced() {
    let notice = settings_notice(&Ok(()));
    assert!(!notice.is_warning);
    assert_eq!(notice.text, "42 Tools settings updated");
    let notice = settings_notice(&Err("invalid type".to_string()));
    assert!(notice.is_warning);
    assert_eq!(notice.text, "failed to apply runtime settings: invalid type");
}
