use lazyissues::config::{
    parse_key_event, Config, ConfigChild, ConfigErrorKind, ConfigNode, ConfigOption, KeyAction,
};
use lazyissues::panel::{KeyCode, KeyInput, KeyModifiers};

fn node(name: &str) -> ConfigNode {
    ConfigNode { name: name.to_string(), span: (0, 1), first_string: None, first_integer: None, children: vec![] }
}

fn child(name: &str, values: &[&str]) -> ConfigChild {
    ConfigChild {
        name: name.to_string(),
        span: (2, 3),
        first_string: values.first().map(|v| v.to_string()),
        strings: values.iter().map(|v| v.to_string()).collect(),
    }
}

#[test]
fn config_options_by_name() {
    assert_eq!(ConfigOption::parse("github_token_path"), Some(ConfigOption::GithubTokenPath));
    assert_eq!(ConfigOption::parse("gitlab_token_path"), Some(ConfigOption::GitlabTokenPath));
    assert_eq!(ConfigOption::parse("gitea_token_path"), Some(ConfigOption::GiteaTokenPath));
    assert_eq!(ConfigOption::parse("credentials_attempts"), Some(ConfigOption::CredentialsAttempts));
    assert_eq!(ConfigOption::parse("credentials_timeout"), Some(ConfigOption::CredentialsTimeout));
    assert_eq!(ConfigOption::parse("tags"), Some(ConfigOption::Tags));
    assert_eq!(ConfigOption::parse("time_format"), Some(ConfigOption::TimeFormat));
    assert_eq!(ConfigOption::parse("keys"), Some(ConfigOption::Keys));
    assert_eq!(ConfigOption::parse("colours"), None);
}

#[test]
fn key_actions_by_name() {
    assert_eq!(KeyAction::parse("next_item"), Some(KeyAction::NextItem));
    assert_eq!(KeyAction::parse("previous_detail_item"), Some(KeyAction::PreviousDetailItem));
    assert_eq!(KeyAction::parse("jump"), None);
}

#[test]
fn default_config_values() {
    let config = Config::default();
    assert_eq!(config.credential_attempts, 4);
    assert_eq!(config.credential_timeout, 50);
    assert_eq!(config.get_datetime_fmt(), "%H:%M %d.%m.%Y");
    assert_eq!(config.get_tag_color("bug"), "Red");
    assert_eq!(config.get_tag_color("good first issue"), "LightMagenta");
    assert_eq!(config.get_tag_color("unknown tag"), "White");
    assert_eq!(
        config.get_key_action(KeyInput { code: KeyCode::Char('j'), modifiers: KeyModifiers::control_only() }),
        Some(KeyAction::NextDetailItem)
    );
    assert_eq!(config.get_key_action(KeyInput { code: KeyCode::Char('z'), modifiers: KeyModifiers::none() }), None);
    assert!(config.github_token.is_none());
}

#[test]
fn key_binding_with_modifiers() {
    let key = parse_key_event("<ctrl><shft>x", (0, 0)).ok().expect("valid binding");
    assert_eq!(key.code, KeyCode::Char('x'));
    assert!(key.modifiers.control && key.modifiers.shift && !key.modifiers.alt);
}

#[test]
fn key_binding_with_unknown_modifier_is_rejected() {
    let errors = parse_key_event("<foo><alt>k", (0, 0)).err().expect("unknown modifier");
    assert_eq!(errors.len(), 1);
    assert!(matches!(&errors[0].kind, ConfigErrorKind::UnrecognisedModifier { modifier_name, .. } if modifier_name == "<foo>"));
}

#[test]
fn key_binding_without_key_fails() {
    let errors = parse_key_event("<ctrl>", (0, 0)).err().expect("no key");
    assert_eq!(errors.len(), 1);
    assert!(matches!(errors[0].kind, ConfigErrorKind::KeyNotFound { .. }));
    let errors = parse_key_event("<bad>", (0, 0)).err().expect("no key");
    assert_eq!(errors.len(), 2);
    assert!(matches!(errors[0].kind, ConfigErrorKind::UnrecognisedModifier { .. }));
}

#[test]
fn unknown_option_is_reported() {
    let mut config = Config::default();
    let errors = config.apply_option(&node("colour")).err().expect("unknown");
    assert_eq!(errors.len(), 1);
    assert!(matches!(&errors[0].kind, ConfigErrorKind::UnrecognisedOption { option_name } if option_name == "colour"));
}

#[test]
fn integer_options_fall_back_to_defaults() {
    let mut config = Config::default();
    let mut attempts = node("credentials_attempts");
    attempts.first_integer = Some(9);
    assert!(config.apply_option(&attempts).is_ok());
    assert_eq!(config.credential_attempts, 9);
    attempts.first_integer = Some(-3);
    assert!(config.apply_option(&attempts).is_ok());
    assert_eq!(config.credential_attempts, 4);
    let mut timeout = node("credentials_timeout");
    timeout.first_integer = Some(120);
    config.apply_option(&timeout).ok();
    assert_eq!(config.credential_timeout, 120);
}

#[test]
fn path_and_format_options() {
    let mut config = Config::default();
    config.gitlab_token = Some("kept".to_string());
    let mut path = node("github_token_path");
    path.first_string = Some("/tmp/token".to_string());
    config.apply_option(&path).ok();
    assert_eq!(config.github_token_path, Some("/tmp/token".to_string()));
    assert_eq!(config.gitlab_token_path, None);
    assert_eq!(config.gitlab_token, Some("kept".to_string()));
    let format = node("time_format");
    config.apply_option(&format).ok();
    assert_eq!(config.get_datetime_fmt(), "");
}

#[test]
fn tags_node_sets_colours() {
    let mut config = Config::default();
    let mut tags = node("tags");
    tags.children = vec![child("bug", &["blue"]), child("idea", &[]), child("odd", &["no-such-colour"])];
    let errors = config.apply_option(&tags).err().expect("one bad colour");
    assert_eq!(errors.len(), 1);
    assert!(matches!(errors[0].kind, ConfigErrorKind::ConfigFileNotParsable));
    assert_eq!(config.get_tag_color("bug"), "Blue");
    assert_eq!(config.get_tag_color("idea"), "White");
    assert_eq!(config.get_tag_color("odd"), "White");
    assert_eq!(config.get_tag_color("question"), "Magenta");
}

#[test]
fn keys_node_binds_and_reports() {
    let mut config = Config::default();
    let mut keys = node("keys");
    keys.children = vec![
        child("bind", &["<alt>n", "next_view"]),
        child("bind", &["<alt>p"]),
        child("bind", &[]),
        child("bind", &["<alt>q", "fly"]),
        child("other", &["<alt>z", "next_view"]),
        child("bind", &["<foo>m", "next_view"]),
    ];
    let errors = config.apply_option(&keys).err().expect("four bad lines");
    assert_eq!(errors.len(), 4);
    assert!(matches!(errors[3].kind, ConfigErrorKind::UnrecognisedModifier { .. }));
    assert!(matches!(errors[0].kind, ConfigErrorKind::ExpectedMultipleValues { expected_amount: 2, actual_amount: 1 }));
    assert!(matches!(errors[1].kind, ConfigErrorKind::ExpectedMultipleValues { expected_amount: 2, actual_amount: 0 }));
    assert!(matches!(errors[2].kind, ConfigErrorKind::UnrecognisedAction { .. }));
    let alt = KeyModifiers { alt: true, ..KeyModifiers::none() };
    assert_eq!(config.get_key_action(KeyInput { code: KeyCode::Char('n'), modifiers: alt }), Some(KeyAction::NextView));
    assert_eq!(config.get_key_action(KeyInput { code: KeyCode::Char('z'), modifiers: alt }), None);
    assert_eq!(config.get_key_action(KeyInput { code: KeyCode::Char('m'), modifiers: KeyModifiers::none() }), None);
}
