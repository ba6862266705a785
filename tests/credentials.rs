use lazyissues::credentials::{
    credential_query,
    first_credential_step, next_credential_step, password_from_output, resolve_access_token,
    token_from_file_contents, token_variable_name, CredentialSource, CredentialStep, HelperAction,
    HelperWait, DEFAULT_CREDENTIAL_ATTEMPTS, DEFAULT_CREDENTIAL_TIMEOUT,
};

fn s(v: &str) -> Option<String> {
    Some(v.to_string())
}

#[test]
fn helper_token_wins_when_environment_and_store_are_empty() {
    assert_eq!(resolve_access_token(None, None, s("helper-token"), s("file-token")), s("helper-token"));
}

#[test]
fn token_file_is_used_trimmed_when_helper_fails() {
    assert_eq!(resolve_access_token(None, None, None, s("  file-token \n")), s("file-token"));
}

#[test]
fn no_source_means_no_token() {
    assert_eq!(resolve_access_token(None, None, None, None), None);
}

#[test]
fn earlier_sources_win() {
    assert_eq!(resolve_access_token(s("env"), s("store"), s("helper"), s("file")), s("env"));
    assert_eq!(resolve_access_token(None, s("store"), s("helper"), s("file")), s("store"));
}

#[test]
fn chain_steps_in_order() {
    assert!(matches!(first_credential_step(), CredentialStep::Try(CredentialSource::Environment)));
    assert!(matches!(
        next_credential_step(CredentialSource::Environment, None),
        CredentialStep::Try(CredentialSource::SecretStore)
    ));
    assert!(matches!(
        next_credential_step(CredentialSource::SecretStore, None),
        CredentialStep::Try(CredentialSource::CredentialHelper)
    ));
    assert!(matches!(
        next_credential_step(CredentialSource::CredentialHelper, None),
        CredentialStep::Try(CredentialSource::TokenFile)
    ));
    assert!(matches!(next_credential_step(CredentialSource::TokenFile, None), CredentialStep::Unavailable));
    match next_credential_step(CredentialSource::SecretStore, s(" kept ")) {
        CredentialStep::Found(t) => assert_eq!(t, " kept "),
        _ => panic!("expected a token"),
    }
}

#[test]
fn environment_variable_name_is_upper_case() {
    assert_eq!(token_variable_name("github"), "GITHUB_TOKEN");
    assert_eq!(token_variable_name("gitea"), "GITEA_TOKEN");
}

#[test]
fn token_file_contents_are_trimmed() {
    assert_eq!(token_from_file_contents("\t abc123\n"), "abc123");
    assert_eq!(token_from_file_contents("   "), "");
}

#[test]
fn password_line_is_found() {
    let answer = "protocol=https\nhost=github.com\nusername=me\npassword=s3cret\n";
    assert_eq!(password_from_output(answer), s("s3cret"));
}

#[test]
fn password_line_with_carriage_return() {
    assert_eq!(password_from_output("username=me\r\npassword=abc\r\n"), s("abc"));
    assert_eq!(password_from_output("password=last"), s("last"));
}

#[test]
fn no_password_line() {
    assert_eq!(password_from_output("username=me\nhost=x\n"), None);
    assert_eq!(password_from_output(""), None);
    assert_eq!(password_from_output("xpassword=no\n"), None);
}

#[test]
fn helper_is_polled_a_bounded_number_of_times() {
    let mut wait = HelperWait::new(DEFAULT_CREDENTIAL_ATTEMPTS, DEFAULT_CREDENTIAL_TIMEOUT);
    assert_eq!(wait.start(), HelperAction::Poll);
    assert_eq!(wait.after_poll(false), HelperAction::SleepThenPoll(50));
    assert_eq!(wait.after_poll(false), HelperAction::SleepThenPoll(50));
    assert_eq!(wait.after_poll(false), HelperAction::SleepThenPoll(50));
    assert_eq!(wait.after_poll(false), HelperAction::Kill);
}

#[test]
fn helper_that_exits_is_collected() {
    let mut wait = HelperWait::new(4, 10);
    assert_eq!(wait.after_poll(false), HelperAction::SleepThenPoll(10));
    assert_eq!(wait.after_poll(true), HelperAction::Collect);
}

#[test]
fn helper_without_attempts_is_killed() {
    let wait = HelperWait::new(0, 10);
    assert_eq!(wait.start(), HelperAction::Kill);
}

#[test]
fn helper_query_names_the_host() {
    assert_eq!(credential_query("github.com"), "protocol=https\nhost=github.com\n\n");
}
