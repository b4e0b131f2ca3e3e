use genesis_wallet::password::{
    accept_file_password, accept_password, choose_source, read_and_confirm_pwd, PasswordError,
    PasswordSource,
};

#[test]
fn a_configured_file_wins_over_everything() {
    let s = choose_source(Some("/tmp/pw".to_string()), Some("literal".to_string()));
    match s {
        PasswordSource::FromFile(p) => assert_eq!(p, "/tmp/pw"),
        _ => panic!("expected the file source"),
    }
}

#[test]
fn a_configured_value_wins_over_the_prompt() {
    let s = choose_source(None, Some("literal".to_string()));
    match s {
        PasswordSource::FromValue(v) => assert_eq!(v, "literal"),
        _ => panic!("expected the literal source"),
    }
}

#[test]
fn nothing_configured_means_the_prompt() {
    let s = choose_source(None, None);
    assert!(matches!(s, PasswordSource::FromPrompt));
}

#[test]
fn an_empty_value_from_a_variable_or_prompt_is_fatal() {
    let r = accept_password("".to_string());
    assert!(matches!(r, Err(PasswordError::EmptyPassword)));
}

#[test]
fn an_empty_password_file_is_fatal() {
    let r = accept_file_password(Some("".to_string()));
    assert!(matches!(r, Err(PasswordError::EmptyPassword)));
}

#[test]
fn an_unreadable_password_file_is_fatal_not_a_fallback() {
    let r = accept_file_password(None);
    assert!(matches!(r, Err(PasswordError::UnreadableFile)));
}

#[test]
fn a_non_empty_password_is_accepted_as_is() {
    let p = accept_password("hunter".to_string()).unwrap();
    assert_eq!(p.text, "hunter");
}

#[test]
fn confirmation_accepts_two_identical_inputs() {
    let r = read_and_confirm_pwd(false, Some("pw".to_string()), Some("pw".to_string()));
    let p = r.unwrap().unwrap();
    assert_eq!(p.text, "pw");
}

#[test]
fn confirmation_rejects_two_different_inputs() {
    let r = read_and_confirm_pwd(false, Some("pw".to_string()), Some("other".to_string()));
    assert!(matches!(r, Err(PasswordError::MismatchedPasswords)));
}

#[test]
fn confirmation_rejects_an_empty_first_input() {
    let r = read_and_confirm_pwd(false, Some("".to_string()), Some("pw".to_string()));
    assert!(matches!(r, Err(PasswordError::EmptyPassword)));
}

#[test]
fn confirmation_rejects_a_missing_second_input() {
    let r = read_and_confirm_pwd(false, Some("pw".to_string()), None);
    assert!(matches!(r, Err(PasswordError::EmptyPassword)));
}

#[test]
fn disabled_encryption_skips_both_prompts_and_returns_no_password() {
    let r = read_and_confirm_pwd(true, None, None);
    assert!(r.unwrap().is_none());
}
