use genesis_wallet::confirm::{decide, ConfirmationResponse};

fn script(lines: &[&str]) -> Vec<String> {
    lines.iter().map(|s| s.to_string()).collect()
}

#[test]
fn the_first_recognized_answer_wins() {
    let r = decide(&script(&["p", "k"]));
    assert!(matches!(r, Some(ConfirmationResponse::Replace)));
}

#[test]
fn upper_case_answers_are_recognized_too() {
    assert!(matches!(
        decide(&script(&["K"])),
        Some(ConfirmationResponse::Skip)
    ));
    assert!(matches!(
        decide(&script(&["P"])),
        Some(ConfirmationResponse::Replace)
    ));
}

#[test]
fn only_the_first_character_of_an_answer_counts() {
    let r = decide(&script(&["please"]));
    assert!(matches!(r, Some(ConfirmationResponse::Replace)));
}

#[test]
fn a_reselect_marker_consumes_the_next_line_as_the_alias() {
    let r = decide(&script(&["s", "new-alias"]));
    match r {
        Some(ConfirmationResponse::Reselect(a)) => assert_eq!(a, "new-alias"),
        _ => panic!("expected a reselect response"),
    }
}

#[test]
fn unrecognized_lines_are_asked_again() {
    let r = decide(&script(&["", "x", "?", "k"]));
    assert!(matches!(r, Some(ConfirmationResponse::Skip)));
}

#[test]
fn a_script_that_never_answers_decides_nothing() {
    assert!(decide(&script(&["x", "y"])).is_none());
    assert!(decide(&Vec::new()).is_none());
}

#[test]
fn a_trailing_reselect_marker_decides_nothing() {
    assert!(decide(&script(&["s"])).is_none());
}
