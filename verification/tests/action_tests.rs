use adventure::actions::UserAction;

#[test]
fn classify_select_with_argument() {
    assert_eq!(UserAction::parse("select a").unwrap(), UserAction::Select(String::from("a")));
    assert_eq!(UserAction::parse("s a").unwrap(), UserAction::Select(String::from("a")));
    assert_eq!(UserAction::parse("select").unwrap(), UserAction::Select(String::from("")));
}

#[test]
fn classify_quoted_argument_is_one_word() {
    assert_eq!(
        UserAction::parse("select \"go north\"").unwrap(),
        UserAction::Select(String::from("go north"))
    );
}

#[test]
fn classify_simple_commands() {
    assert_eq!(UserAction::parse("q").unwrap(), UserAction::Quit);
    assert_eq!(UserAction::parse("quit").unwrap(), UserAction::Quit);
    assert_eq!(UserAction::parse("n").unwrap(), UserAction::Next);
    assert_eq!(UserAction::parse("next").unwrap(), UserAction::Next);
    assert_eq!(UserAction::parse("p").unwrap(), UserAction::Player);
    assert_eq!(UserAction::parse("player").unwrap(), UserAction::Player);
    assert_eq!(UserAction::parse("scene").unwrap(), UserAction::Scene);
    assert_eq!(UserAction::parse("help").unwrap(), UserAction::Help);
    assert_eq!(UserAction::parse("?").unwrap(), UserAction::Help);
}

#[test]
fn classify_empty_input() {
    assert_eq!(UserAction::parse("").unwrap(), UserAction::Empty);
    assert_eq!(UserAction::parse("  ").unwrap(), UserAction::Empty);
}

#[test]
fn classify_unknown_keeps_trimmed_text() {
    assert_eq!(
        UserAction::parse("  frobnicate now  ").unwrap(),
        UserAction::Unknown(String::from("frobnicate now"))
    );
}

#[test]
fn classify_commands_are_case_sensitive() {
    assert_eq!(UserAction::parse("Quit").unwrap(), UserAction::Unknown(String::from("Quit")));
}

#[test]
fn unbalanced_quote_is_an_error() {
    assert!(UserAction::parse("select \"go north").is_err());
}
