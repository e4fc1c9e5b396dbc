use debloater::batch::{join_outcomes, outcome_line};

#[test]
fn outcome_line_trims_output() {
    assert_eq!(outcome_line("com.a", "Success\n"), "com.a: Success");
    assert_eq!(outcome_line("com.b", "  \r\n"), "com.b: ");
}

#[test]
fn outcomes_join_with_newlines() {
    let lines = vec!["com.a: Success".to_string(), "com.b: Failure".to_string()];
    assert_eq!(join_outcomes(&lines), "com.a: Success\ncom.b: Failure");
    assert_eq!(join_outcomes(&vec!["one".to_string()]), "one");
    assert_eq!(join_outcomes(&Vec::new()), "");
}
