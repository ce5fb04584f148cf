use bishop::env_vars::{
    delete_line, is_secret_key, is_valid_key, line_key, parse_env, upsert_line, validate_key,
    EnvLine,
};

#[test]
fn upsert_updates_existing() {
    let input = "FOO=1\nBAR=2\n";
    let out = upsert_line(input, "BAR", "99");
    assert_eq!(out, "FOO=1\nBAR=99\n");
}

#[test]
fn upsert_appends_new() {
    let input = "FOO=1\n";
    let out = upsert_line(input, "BAR", "2");
    assert_eq!(out, "FOO=1\nBAR=2\n");
}

#[test]
fn upsert_preserves_comments_and_blanks() {
    let input = "# header\nFOO=1\n\nBAR=2\n";
    let out = upsert_line(input, "FOO", "x");
    assert_eq!(out, "# header\nFOO=x\n\nBAR=2\n");
}

#[test]
fn upsert_handles_value_with_special_chars() {
    let input = "FOO=1\n";
    let out = upsert_line(input, "FOO", "a|b$c 'd\"");
    assert_eq!(out, "FOO=a|b$c 'd\"\n");
}

#[test]
fn delete_removes_line() {
    let input = "FOO=1\nBAR=2\nBAZ=3\n";
    let out = delete_line(input, "BAR");
    assert_eq!(out, "FOO=1\nBAZ=3\n");
}

#[test]
fn upsert_into_empty_and_without_final_newline() {
    assert_eq!(upsert_line("", "A", "1"), "A=1\n");
    assert_eq!(upsert_line("FOO=1", "BAR", "2"), "FOO=1\nBAR=2\n");
    assert_eq!(upsert_line("FOO=1", "FOO", "2"), "FOO=2");
    // only the first assignment is replaced
    assert_eq!(upsert_line("A=1\nA=2\n", "A", "3"), "A=3\nA=2\n");
    // CRLF lines are written back with plain newlines
    assert_eq!(upsert_line("A=1\r\nB=2\r\n", "B", "9"), "A=1\nB=9\n");
}

#[test]
fn delete_removes_every_assignment_and_keeps_comments() {
    assert_eq!(delete_line("A=1\n# A=2\nA=3\nB=4", "A"), "# A=2\nB=4");
    assert_eq!(delete_line("A=1\n", "A"), "");
    assert_eq!(delete_line("", "A"), "");
}

#[test]
fn line_key_recognises_assignments() {
    assert_eq!(line_key("  FOO = bar"), Some("FOO".to_string()));
    assert_eq!(line_key("# FOO=bar"), None);
    assert_eq!(line_key("foo=bar"), None);
    assert_eq!(line_key("FOO"), None);
}

#[test]
fn set_then_view_shows_value() {
    let out = upsert_line("# c\nDB_PASSWORD=old\n", "DB_PASSWORD", "new  ");
    let view = parse_env(&out);
    assert_eq!(view.len(), 2);
    match &view[1] {
        EnvLine::Var { key, value, is_secret } => {
            assert_eq!(key, "DB_PASSWORD");
            assert_eq!(value, "new");
            assert!(*is_secret);
        }
        other => panic!("unexpected {:?}", other),
    }
}

#[test]
fn parse_env_classifies_lines() {
    let v = parse_env("# top\n\nAPI_TOKEN=abc\nlower=1\nPORT=80  \r\n");
    assert_eq!(v.len(), 5);
    assert!(matches!(&v[0], EnvLine::Comment { text } if text == "# top"));
    assert!(matches!(&v[1], EnvLine::Blank));
    assert!(matches!(&v[2], EnvLine::Var { key, value, is_secret: true } if key == "API_TOKEN" && value == "abc"));
    assert!(matches!(&v[3], EnvLine::Raw { text } if text == "lower=1"));
    assert!(matches!(&v[4], EnvLine::Var { key, value, is_secret: false } if key == "PORT" && value == "80"));
}

#[test]
fn key_checks() {
    assert!(is_valid_key("A_1"));
    assert!(!is_valid_key(""));
    assert!(!is_valid_key("a"));
    assert!(is_secret_key("MY_KEY"));
    assert!(!is_secret_key("PORT"));
    assert!(is_secret_key("db_password"));
    assert!(is_secret_key("Github_Token"));
    assert_eq!(validate_key(""), Err("key is empty".to_string()));
    assert_eq!(validate_key("1A"), Err("key must not start with a digit".to_string()));
    assert_eq!(
        validate_key("A-B"),
        Err("key must be uppercase letters, digits, or underscores".to_string())
    );
    assert_eq!(validate_key("A_B"), Ok(()));
}

#[test]
fn delete_undoes_an_appended_variable() {
    for content in ["", "FOO=1\n", "# c\n\nFOO=1\n", "A=1\n\n"] {
        let set = upsert_line(content, "NEW_KEY", "v a|l'ue");
        assert_eq!(delete_line(&set, "NEW_KEY"), content);
    }
    // the shapes it does not hold for: a lone newline, no final newline
    assert_eq!(delete_line(&upsert_line("\n", "K", "1"), "K"), "");
    assert_eq!(delete_line(&upsert_line("A=1", "K", "1"), "K"), "A=1\n");
}
