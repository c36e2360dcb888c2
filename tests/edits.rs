use smol_cli::diff::unified_diff;
use smol_cli::edits::{
    apply_edit, default_limit, insert_after, insert_before, replace_once, parse_actions, parse_edits, parse_usize, Action, Edit, EditError,
    ParseFailure,
};

fn edit(op: &str, anchor: &str, snippet: &str, limit: usize) -> Edit {
    Edit {
        path: "a.txt".to_string(),
        op: op.to_string(),
        anchor: anchor.to_string(),
        snippet: snippet.to_string(),
        limit,
        rationale: None,
    }
}

#[test]
fn replace_changes_first_occurrence_only() {
    let e = edit("replace", "foo", "bar", 1);
    let out = apply_edit("foo baz foo", &e).ok().unwrap();
    assert_eq!(out, "bar baz foo");
    let d = unified_diff("foo baz foo", &out, "a.txt");
    assert_eq!(d, "--- a/a.txt\n+++ b/a.txt\n-foo baz foo\n+bar baz foo\n");
    assert_eq!(d.lines().filter(|l| l.starts_with('-') && !l.starts_with("---")).count(), 1);
    assert_eq!(d.lines().filter(|l| l.starts_with('+') && !l.starts_with("+++")).count(), 1);
}

#[test]
fn replace_requires_limit_occurrences() {
    let e = edit("replace", "foo", "bar", 3);
    assert!(apply_edit("foo baz foo", &e) == Err(EditError::AnchorNotFound));
    let e = edit("replace", "foo", "bar", 2);
    assert_eq!(apply_edit("foo baz foo", &e).ok().unwrap(), "bar baz foo");
    let e = edit("replace", "aa", "b", 2);
    assert!(apply_edit("aaa", &e) == Err(EditError::AnchorNotFound));
}

#[test]
fn replace_of_absent_anchor_fails() {
    for limit in [0usize, 1, 5] {
        let e = edit("replace", "zzz", "bar", limit);
        assert!(apply_edit("foo baz foo", &e) == Err(EditError::AnchorNotFound));
    }
}

#[test]
fn insert_after_round_trips() {
    let t = "alpha beta gamma beta";
    let e = edit("insert_after", "beta", "XYZ", 1);
    let out = apply_edit(t, &e).ok().unwrap();
    assert_eq!(out, "alpha betaXYZ gamma beta");
    let at = t.find("beta").unwrap() + "beta".len();
    let mut back = out.clone();
    back.replace_range(at..at + "XYZ".len(), "");
    assert_eq!(back, t);
}

#[test]
fn insert_before_and_multibyte_text() {
    let e = edit("insert_before", "é", "[", 1);
    assert_eq!(apply_edit("aéb", &e).ok().unwrap(), "a[éb");
    let e = edit("insert_after", "missing", "x", 1);
    assert!(apply_edit("abc", &e) == Err(EditError::AnchorNotFound));
}

#[test]
fn unknown_operation_is_refused() {
    let e = edit("delete", "a", "b", 1);
    match apply_edit("abc", &e) {
        Err(EditError::UnsupportedOp { op }) => assert_eq!(op, "delete"),
        _ => panic!("expected an unsupported operation"),
    }
    let err = apply_edit("abc", &e).err().unwrap();
    assert_eq!(err.message(), "unsupported op: delete");
    assert_eq!(EditError::AnchorNotFound.message(), "anchor not found enough times");
    assert_eq!(default_limit(), 1);
}

#[test]
fn parse_edits_reads_object_form() {
    let text = r#"{"edits":[{"path":"a.txt","op":"replace","anchor":"foo","snippet":"bar"},
        {"path":"b.rs","op":"insert_after","anchor":"x","snippet":"y","limit":2,"rationale":"why"},
        {"path":"c","op":"insert_before","anchor":"p","snippet":"q","rationale":null}]}"#;
    let batch = parse_edits(text).ok().unwrap();
    assert_eq!(batch.edits.len(), 3);
    assert_eq!(batch.edits[0].path, "a.txt");
    assert_eq!(batch.edits[0].limit, 1);
    assert_eq!(batch.edits[0].rationale, None);
    assert_eq!(batch.edits[1].op, "insert_after");
    assert_eq!(batch.edits[1].limit, 2);
    assert_eq!(batch.edits[1].rationale, Some("why".to_string()));
    assert_eq!(batch.edits[2].rationale, None);
}

#[test]
fn parse_edits_rejects_malformed_objects() {
    assert!(parse_edits(r#"{"edits":[{"path":"a"}]}"#).err() == Some(ParseFailure::Malformed));
    assert!(parse_edits(r#"{"edits":[{"path":"a","op":"replace","anchor":"x","snippet":"y","limit":-1}]}"#).err() == Some(ParseFailure::Malformed));
    assert!(parse_edits(r#"{"plan":[]}"#).err() == Some(ParseFailure::Malformed));
    assert!(parse_edits("not json").err() == Some(ParseFailure::Malformed));
    assert!(parse_edits("42").err() == Some(ParseFailure::Malformed));
}

#[test]
fn parse_edits_reads_tool_calls() {
    let text = r#"[
        {"function":{"name":"read","arguments":"{\"file_path\":\"README.md\"}"}},
        {"function":{"name":"edit","arguments":"{\"file_path\":\"a.txt\",\"old_string\":\"foo\",\"new_string\":\"bar\"}"}},
        {"function":{"name":"insert_before","arguments":"{\"path\":\"b.txt\",\"anchor\":\"x\",\"snippet\":\"y\",\"rationale\":\"r\"}"}},
        {"function":{"name":"bogus","arguments":"{}"}},
        {"nothing":1}
    ]"#;
    let batch = parse_edits(text).ok().unwrap();
    assert_eq!(batch.edits.len(), 2);
    assert_eq!(batch.edits[0].op, "replace");
    assert_eq!(batch.edits[0].anchor, "foo");
    assert_eq!(batch.edits[0].snippet, "bar");
    assert_eq!(batch.edits[1].path, "b.txt");
    assert_eq!(batch.edits[1].op, "insert_before");
    assert_eq!(batch.edits[1].rationale, Some("r".to_string()));
}

#[test]
fn parse_actions_keeps_order_and_defaults() {
    let text = r#"[
        {"function":{"name":"list","arguments":"{}"}},
        {"function":{"name":"answer","arguments":"{\"text\":\"hi\"}"}},
        {"function":{"name":"provide_answer","arguments":"{\"answer\":\"there\"}"}},
        {"function":{"name":"read","arguments":"{\"file_path\":\"x.rs\"}"}}
    ]"#;
    let actions = parse_actions(text).ok().unwrap();
    assert_eq!(actions.len(), 4);
    match &actions[0] {
        Action::ListDirectory { path } => assert_eq!(path, "."),
        _ => panic!("expected a listing"),
    }
    match &actions[1] {
        Action::ProvideAnswer { answer } => assert_eq!(answer, "hi"),
        _ => panic!("expected an answer"),
    }
    match &actions[2] {
        Action::ProvideAnswer { answer } => assert_eq!(answer, "there"),
        _ => panic!("expected an answer"),
    }
    match &actions[3] {
        Action::ReadFile { path } => assert_eq!(path, "x.rs"),
        _ => panic!("expected a read"),
    }
    assert!(parse_actions(r#"{"a":1}"#).err() == Some(ParseFailure::Malformed));
    assert_eq!(ParseFailure::Malformed.message(), "failed to parse tool calls");
}

#[test]
fn parse_usize_reads_digits_only() {
    assert_eq!(parse_usize("0"), Some(0));
    assert_eq!(parse_usize("42"), Some(42));
    assert_eq!(parse_usize(""), None);
    assert_eq!(parse_usize("-1"), None);
    assert_eq!(parse_usize("1.5"), None);
    assert_eq!(parse_usize("18446744073709551615"), Some(usize::MAX));
    assert_eq!(parse_usize("18446744073709551616"), None);
    assert_eq!(parse_usize("99999999999999999999x"), None);
}

#[test]
fn empty_anchor_matches_at_every_position() {
    let e = edit("replace", "", "X", 4);
    assert_eq!(apply_edit("abc", &e).ok().unwrap(), "Xabc");
    let e = edit("replace", "", "X", 5);
    assert!(apply_edit("abc", &e) == Err(EditError::AnchorNotFound));
    let e = edit("insert_after", "", "X", 1);
    assert_eq!(apply_edit("", &e).ok().unwrap(), "X");
}

#[test]
fn edit_operations_called_directly() {
    let t = "one two three";
    let out = insert_after(t, "two", "!").ok().unwrap();
    assert_eq!(out, "one two! three");
    let at = t.find("two").unwrap() + "two".len();
    assert_eq!(&out[at..at + 1], "!");
    assert_eq!(format!("{}{}", &out[..at], &out[at + 1..]), t);
    assert_eq!(insert_before(t, "two", "[").ok().unwrap(), "one [two three");
    assert_eq!(replace_once("a-a-a", "a", "b", 3).ok().unwrap(), "b-a-a");
    assert!(replace_once("a-a-a", "a", "b", 4) == Err(EditError::AnchorNotFound));
    assert!(insert_after(t, "four", "x") == Err(EditError::AnchorNotFound));
}
