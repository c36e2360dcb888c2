use smol_cli::agent::{
    choose_plan, fallback_plan, format_create_log, format_read_log, is_informational,
    informational_request, summarize_turn, AgentOutcome, CreateLog, CreateOutcome, EditResponse,
    ReadLog, ReadOutcome,
};
use smol_cli::context::{build_context, remember};
use smol_cli::plan::{parse_plan, PlanStep};
use smol_cli::turn::{listed_directory, plan_operations, PlanOp, TurnRecord};

fn step(description: &str, read: Option<&str>, create: Option<&str>) -> PlanStep {
    PlanStep {
        description: description.to_string(),
        read: read.map(|s| s.to_string()),
        create: create.map(|s| s.to_string()),
    }
}

#[test]
fn parse_plan_reads_tool_calls() {
    let text = r#"[
        {"function":{"name":"read_file","arguments":"{\"path\":\"src/main.rs\",\"reason\":\"entry\"}"}},
        {"function":{"name":"create_file","arguments":"{\"path\":\"new.txt\",\"reason\":\"needed\"}"}},
        {"function":{"name":"list_directory","arguments":"{\"reason\":\"overview\"}"}},
        {"function":{"name":"analyze_code","arguments":"{\"focus\":\"parser\",\"reason\":\"bugs\"}"}},
        {"function":{"name":"search_files","arguments":"{\"pattern\":\"TODO\",\"reason\":\"find\"}"}},
        {"function":{"name":"answer_question","arguments":"{\"question\":\"what?\",\"reason\":\"asked\"}"}},
        {"function":{"name":"read_file","arguments":"{\"path\":\"no-reason\"}"}},
        {"function":{"name":"other","arguments":"{}"}}
    ]"#;
    let plan = parse_plan(text).unwrap();
    assert_eq!(plan.len(), 6);
    assert_eq!(plan[0].description, "Read src/main.rs: entry");
    assert_eq!(plan[0].read, Some("src/main.rs".to_string()));
    assert_eq!(plan[1].description, "Create new.txt: needed");
    assert_eq!(plan[1].create, Some("new.txt".to_string()));
    assert_eq!(plan[2].description, "List directory .: overview");
    assert_eq!(plan[3].description, "Analyze parser: bugs");
    assert_eq!(plan[4].description, "Search for TODO: find");
    assert_eq!(plan[5].description, "Answer 'what?': asked");
    assert!(parse_plan("{}").is_none());
    assert!(parse_plan("garbage").is_none());
    assert_eq!(parse_plan("[]").unwrap().len(), 0);
}

#[test]
fn fallback_plan_echoes_request() {
    let plan = fallback_plan("add a flag");
    assert_eq!(plan.len(), 1);
    assert_eq!(plan[0].description, "add a flag");
    assert!(plan[0].read.is_none() && plan[0].create.is_none());
    let chosen = choose_plan(Some("[]"), "explain");
    assert_eq!(chosen.len(), 1);
    assert_eq!(chosen[0].description, "explain");
    assert_eq!(choose_plan(None, "x")[0].description, "x");
    assert_eq!(choose_plan(Some("oops"), "y")[0].description, "y");
    let text = r#"[{"function":{"name":"read_file","arguments":"{\"path\":\"a\",\"reason\":\"b\"}"}}]"#;
    assert_eq!(choose_plan(Some(text), "z")[0].description, "Read a: b");
}

#[test]
fn duplicate_reads_are_skipped() {
    let plan = vec![
        step("one", Some("a.txt"), None),
        step("two", Some(" a.txt "), None),
        step("three", Some("b.txt"), None),
        step("four", Some("a.txt"), None),
    ];
    let ops = plan_operations(&plan);
    let reads_a = ops.iter().filter(|o| matches!(o, PlanOp::Read { path } if path == "a.txt")).count();
    let repeats_a = ops.iter().filter(|o| matches!(o, PlanOp::RepeatRead { path } if path == "a.txt")).count();
    assert_eq!(reads_a, 1);
    assert_eq!(repeats_a, 2);
    let mut record = TurnRecord::new(String::new());
    for op in &ops {
        match op {
            PlanOp::Read { path } => record.record_read(path, Ok(("x".to_string(), 1))),
            PlanOp::RepeatRead { path } => record.record_repeat_read(path),
            _ => {}
        }
    }
    let skipped = record.reads.iter().filter(|l| matches!(l.outcome, ReadOutcome::Skipped)).count();
    assert_eq!(record.reads.len(), 4);
    assert_eq!(skipped, 2);
}

#[test]
fn plan_operations_orders_create_read_list() {
    let plan = vec![
        step("List directory src: look", None, None),
        step("make", Some("n.txt"), Some("n.txt")),
        step("again", None, Some("n.txt")),
        step("blank", Some("   "), Some("")),
    ];
    let ops = plan_operations(&plan);
    assert_eq!(ops.len(), 4);
    assert!(matches!(&ops[0], PlanOp::List { path } if path == "src"));
    assert!(matches!(&ops[1], PlanOp::Create { path } if path == "n.txt"));
    assert!(matches!(&ops[2], PlanOp::Read { path } if path == "n.txt"));
    assert!(matches!(&ops[3], PlanOp::RepeatCreate { path } if path == "n.txt"));
    assert_eq!(listed_directory("List directory  lib/x : why"), Some("lib/x".to_string()));
    assert_eq!(listed_directory("List directory lib"), None);
    assert_eq!(listed_directory("nothing"), None);
}

#[test]
fn read_of_cargo_toml_is_recorded() {
    let plan = vec![step("read config", Some("Cargo.toml"), None)];
    let ops = plan_operations(&plan);
    assert_eq!(ops.len(), 1);
    let contents = "[package]\nname=\"x\"\n".to_string();
    let mut record = TurnRecord::new(String::new());
    match &ops[0] {
        PlanOp::Read { path } => record.record_read(path, Ok((contents.clone(), contents.len()))),
        _ => panic!("expected a read"),
    }
    assert_eq!(record.reads.len(), 1);
    assert_eq!(contents.len(), 19);
    assert!(matches!(record.reads[0].outcome, ReadOutcome::Success { bytes: 19 }));
    assert!(record.context.contains("# File: Cargo.toml\n[package]\nname=\"x\"\n"));
    record.record_read("gone.txt", Err("missing".to_string()));
    assert!(record.context.ends_with("\n\n# File: gone.txt (ERROR: missing)\n"));
    record.record_listing("src", Ok("a (file)".to_string()));
    assert!(record.context.ends_with("\n\n# Directory listing: src\na (file)"));
    record.record_create("n.txt", Ok(true));
    record.record_create("m.txt", Ok(false));
    record.record_repeat_create("n.txt");
    record.record_create("/x", Err("invalid path /x".to_string()));
    assert!(matches!(&record.creates[3].outcome, CreateOutcome::Failed { error } if error == "invalid path /x"));
    record.record_listing("nope", Err("failed".to_string()));
    assert!(record.context.ends_with("\n\n# Directory: nope (error: failed)\n"));
    assert!(matches!(record.creates[0].outcome, CreateOutcome::Created));
    assert!(matches!(record.creates[1].outcome, CreateOutcome::AlreadyExists));
    assert!(matches!(record.creates[2].outcome, CreateOutcome::AlreadyExists));
}

#[test]
fn logs_and_summary_render() {
    let r = ReadLog { path: "a.rs".to_string(), outcome: ReadOutcome::Success { bytes: 120 } };
    assert_eq!(format_read_log(&r), "Read a.rs (120 bytes)");
    let f = ReadLog { path: "b".to_string(), outcome: ReadOutcome::Failed { error: "boom".to_string() } };
    assert_eq!(format_read_log(&f), "Failed to read b: boom");
    let s = ReadLog { path: "c".to_string(), outcome: ReadOutcome::Skipped };
    assert_eq!(format_read_log(&s), "Skipped duplicate read of c");
    let c = CreateLog { path: "d".to_string(), outcome: CreateOutcome::Created };
    assert_eq!(format_create_log(&c), "Created d");
    let e = CreateLog { path: "d".to_string(), outcome: CreateOutcome::AlreadyExists };
    assert_eq!(format_create_log(&e), "Skipped create (exists) d");
    let g = CreateLog { path: "d".to_string(), outcome: CreateOutcome::Failed { error: "no".to_string() } };
    assert_eq!(format_create_log(&g), "Failed to create d: no");

    let outcome = AgentOutcome {
        plan: vec![step("look", Some("a.rs"), None), step("think", None, None)],
        reads: vec![r],
        creates: vec![],
        response: EditResponse { content: "done".to_string(), usage: None },
    };
    assert_eq!(
        summarize_turn("fix it", &outcome),
        "User: fix it\nPlan:\n  1. look [read a.rs]\n  2. think\nReads:\n  Read a.rs (120 bytes)\nCreates: (none)\nAssistant:\ndone"
    );
    let empty = AgentOutcome {
        plan: vec![],
        reads: vec![],
        creates: vec![],
        response: EditResponse { content: "é".repeat(600), usage: None },
    };
    let text = summarize_turn("q", &empty);
    assert!(text.starts_with("User: q\nPlan: (none)\nReads: (none)\nCreates: (none)\nAssistant:\n"));
    assert_eq!(text.len(), "User: q\nPlan: (none)\nReads: (none)\nCreates: (none)\nAssistant:\n".len() + 1000);
}

#[test]
fn informational_requests_are_recognised() {
    assert!(is_informational("Tell Me what this does", &vec![]));
    assert!(is_informational("INFORMATION please", &vec![]));
    assert!(!is_informational("rename foo", &vec![step("read x", None, None)]));
    assert!(is_informational("rename foo", &vec![step("ANSWER it", None, None)]));
    assert!(informational_request("what is this about", &vec![]));
    assert!(!informational_request("TELL ME", &vec![]));
}

#[test]
fn base_context_and_memory() {
    let project = vec![("Cargo.toml".to_string(), "[package]".to_string())];
    let sources = vec![("src/main.rs".to_string(), "fn main() {}".to_string())];
    let memory = vec!["turn one".to_string()];
    let ctx = build_context(Some("hello".to_string()), &project, &sources, &memory);
    assert_eq!(
        ctx,
        "README.md:\nhello\n\n# Cargo.toml\n[package]\n\n# src/main.rs\nfn main() {}\n\n# Conversation\nturn one\n---\n"
    );
    assert_eq!(build_context(None, &vec![], &vec![], &vec![]), "");
    let mut mem: Vec<String> = Vec::new();
    for i in 0..8 {
        remember(&mut mem, format!("t{i}"));
    }
    assert_eq!(mem.len(), 6);
    assert_eq!(mem[0], "t2");
    assert_eq!(mem[5], "t7");
}

#[test]
fn parse_plan_reads_plan_object() {
    let text = r#"{"plan":[{"description":"read config","read":"Cargo.toml"},
        {"description":"make it","create":"n.txt","read":null},
        {"description":"think"}]}"#;
    let plan = parse_plan(text).unwrap();
    assert_eq!(plan.len(), 3);
    assert_eq!(plan[0].description, "read config");
    assert_eq!(plan[0].read, Some("Cargo.toml".to_string()));
    assert_eq!(plan[1].create, Some("n.txt".to_string()));
    assert_eq!(plan[1].read, None);
    assert!(plan[2].read.is_none() && plan[2].create.is_none());
    assert!(parse_plan(r#"{"plan":[{"read":"x"}]}"#).is_none());
    assert!(parse_plan(r#"{"plan":[{"description":"d","read":5}]}"#).is_none());
    assert!(parse_plan(r#"{"plan":{}}"#).is_none());
    let chosen = choose_plan(Some(text), "ignored");
    assert_eq!(chosen[0].description, "read config");
    assert_eq!(choose_plan(Some(r#"{"plan":[]}"#), "fallback")[0].description, "fallback");
}
