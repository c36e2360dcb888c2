use smol_cli::commands::{display_step, is_sampled_source, slash_command, split_words, SlashCommand};
use smol_cli::plan::PlanStep;

#[test]
fn slash_commands_are_read() {
    assert!(matches!(slash_command("/help"), SlashCommand::Help));
    assert!(matches!(slash_command("/exit"), SlashCommand::Quit));
    assert!(matches!(slash_command("/quit"), SlashCommand::Quit));
    assert!(matches!(slash_command("/undo"), SlashCommand::Undo));
    assert!(matches!(slash_command("/model"), SlashCommand::PickModel));
    match slash_command("/model  openai/gpt-4o") {
        SlashCommand::SetModel { model } => assert_eq!(model, "openai/gpt-4o"),
        _ => panic!("expected a model"),
    }
    assert!(matches!(slash_command("/model a b"), SlashCommand::ModelUsage));
    assert!(matches!(slash_command("/nope"), SlashCommand::Unknown));
    assert_eq!(split_words(" a  b\tc "), vec!["a", "b", "c"]);
}

#[test]
fn sources_and_step_lines() {
    assert!(is_sampled_source("main.rs"));
    assert!(is_sampled_source("x.ts"));
    assert!(!is_sampled_source("notes.md"));
    assert!(!is_sampled_source("rs"));
    let st = PlanStep {
        description: "make".to_string(),
        read: Some("a".to_string()),
        create: Some("b".to_string()),
    };
    assert_eq!(display_step(3, &st), "  3. make [read a, create b]");
}
