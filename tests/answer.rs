use smol_cli::answer::{format_answer, language_to_ext};

#[test]
fn plain_answers_are_trimmed() {
    assert_eq!(format_answer("  just text \n"), "just text");
    assert_eq!(format_answer("   "), "");
}

#[test]
fn code_blocks_become_new_file_diffs() {
    let a = "Here you go:\n```rust\nfn main() {}\n```\nDone.";
    assert_eq!(
        format_answer(a),
        "Here you go:\n\nDone.\n\n--- a/answer.rs\n+++ b/answer.rs\n+fn main() {}"
    );
    let b = "```\nx\n```\n```py\ny\n```";
    assert_eq!(
        format_answer(b),
        "--- a/answer.txt\n+++ b/answer.txt\n+x\n\n--- a/answer.py\n+++ b/answer.py\n+y"
    );
    assert_eq!(format_answer("```rust no newline```"), "```rust no newline```");
}

#[test]
fn languages_map_to_extensions() {
    assert_eq!(language_to_ext(Some("Rust")), "rs");
    assert_eq!(language_to_ext(Some("C++")), "cpp");
    assert_eq!(language_to_ext(Some("yml")), "yaml");
    assert_eq!(language_to_ext(Some("kotlin")), "txt");
    assert_eq!(language_to_ext(None), "txt");
}
