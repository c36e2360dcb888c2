use vstd::prelude::*;
use vstd::string::*;

use crate::plan::PlanStep;
use crate::text::{decimal, decimal_text, is_space, is_space_char, same_text};

verus! {

/// Adds the word `cur` to `done` unless it is empty.
pub open spec fn add_word(done: Seq<Seq<char>>, cur: Seq<char>) -> Seq<Seq<char>> {
    if cur.len() == 0 {
        done
    } else {
        done.push(cur)
    }
}

/// Splitting `s` at white space: the finished words and the word being read.
pub open spec fn word_state(s: Seq<char>) -> (Seq<Seq<char>>, Seq<char>)
    decreases s.len(),
{
    if s.len() == 0 {
        (Seq::empty(), Seq::empty())
    } else {
        let (done, cur) = word_state(s.drop_last());
        if is_space(s.last()) {
            (add_word(done, cur), Seq::empty())
        } else {
            (done, cur.push(s.last()))
        }
    }
}

/// The words of `s`: its maximal runs of characters other than white space.
pub open spec fn words(s: Seq<char>) -> Seq<Seq<char>> {
    add_word(word_state(s).0, word_state(s).1)
}

/// The words of `s`.
pub fn split_words(s: &str) -> (r: Vec<String>)
    ensures
        r@.map_values(|w: String| w@) == words(s@),
{
    let cs = crate::text::chars_of(s);
    let mut done: Vec<String> = Vec::new();
    let mut start: usize = 0;
    let mut i: usize = 0;
    while i < cs.len()
        invariant
            cs@ == s@,
            start <= i <= cs.len(),
            word_state(s@.take(i as int)) == (
                done@.map_values(|w: String| w@),
                s@.subrange(start as int, i as int),
            ),
        decreases cs.len() - i,
    {
        assert(s@.take(i + 1).drop_last() =~= s@.take(i as int));
        assert(s@.take(i + 1).last() == s@[i as int]);
        if is_space_char(cs[i]) {
            if i > start {
                let ghost before = done@.map_values(|w: String| w@);
                let w = String::from_str(s.substring_char(start, i));
                done.push(w);
                assert(done@.map_values(|w: String| w@) =~= before.push(
                    s@.subrange(start as int, i as int),
                ));
            }
            start = i + 1;
        } else {
            assert(s@.subrange(start as int, i + 1) =~= s@.subrange(start as int, i as int).push(
                s@[i as int],
            ));
        }
        i = i + 1;
    }
    assert(s@.take(cs.len() as int) =~= s@);
    let n = cs.len();
    if n > start {
        let ghost before = done@.map_values(|w: String| w@);
        done.push(String::from_str(s.substring_char(start, n)));
        assert(done@.map_values(|w: String| w@) =~= before.push(s@.subrange(start as int, n as int)));
    }
    done
}

/// A command typed at the prompt.
pub enum SlashCommand {
    Help,
    Quit,
    Clear,
    Stats,
    Login,
    Undo,
    /// `/model` alone: choose a model from a list.
    PickModel,
    /// `/model <id>`.
    SetModel { model: String },
    /// `/model` with too many arguments.
    ModelUsage,
    Unknown,
}

/// A `SlashCommand` as plain values.
pub enum CommandModel {
    Help,
    Quit,
    Clear,
    Stats,
    Login,
    Undo,
    PickModel,
    SetModel(Seq<char>),
    ModelUsage,
    Unknown,
}

impl View for SlashCommand {
    type V = CommandModel;

    open spec fn view(&self) -> CommandModel {
        match self {
            SlashCommand::Help => CommandModel::Help,
            SlashCommand::Quit => CommandModel::Quit,
            SlashCommand::Clear => CommandModel::Clear,
            SlashCommand::Stats => CommandModel::Stats,
            SlashCommand::Login => CommandModel::Login,
            SlashCommand::Undo => CommandModel::Undo,
            SlashCommand::PickModel => CommandModel::PickModel,
            SlashCommand::SetModel { model } => CommandModel::SetModel(model@),
            SlashCommand::ModelUsage => CommandModel::ModelUsage,
            SlashCommand::Unknown => CommandModel::Unknown,
        }
    }
}

/// The command that the trimmed input `s` names. Input starting with
/// `/model` is read by its words: one picks a model, two set the second
/// word as the model, more are a usage error.
pub open spec fn command_of(s: Seq<char>) -> CommandModel {
    if s == "/help"@ {
        CommandModel::Help
    } else if s == "/quit"@ || s == "/exit"@ {
        CommandModel::Quit
    } else if s == "/clear"@ {
        CommandModel::Clear
    } else if s == "/stats"@ {
        CommandModel::Stats
    } else if s == "/login"@ {
        CommandModel::Login
    } else if s == "/undo"@ {
        CommandModel::Undo
    } else if s.len() >= 6 && s.take(6) == "/model"@ {
        if words(s).len() == 1 {
            CommandModel::PickModel
        } else if words(s).len() == 2 {
            CommandModel::SetModel(words(s)[1])
        } else {
            CommandModel::ModelUsage
        }
    } else {
        CommandModel::Unknown
    }
}

/// Reads a slash command from trimmed input.
pub fn slash_command(input: &str) -> (r: SlashCommand)
    ensures
        r@ == command_of(input@),
{
    if same_text(input, "/help") {
        SlashCommand::Help
    } else if same_text(input, "/quit") || same_text(input, "/exit") {
        SlashCommand::Quit
    } else if same_text(input, "/clear") {
        SlashCommand::Clear
    } else if same_text(input, "/stats") {
        SlashCommand::Stats
    } else if same_text(input, "/login") {
        SlashCommand::Login
    } else if same_text(input, "/undo") {
        SlashCommand::Undo
    } else if input.unicode_len() >= 6 && same_text(input.substring_char(0, 6), "/model") {
        let ws = split_words(input);
        assert(ws@.map_values(|w: String| w@).len() == ws@.len());
        if ws.len() == 1 {
            SlashCommand::PickModel
        } else if ws.len() == 2 {
            assert(ws@.map_values(|w: String| w@)[1] == ws@[1]@);
            SlashCommand::SetModel { model: ws[1].clone() }
        } else {
            SlashCommand::ModelUsage
        }
    } else {
        SlashCommand::Unknown
    }
}

/// `s` ends with `suffix`.
pub open spec fn ends_with(s: Seq<char>, suffix: Seq<char>) -> bool {
    s.len() >= suffix.len() && s.skip(s.len() - suffix.len()) == suffix
}

fn has_suffix(s: &str, suffix: &str) -> (r: bool)
    ensures
        r == ends_with(s@, suffix@),
{
    let n = s.unicode_len();
    let k = suffix.unicode_len();
    if n < k {
        return false;
    }
    let tail = s.substring_char(n - k, n);
    assert(tail@ =~= s@.skip(n - k));
    same_text(tail, suffix)
}

/// Source files worth sampling into the base context: `.rs`, `.py`,
/// `.js` and `.ts` files.
pub fn is_sampled_source(name: &str) -> (r: bool)
    ensures
        r == (ends_with(name@, ".rs"@) || ends_with(name@, ".py"@) || ends_with(name@, ".js"@)
            || ends_with(name@, ".ts"@)),
{
    has_suffix(name, ".rs") || has_suffix(name, ".py") || has_suffix(name, ".js") || has_suffix(
        name,
        ".ts",
    )
}

/// The line that shows plan step number `n` (counting from 1), with its
/// read and create targets in brackets.
pub open spec fn step_display(n: nat, st: PlanStep) -> Seq<char> {
    let head = "  "@ + decimal(n) + ". "@ + st.description@;
    match (st.read, st.create) {
        (Some(r), Some(c)) => head + " [read "@ + r@ + ", create "@ + c@ + "]"@,
        (Some(r), None) => head + " [read "@ + r@ + "]"@,
        (None, Some(c)) => head + " [create "@ + c@ + "]"@,
        (None, None) => head,
    }
}

/// Shows plan step number `n`.
pub fn display_step(n: usize, st: &PlanStep) -> (r: String)
    ensures
        r@ == step_display(n as nat, *st),
{
    let mut out = String::from_str("  ");
    out.append(decimal_text(n).as_str());
    out.append(". ");
    out.append(st.description.as_str());
    match (&st.read, &st.create) {
        (Some(r), Some(c)) => {
            out.append(" [read ");
            out.append(r.as_str());
            out.append(", create ");
            out.append(c.as_str());
            out.append("]");
        },
        (Some(r), None) => {
            out.append(" [read ");
            out.append(r.as_str());
            out.append("]");
        },
        (None, Some(c)) => {
            out.append(" [create ");
            out.append(c.as_str());
            out.append("]");
        },
        (None, None) => {},
    }
    out
}

} // verus!
