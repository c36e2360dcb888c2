use vstd::prelude::*;
use vstd::string::*;

use crate::plan::{parse_plan, plan_of, steps_model, PlanStep, StepModel};
use crate::text::{contains_text, decimal, decimal_text, occurs, truncate, truncated};

verus! {

/// How reading one plan target went.
pub enum ReadOutcome {
    Success { bytes: usize },
    Failed { error: String },
    /// The target was read earlier in the same turn.
    Skipped,
}

/// One read step's record.
pub struct ReadLog {
    pub path: String,
    pub outcome: ReadOutcome,
}

/// How creating one plan target went.
pub enum CreateOutcome {
    Created,
    AlreadyExists,
    Failed { error: String },
}

/// One create step's record.
pub struct CreateLog {
    pub path: String,
    pub outcome: CreateOutcome,
}

/// Token counts the model reported for one request.
pub struct Usage {
    pub prompt_tokens: Option<u32>,
    pub completion_tokens: Option<u32>,
    pub total_tokens: Option<u32>,
}

/// The model's final answer for a turn.
pub struct EditResponse {
    pub content: String,
    pub usage: Option<Usage>,
}

/// Everything one turn produced.
pub struct AgentOutcome {
    pub plan: Vec<PlanStep>,
    pub reads: Vec<ReadLog>,
    pub creates: Vec<CreateLog>,
    pub response: EditResponse,
}

/// Longest model answer, in bytes, that a turn summary keeps.
pub const SUMMARY_ANSWER_BYTES: usize = 1000;

/// The plan used when the model's plan is missing or empty: one step that
/// repeats the request and names no file.
pub fn fallback_plan(user_prompt: &str) -> (r: Vec<PlanStep>)
    ensures
        steps_model(r@) == seq![StepModel { description: user_prompt@, read: None, create: None }],
{
    let r = vec![PlanStep { description: String::from_str(user_prompt), read: None, create: None }];
    assert(steps_model(r@) =~= seq![StepModel { description: user_prompt@, read: None, create: None }]);
    r
}

/// The plan a turn runs: the parsed model plan where it has steps, else the
/// fallback plan.
pub open spec fn chosen_plan(raw: Option<Seq<char>>, user_prompt: Seq<char>) -> Seq<StepModel> {
    let fallback = seq![StepModel { description: user_prompt, read: None, create: None }];
    match raw {
        Some(text) => match plan_of(text) {
            Some(steps) => if steps.len() > 0 {
                steps
            } else {
                fallback
            },
            None => fallback,
        },
        None => fallback,
    }
}

/// Picks the plan for a turn from the planning call's text, `None` when
/// that call failed.
pub fn choose_plan(raw: Option<&str>, user_prompt: &str) -> (r: Vec<PlanStep>)
    ensures
        steps_model(r@) == chosen_plan(
            match raw {
                Some(t) => Some(t@),
                None => None,
            },
            user_prompt@,
        ),
{
    match raw {
        Some(text) => match parse_plan(text) {
            Some(steps) => {
                if steps.len() > 0 {
                    steps
                } else {
                    fallback_plan(user_prompt)
                }
            },
            None => fallback_plan(user_prompt),
        },
        None => fallback_plan(user_prompt),
    }
}

/// The line that reports one read.
pub open spec fn read_log_text(log: ReadLog) -> Seq<char> {
    match log.outcome {
        ReadOutcome::Success { bytes } => "Read "@ + log.path@ + " ("@ + decimal(bytes as nat)
            + " bytes)"@,
        ReadOutcome::Failed { error } => "Failed to read "@ + log.path@ + ": "@ + error@,
        ReadOutcome::Skipped => "Skipped duplicate read of "@ + log.path@,
    }
}

/// The line that reports one create.
pub open spec fn create_log_text(log: CreateLog) -> Seq<char> {
    match log.outcome {
        CreateOutcome::Created => "Created "@ + log.path@,
        CreateOutcome::AlreadyExists => "Skipped create (exists) "@ + log.path@,
        CreateOutcome::Failed { error } => "Failed to create "@ + log.path@ + ": "@ + error@,
    }
}

/// Renders one read record.
pub fn format_read_log(log: &ReadLog) -> (r: String)
    ensures
        r@ == read_log_text(*log),
{
    match &log.outcome {
        ReadOutcome::Success { bytes } => {
            let mut r = String::from_str("Read ");
            r.append(log.path.as_str());
            r.append(" (");
            r.append(decimal_text(*bytes).as_str());
            r.append(" bytes)");
            r
        },
        ReadOutcome::Failed { error } => {
            let mut r = String::from_str("Failed to read ");
            r.append(log.path.as_str());
            r.append(": ");
            r.append(error.as_str());
            r
        },
        ReadOutcome::Skipped => {
            let mut r = String::from_str("Skipped duplicate read of ");
            r.append(log.path.as_str());
            r
        },
    }
}

/// Renders one create record.
pub fn format_create_log(log: &CreateLog) -> (r: String)
    ensures
        r@ == create_log_text(*log),
{
    match &log.outcome {
        CreateOutcome::Created => {
            let mut r = String::from_str("Created ");
            r.append(log.path.as_str());
            r
        },
        CreateOutcome::AlreadyExists => {
            let mut r = String::from_str("Skipped create (exists) ");
            r.append(log.path.as_str());
            r
        },
        CreateOutcome::Failed { error } => {
            let mut r = String::from_str("Failed to create ");
            r.append(log.path.as_str());
            r.append(": ");
            r.append(error.as_str());
            r
        },
    }
}

/// The summary line of plan step number `n` (counting from 1).
pub open spec fn step_line(n: nat, st: PlanStep) -> Seq<char> {
    "  "@ + decimal(n) + ". "@ + st.description@ + match st.read {
        Some(p) => " [read "@ + p@ + "]"@,
        None => Seq::empty(),
    } + "\n"@
}

/// The summary lines of a plan.
pub open spec fn plan_lines(steps: Seq<PlanStep>) -> Seq<char>
    decreases steps.len(),
{
    if steps.len() == 0 {
        Seq::empty()
    } else {
        plan_lines(steps.drop_last()) + step_line(steps.len(), steps.last())
    }
}

/// The summary lines of the read records.
pub open spec fn read_lines(logs: Seq<ReadLog>) -> Seq<char>
    decreases logs.len(),
{
    if logs.len() == 0 {
        Seq::empty()
    } else {
        read_lines(logs.drop_last()) + "  "@ + read_log_text(logs.last()) + "\n"@
    }
}

/// The summary lines of the create records.
pub open spec fn create_lines(logs: Seq<CreateLog>) -> Seq<char>
    decreases logs.len(),
{
    if logs.len() == 0 {
        Seq::empty()
    } else {
        create_lines(logs.drop_last()) + "  "@ + create_log_text(logs.last()) + "\n"@
    }
}

/// A section of the summary: `(none)` when empty, else a heading and lines.
pub open spec fn section(name: Seq<char>, empty: bool, lines: Seq<char>) -> Seq<char> {
    if empty {
        name + ": (none)\n"@
    } else {
        name + ":\n"@ + lines
    }
}

/// The text that summarises one turn for the conversation memory.
pub open spec fn turn_summary(user_prompt: Seq<char>, o: AgentOutcome) -> Seq<char> {
    "User: "@ + user_prompt + "\n"@ + section("Plan"@, o.plan@.len() == 0, plan_lines(o.plan@))
        + section("Reads"@, o.reads@.len() == 0, read_lines(o.reads@)) + section(
        "Creates"@,
        o.creates@.len() == 0,
        create_lines(o.creates@),
    ) + "Assistant:\n"@ + truncated(o.response.content@, SUMMARY_ANSWER_BYTES as nat)
}

fn append_plan_lines(out: &mut String, steps: &Vec<PlanStep>)
    ensures
        final(out)@ == old(out)@ + plan_lines(steps@),
{
    let mut i: usize = 0;
    assert(steps@.take(0) =~= Seq::<PlanStep>::empty());
    while i < steps.len()
        invariant
            i <= steps.len(),
            out@ == old(out)@ + plan_lines(steps@.take(i as int)),
        decreases steps.len() - i,
    {
        let st = &steps[i];
        let ghost before = out@;
        out.append("  ");
        out.append(decimal_text(i + 1).as_str());
        out.append(". ");
        out.append(st.description.as_str());
        match &st.read {
            Some(p) => {
                out.append(" [read ");
                out.append(p.as_str());
                out.append("]");
            },
            None => {},
        }
        out.append("\n");
        assert(steps@.take(i + 1).drop_last() =~= steps@.take(i as int));
        assert(out@ =~= before + step_line((i + 1) as nat, steps@[i as int]));
        i = i + 1;
    }
    assert(steps@.take(steps.len() as int) =~= steps@);
}

fn append_read_lines(out: &mut String, logs: &Vec<ReadLog>)
    ensures
        final(out)@ == old(out)@ + read_lines(logs@),
{
    let mut i: usize = 0;
    assert(logs@.take(0) =~= Seq::<ReadLog>::empty());
    while i < logs.len()
        invariant
            i <= logs.len(),
            out@ == old(out)@ + read_lines(logs@.take(i as int)),
        decreases logs.len() - i,
    {
        let ghost before = out@;
        out.append("  ");
        out.append(format_read_log(&logs[i]).as_str());
        out.append("\n");
        assert(logs@.take(i + 1).drop_last() =~= logs@.take(i as int));
        assert(out@ =~= before + "  "@ + read_log_text(logs@[i as int]) + "\n"@);
        i = i + 1;
    }
    assert(logs@.take(logs.len() as int) =~= logs@);
}

fn append_create_lines(out: &mut String, logs: &Vec<CreateLog>)
    ensures
        final(out)@ == old(out)@ + create_lines(logs@),
{
    let mut i: usize = 0;
    assert(logs@.take(0) =~= Seq::<CreateLog>::empty());
    while i < logs.len()
        invariant
            i <= logs.len(),
            out@ == old(out)@ + create_lines(logs@.take(i as int)),
        decreases logs.len() - i,
    {
        let ghost before = out@;
        out.append("  ");
        out.append(format_create_log(&logs[i]).as_str());
        out.append("\n");
        assert(logs@.take(i + 1).drop_last() =~= logs@.take(i as int));
        assert(out@ =~= before + "  "@ + create_log_text(logs@[i as int]) + "\n"@);
        i = i + 1;
    }
    assert(logs@.take(logs.len() as int) =~= logs@);
}

/// Summarises a turn: the request, the plan, the reads, the creates and the
/// start of the model's answer.
pub fn summarize_turn(user_prompt: &str, outcome: &AgentOutcome) -> (r: String)
    ensures
        r@ == turn_summary(user_prompt@, *outcome),
{
    let mut s = String::from_str("User: ");
    s.append(user_prompt);
    s.append("\n");
    let ghost head = s@;
    if outcome.plan.len() == 0 {
        s.append("Plan");
        s.append(": (none)\n");
    } else {
        s.append("Plan");
        s.append(":\n");
        append_plan_lines(&mut s, &outcome.plan);
    }
    assert(s@ =~= head + section("Plan"@, outcome.plan@.len() == 0, plan_lines(outcome.plan@)));
    let ghost head = s@;
    if outcome.reads.len() == 0 {
        s.append("Reads");
        s.append(": (none)\n");
    } else {
        s.append("Reads");
        s.append(":\n");
        append_read_lines(&mut s, &outcome.reads);
    }
    assert(s@ =~= head + section("Reads"@, outcome.reads@.len() == 0, read_lines(outcome.reads@)));
    let ghost head = s@;
    if outcome.creates.len() == 0 {
        s.append("Creates");
        s.append(": (none)\n");
    } else {
        s.append("Creates");
        s.append(":\n");
        append_create_lines(&mut s, &outcome.creates);
    }
    assert(s@ =~= head + section(
        "Creates"@,
        outcome.creates@.len() == 0,
        create_lines(outcome.creates@),
    ));
    s.append("Assistant:\n");
    s.append(truncate(outcome.response.content.as_str(), SUMMARY_ANSWER_BYTES).as_str());
    s
}


/// The lower-case form of `s`, as std's `str::to_lowercase` gives it.
pub uninterp spec fn lower_of(s: Seq<char>) -> Seq<char>;

/// Relies on str::to_lowercase: the result depends on the characters alone.
#[verifier::external_body]
fn lowercase(s: &str) -> (r: String)
    ensures
        r@ == lower_of(s@),
{
    s.to_lowercase()
}

/// A request asks for information rather than changes when its lower-case
/// text mentions `information`, `about` or `tell me`, or a lower-case step
/// description mentions `answer`.
pub open spec fn asks_information(prompt: Seq<char>, descriptions: Seq<Seq<char>>) -> bool {
    occurs(prompt, "information"@) || occurs(prompt, "about"@) || occurs(prompt, "tell me"@)
        || exists|i: int| 0 <= i < descriptions.len() && occurs(descriptions[i], "answer"@)
}

/// Decides `asks_information` on texts already in lower case.
pub fn informational_request(lowered_prompt: &str, lowered_descriptions: &Vec<String>) -> (r: bool)
    ensures
        r == asks_information(
            lowered_prompt@,
            lowered_descriptions@.map_values(|d: String| d@),
        ),
{
    if contains_text(lowered_prompt, "information") || contains_text(lowered_prompt, "about")
        || contains_text(lowered_prompt, "tell me") {
        return true;
    }
    let ghost ds = lowered_descriptions@.map_values(|d: String| d@);
    let mut i: usize = 0;
    while i < lowered_descriptions.len()
        invariant
            i <= lowered_descriptions.len(),
            ds == lowered_descriptions@.map_values(|d: String| d@),
            forall|j: int| 0 <= j < i ==> !occurs(ds[j], "answer"@),
        decreases lowered_descriptions.len() - i,
    {
        if contains_text(lowered_descriptions[i].as_str(), "answer") {
            assert(occurs(ds[i as int], "answer"@));
            return true;
        }
        i = i + 1;
    }
    false
}

/// Whether a turn answers a question instead of proposing edits.
pub fn is_informational(user_prompt: &str, plan: &Vec<PlanStep>) -> (r: bool)
    ensures
        r == asks_information(
            lower_of(user_prompt@),
            plan@.map_values(|st: PlanStep| lower_of(st.description@)),
        ),
{
    let mut lowered: Vec<String> = Vec::new();
    let mut i: usize = 0;
    while i < plan.len()
        invariant
            i <= plan.len(),
            lowered@.len() == i,
            forall|j: int| 0 <= j < i ==> lowered@[j]@ == lower_of(plan@[j].description@),
        decreases plan.len() - i,
    {
        lowered.push(lowercase(plan[i].description.as_str()));
        i = i + 1;
    }
    assert(lowered@.map_values(|d: String| d@) =~= plan@.map_values(
        |st: PlanStep| lower_of(st.description@),
    ));
    let p = lowercase(user_prompt);
    informational_request(p.as_str(), &lowered)
}

} // verus!
