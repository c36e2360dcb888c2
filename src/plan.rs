use vstd::prelude::*;
use vstd::string::*;

use crate::json::{lookup, member, parse_json, parsed_json, str_member, Json};
use crate::text::same_text;

verus! {

/// One step of an execution plan, optionally naming a file to read or create.
pub struct PlanStep {
    pub description: String,
    pub read: Option<String>,
    pub create: Option<String>,
}

/// What a plan step holds, as character sequences.
pub struct StepModel {
    pub description: Seq<char>,
    pub read: Option<Seq<char>>,
    pub create: Option<Seq<char>>,
}

/// The characters of an optional string.
pub open spec fn opt_text(o: Option<String>) -> Option<Seq<char>> {
    match o {
        Some(s) => Some(s@),
        None => None,
    }
}

impl View for PlanStep {
    type V = StepModel;

    open spec fn view(&self) -> StepModel {
        StepModel {
            description: self.description@,
            read: opt_text(self.read),
            create: opt_text(self.create),
        }
    }
}

/// The models of a list of steps.
pub open spec fn steps_model(v: Seq<PlanStep>) -> Seq<StepModel> {
    v.map_values(|s: PlanStep| s@)
}

/// `prefix`, `subject`, `mid` and `reason`, one after the other.
pub open spec fn described(prefix: Seq<char>, subject: Seq<char>, mid: Seq<char>, reason: Seq<char>) -> Seq<char> {
    prefix + subject + mid + reason
}

/// The step that planning tool `name` with arguments `args` stands for.
pub open spec fn step_for_tool(name: Seq<char>, args: Json) -> Option<StepModel> {
    let reason = str_member(args, "reason"@);
    if name == "read_file"@ {
        match (str_member(args, "path"@), reason) {
            (Some(p), Some(r)) => Some(
                StepModel { description: described("Read "@, p, ": "@, r), read: Some(p), create: None },
            ),
            _ => None,
        }
    } else if name == "create_file"@ {
        match (str_member(args, "path"@), reason) {
            (Some(p), Some(r)) => Some(
                StepModel { description: described("Create "@, p, ": "@, r), read: None, create: Some(p) },
            ),
            _ => None,
        }
    } else if name == "list_directory"@ {
        let p = match str_member(args, "path"@) {
            Some(p) => p,
            None => "."@,
        };
        match reason {
            Some(r) => Some(
                StepModel { description: described("List directory "@, p, ": "@, r), read: None, create: None },
            ),
            None => None,
        }
    } else if name == "analyze_code"@ {
        match (str_member(args, "focus"@), reason) {
            (Some(f), Some(r)) => Some(
                StepModel { description: described("Analyze "@, f, ": "@, r), read: None, create: None },
            ),
            _ => None,
        }
    } else if name == "search_files"@ {
        match (str_member(args, "pattern"@), reason) {
            (Some(p), Some(r)) => Some(
                StepModel { description: described("Search for "@, p, ": "@, r), read: None, create: None },
            ),
            _ => None,
        }
    } else if name == "answer_question"@ {
        match (str_member(args, "question"@), reason) {
            (Some(q), Some(r)) => Some(
                StepModel { description: described("Answer '"@, q, "': "@, r), read: None, create: None },
            ),
            _ => None,
        }
    } else {
        None
    }
}

/// The step that one tool call (`{"function": {"name", "arguments"}}`, the
/// arguments being JSON text) stands for.
pub open spec fn step_of_call(call: Json) -> Option<StepModel> {
    match member(call, "function"@) {
        Some(f) => match (str_member(f, "name"@), str_member(f, "arguments"@)) {
            (Some(name), Some(args_text)) => match parsed_json(args_text) {
                Some(args) => step_for_tool(name, args),
                None => None,
            },
            _ => None,
        },
        None => None,
    }
}

/// The steps of the calls that stand for one, in order.
pub open spec fn steps_of_calls(calls: Seq<Json>) -> Seq<StepModel>
    decreases calls.len(),
{
    if calls.len() == 0 {
        Seq::empty()
    } else {
        let rest = steps_of_calls(calls.drop_last());
        match step_of_call(calls.last()) {
            Some(st) => rest.push(st),
            None => rest,
        }
    }
}

fn describe(prefix: &str, subject: &str, mid: &str, reason: &str) -> (r: String)
    ensures
        r@ == described(prefix@, subject@, mid@, reason@),
{
    let mut r = String::from_str(prefix);
    r.append(subject);
    r.append(mid);
    r.append(reason);
    r
}

fn labelled_step(prefix: &str, subject: &String, mid: &str, reason: &String) -> (r: PlanStep)
    ensures
        r@ == (StepModel {
            description: described(prefix@, subject@, mid@, reason@),
            read: None,
            create: None,
        }),
{
    PlanStep { description: describe(prefix, subject.as_str(), mid, reason.as_str()), read: None, create: None }
}

fn tool_step(name: &str, args: &Json) -> (r: Option<PlanStep>)
    ensures
        r matches Some(st) ==> step_for_tool(name@, *args) == Some(st@),
        r is None ==> step_for_tool(name@, *args) is None,
{
    let reason = match args.get_str("reason") {
        Some(r) => r,
        None => {
            return None;
        },
    };
    if same_text(name, "read_file") {
        match args.get_str("path") {
            Some(p) => Some(
                PlanStep {
                    description: describe("Read ", p.as_str(), ": ", reason.as_str()),
                    read: Some(p.clone()),
                    create: None,
                },
            ),
            None => None,
        }
    } else if same_text(name, "create_file") {
        match args.get_str("path") {
            Some(p) => Some(
                PlanStep {
                    description: describe("Create ", p.as_str(), ": ", reason.as_str()),
                    read: None,
                    create: Some(p.clone()),
                },
            ),
            None => None,
        }
    } else if same_text(name, "list_directory") {
        let dot = String::from_str(".");
        let p = match args.get_str("path") {
            Some(p) => p,
            None => &dot,
        };
        Some(labelled_step("List directory ", p, ": ", reason))
    } else if same_text(name, "analyze_code") {
        match args.get_str("focus") {
            Some(f) => Some(labelled_step("Analyze ", f, ": ", reason)),
            None => None,
        }
    } else if same_text(name, "search_files") {
        match args.get_str("pattern") {
            Some(p) => Some(labelled_step("Search for ", p, ": ", reason)),
            None => None,
        }
    } else if same_text(name, "answer_question") {
        match args.get_str("question") {
            Some(q) => Some(labelled_step("Answer '", q, "': ", reason)),
            None => None,
        }
    } else {
        None
    }
}

fn call_step(call: &Json) -> (r: Option<PlanStep>)
    ensures
        r matches Some(st) ==> step_of_call(*call) == Some(st@),
        r is None ==> step_of_call(*call) is None,
{
    let f = match call.get("function") {
        Some(f) => f,
        None => {
            return None;
        },
    };
    let name = match f.get_str("name") {
        Some(n) => n,
        None => {
            return None;
        },
    };
    let args_text = match f.get_str("arguments") {
        Some(a) => a,
        None => {
            return None;
        },
    };
    match parse_json(args_text.as_str()) {
        Some(args) => tool_step(name.as_str(), &args),
        None => None,
    }
}

/// An optional member `key` that must be a string where present: `None`
/// where it has another type, `Some(None)` where it is absent or null.
pub open spec fn optional_str(v: Json, key: Seq<char>) -> Option<Option<Seq<char>>> {
    match member(v, key) {
        None => Some(None),
        Some(Json::Null) => Some(None),
        Some(Json::Str(s)) => Some(Some(s@)),
        _ => None,
    }
}

/// A step object of the `{"plan": [...]}` form: a `description` string and
/// optional, possibly null, `read` and `create` strings.
pub open spec fn step_of_object(v: Json) -> Option<StepModel> {
    match (str_member(v, "description"@), optional_str(v, "read"@), optional_str(v, "create"@)) {
        (Some(d), Some(r), Some(c)) => Some(StepModel { description: d, read: r, create: c }),
        _ => None,
    }
}

/// The steps of a list of step objects; `None` if any of them is malformed.
pub open spec fn steps_of_objects(items: Seq<Json>) -> Option<Seq<StepModel>>
    decreases items.len(),
{
    if items.len() == 0 {
        Some(Seq::empty())
    } else {
        match (steps_of_objects(items.drop_last()), step_of_object(items.last())) {
            (Some(ss), Some(st)) => Some(ss.push(st)),
            _ => None,
        }
    }
}

/// The plan that the model output `t` holds: an array of planning tool
/// calls, or an object whose `plan` member is an array of step objects.
pub open spec fn plan_of(t: Seq<char>) -> Option<Seq<StepModel>> {
    match parsed_json(t) {
        Some(Json::Array(calls)) => Some(steps_of_calls(calls@)),
        Some(Json::Object(fields)) => match lookup(fields@, "plan"@) {
            Some(Json::Array(items)) => steps_of_objects(items@),
            _ => None,
        },
        _ => None,
    }
}

fn optional_text(v: &Json, key: &str) -> (r: Option<Option<String>>)
    ensures
        match optional_str(*v, key@) {
            Some(Some(s)) => r matches Some(Some(x)) && x@ == s,
            Some(None) => r matches Some(None),
            None => r is None,
        },
{
    match v.get(key) {
        None => Some(None),
        Some(Json::Null) => Some(None),
        Some(Json::Str(s)) => Some(Some(s.clone())),
        _ => None,
    }
}

fn step_object(v: &Json) -> (r: Option<PlanStep>)
    ensures
        r matches Some(st) ==> step_of_object(*v) == Some(st@),
        r is None ==> step_of_object(*v) is None,
{
    let d = match v.get_str("description") {
        Some(d) => d,
        None => {
            return None;
        },
    };
    let read = match optional_text(v, "read") {
        Some(x) => x,
        None => {
            return None;
        },
    };
    let create = match optional_text(v, "create") {
        Some(x) => x,
        None => {
            return None;
        },
    };
    Some(PlanStep { description: d.clone(), read, create })
}

proof fn lemma_objects_fail(items: Seq<Json>, i: int)
    requires
        0 <= i < items.len(),
        step_of_object(items[i]) is None,
    ensures
        steps_of_objects(items) is None,
    decreases items.len(),
{
    if i < items.len() - 1 {
        assert(items.drop_last()[i] == items[i]);
        lemma_objects_fail(items.drop_last(), i);
    }
}

fn step_objects(items: &Vec<Json>) -> (r: Option<Vec<PlanStep>>)
    ensures
        match steps_of_objects(items@) {
            Some(ss) => r matches Some(v) && steps_model(v@) == ss,
            None => r is None,
        },
{
    let mut out: Vec<PlanStep> = Vec::new();
    let mut i: usize = 0;
    while i < items.len()
        invariant
            i <= items.len(),
            steps_of_objects(items@.take(i as int)) == Some(steps_model(out@)),
        decreases items.len() - i,
    {
        assert(items@.take(i + 1).drop_last() =~= items@.take(i as int));
        assert(items@.take(i + 1).last() == items@[i as int]);
        match step_object(&items[i]) {
            Some(st) => {
                out.push(st);
                assert(steps_model(out@) =~= steps_model(out@.drop_last()).push(out@.last()@));
            },
            None => {
                proof {
                    lemma_objects_fail(items@, i as int);
                }
                return None;
            },
        }
        i = i + 1;
    }
    assert(items@.take(items.len() as int) =~= items@);
    Some(out)
}

fn call_steps(calls: &Vec<Json>) -> (r: Vec<PlanStep>)
    ensures
        steps_model(r@) == steps_of_calls(calls@),
{
    let mut steps: Vec<PlanStep> = Vec::new();
    let mut i: usize = 0;
    while i < calls.len()
        invariant
            i <= calls.len(),
            steps_model(steps@) == steps_of_calls(calls@.take(i as int)),
        decreases calls.len() - i,
    {
        assert(calls@.take(i + 1).drop_last() =~= calls@.take(i as int));
        assert(calls@.take(i + 1).last() == calls@[i as int]);
        match call_step(&calls[i]) {
            Some(st) => {
                steps.push(st);
                assert(steps_model(steps@) =~= steps_of_calls(calls@.take(i + 1)));
            },
            None => {},
        }
        i = i + 1;
    }
    assert(calls@.take(calls.len() as int) =~= calls@);
    steps
}

/// Reads a plan: a JSON array of planning tool calls, whose malformed or
/// unknown calls are left out, or an object `{"plan": [...]}` of step
/// objects, all of which must be well formed. Anything else gives `None`.
pub fn parse_plan(content: &str) -> (r: Option<Vec<PlanStep>>)
    ensures
        match plan_of(content@) {
            Some(ss) => r matches Some(steps) && steps_model(steps@) == ss,
            None => r is None,
        },
{
    match parse_json(content) {
        Some(Json::Array(calls)) => Some(call_steps(&calls)),
        Some(doc) => match &doc {
            Json::Object(_) => match doc.get("plan") {
                Some(Json::Array(items)) => step_objects(items),
                _ => None,
            },
            _ => None,
        },
        None => None,
    }
}

} // verus!
