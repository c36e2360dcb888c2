use vstd::prelude::*;
use vstd::string::*;

use crate::json::{lookup, member, parse_json, parsed_json, str_member, Json};
use crate::text::{
    chars_of, count_matches, lemma_first_match, find_chars, first_match, occurs, occurs_at_least, same_text, splice,
    spliced,
};

verus! {

/// What an edit holds, as plain values.
pub struct EditModel {
    pub path: Seq<char>,
    pub op: Seq<char>,
    pub anchor: Seq<char>,
    pub snippet: Seq<char>,
    pub limit: nat,
    pub rationale: Option<Seq<char>>,
}

impl View for Edit {
    type V = EditModel;

    open spec fn view(&self) -> EditModel {
        EditModel {
            path: self.path@,
            op: self.op@,
            anchor: self.anchor@,
            snippet: self.snippet@,
            limit: self.limit as nat,
            rationale: match self.rationale {
                Some(r) => Some(r@),
                None => None,
            },
        }
    }
}

/// One declarative change to a file: `op` is `replace`, `insert_after` or
/// `insert_before`; `anchor` is the literal text that locates it.
pub struct Edit {
    pub path: String,
    pub op: String,
    pub anchor: String,
    pub snippet: String,
    pub limit: usize,
    pub rationale: Option<String>,
}

/// Ordered edits: insertion order is application and review order.
pub struct EditBatch {
    pub edits: Vec<Edit>,
}

/// Why an edit could not be applied.
#[derive(PartialEq, Eq)]
pub enum EditError {
    /// The anchor is absent, or occurs fewer times than the edit's limit.
    AnchorNotFound,
    /// The operation name is none of the three known ones.
    UnsupportedOp { op: String },
}

impl EditError {
    /// Human-readable description of the failure.
    pub fn message(&self) -> (r: String)
        ensures
            match self {
                EditError::AnchorNotFound => r@ == "anchor not found enough times"@,
                EditError::UnsupportedOp { op } => r@ == "unsupported op: "@ + op@,
            },
    {
        match self {
            EditError::AnchorNotFound => String::from_str("anchor not found enough times"),
            EditError::UnsupportedOp { op } => {
                let mut m = String::from_str("unsupported op: ");
                m.append(op.as_str());
                m
            },
        }
    }
}

/// Limit used when an edit does not state one.
pub fn default_limit() -> (r: usize)
    ensures
        r == 1,
{
    1
}

/// `replace`: the first occurrence of `a` becomes `snip`, provided `a`
/// occurs at all and at least `limit` times.
pub open spec fn replaced(s: Seq<char>, a: Seq<char>, snip: Seq<char>, limit: nat) -> Option<
    Seq<char>,
> {
    match first_match(s, a) {
        Some(k) => if count_matches(s, a) >= limit {
            Some(spliced(s, k, a.len() as int, snip))
        } else {
            None
        },
        None => None,
    }
}

/// `insert_after`: `snip` goes right after the first occurrence of `a`.
pub open spec fn inserted_after(s: Seq<char>, a: Seq<char>, snip: Seq<char>) -> Option<Seq<char>> {
    match first_match(s, a) {
        Some(k) => Some(spliced(s, k + a.len(), 0, snip)),
        None => None,
    }
}

/// `insert_before`: `snip` goes right before the first occurrence of `a`.
pub open spec fn inserted_before(s: Seq<char>, a: Seq<char>, snip: Seq<char>) -> Option<Seq<char>> {
    match first_match(s, a) {
        Some(k) => Some(spliced(s, k, 0, snip)),
        None => None,
    }
}

/// The text that applying operation `op` yields, or `None` where its anchor
/// condition fails; only meaningful for the three known operations.
pub open spec fn edited(s: Seq<char>, op: Seq<char>, a: Seq<char>, snip: Seq<char>, limit: nat) -> Option<
    Seq<char>,
> {
    if op == "replace"@ {
        replaced(s, a, snip, limit)
    } else if op == "insert_after"@ {
        inserted_after(s, a, snip)
    } else {
        inserted_before(s, a, snip)
    }
}

/// The operation names that the engine knows.
pub open spec fn known_op(op: Seq<char>) -> bool {
    op == "replace"@ || op == "insert_after"@ || op == "insert_before"@
}

/// Replaces the first occurrence of `anchor` with `snippet`, provided it
/// occurs at least `limit` times (and at least once).
pub fn replace_once(s: &str, anchor: &str, snippet: &str, limit: usize) -> (r: Result<String, EditError>)
    ensures
        match r {
            Ok(t) => replaced(s@, anchor@, snippet@, limit as nat) == Some(t@),
            Err(e) => replaced(s@, anchor@, snippet@, limit as nat) is None && e
                == EditError::AnchorNotFound,
        },
{
    let cs = chars_of(s);
    let a = chars_of(anchor);
    match find_chars(&cs, &a, 0) {
        Some(k) => {
            if occurs_at_least(&cs, &a, limit) {
                Ok(splice(s, k, a.len(), snippet))
            } else {
                Err(EditError::AnchorNotFound)
            }
        },
        None => Err(EditError::AnchorNotFound),
    }
}

/// Inserts `snippet` right after the first occurrence of `anchor`.
pub fn insert_after(s: &str, anchor: &str, snippet: &str) -> (r: Result<String, EditError>)
    ensures
        match r {
            Ok(t) => inserted_after(s@, anchor@, snippet@) == Some(t@),
            Err(e) => inserted_after(s@, anchor@, snippet@) is None && e
                == EditError::AnchorNotFound,
        },
{
    let cs = chars_of(s);
    let a = chars_of(anchor);
    match find_chars(&cs, &a, 0) {
        Some(k) => {
            assert(k + a@.len() <= cs@.len());
            assert(k + a.len() <= cs.len());
            Ok(splice(s, k + a.len(), 0, snippet))
        },
        None => Err(EditError::AnchorNotFound),
    }
}

/// Inserts `snippet` right before the first occurrence of `anchor`.
pub fn insert_before(s: &str, anchor: &str, snippet: &str) -> (r: Result<String, EditError>)
    ensures
        match r {
            Ok(t) => inserted_before(s@, anchor@, snippet@) == Some(t@),
            Err(e) => inserted_before(s@, anchor@, snippet@) is None && e
                == EditError::AnchorNotFound,
        },
{
    let cs = chars_of(s);
    let a = chars_of(anchor);
    match find_chars(&cs, &a, 0) {
        Some(k) => Ok(splice(s, k, 0, snippet)),
        None => Err(EditError::AnchorNotFound),
    }
}

/// Applies one edit to `original`. Pure: the same inputs give the same result.
pub fn apply_edit(original: &str, e: &Edit) -> (r: Result<String, EditError>)
    ensures
        known_op(e.op@) ==> match r {
            Ok(t) => edited(original@, e.op@, e.anchor@, e.snippet@, e.limit as nat) == Some(t@),
            Err(err) => edited(original@, e.op@, e.anchor@, e.snippet@, e.limit as nat) is None
                && err == EditError::AnchorNotFound,
        },
        !known_op(e.op@) ==> r == Err::<String, EditError>(EditError::UnsupportedOp { op: e.op }),
{
    proof {
        reveal_strlit("replace");
        reveal_strlit("insert_after");
        reveal_strlit("insert_before");
    }
    if same_text(e.op.as_str(), "replace") {
        replace_once(original, e.anchor.as_str(), e.snippet.as_str(), e.limit)
    } else if same_text(e.op.as_str(), "insert_after") {
        insert_after(original, e.anchor.as_str(), e.snippet.as_str())
    } else if same_text(e.op.as_str(), "insert_before") {
        insert_before(original, e.anchor.as_str(), e.snippet.as_str())
    } else {
        Err(EditError::UnsupportedOp { op: e.op.clone() })
    }
}


/// Inserting `s` after an anchor that occurs in `t`, then removing `|s|`
/// characters at the insertion offset (just past the anchor's first
/// occurrence), gives back `t`.
pub proof fn lemma_insert_after_round_trip(t: Seq<char>, a: Seq<char>, s: Seq<char>)
    requires
        occurs(t, a),
    ensures
        first_match(t, a) is Some,
        inserted_after(t, a, s) is Some,
        spliced(
            inserted_after(t, a, s)->0,
            first_match(t, a)->0 + a.len(),
            s.len() as int,
            Seq::<char>::empty(),
        ) == t,
{
    lemma_first_match(t, a);
    let k = first_match(t, a)->0;
    let r = spliced(t, k + a.len(), 0, s);
    assert(spliced(r, k + a.len(), s.len() as int, Seq::<char>::empty()) =~= t);
}

/// A `replace` whose anchor does not occur in `t` fails, whatever the limit.
pub proof fn lemma_replace_absent_anchor_fails(t: Seq<char>, a: Seq<char>, s: Seq<char>, limit: nat)
    requires
        !occurs(t, a),
    ensures
        edited(t, "replace"@, a, s, limit) is None,
{
    lemma_first_match(t, a);
}


/// One thing the model asked for in a tool-call list.
pub enum Action {
    Edit(Edit),
    ReadFile { path: String },
    ListDirectory { path: String },
    ProvideAnswer { answer: String },
}

/// An `Action` as plain values.
pub enum ActionModel {
    Edit(EditModel),
    ReadFile(Seq<char>),
    ListDirectory(Seq<char>),
    ProvideAnswer(Seq<char>),
}

impl View for Action {
    type V = ActionModel;

    open spec fn view(&self) -> ActionModel {
        match self {
            Action::Edit(e) => ActionModel::Edit(e@),
            Action::ReadFile { path } => ActionModel::ReadFile(path@),
            Action::ListDirectory { path } => ActionModel::ListDirectory(path@),
            Action::ProvideAnswer { answer } => ActionModel::ProvideAnswer(answer@),
        }
    }
}

/// The model's output is not the structure that was asked for.
#[derive(PartialEq, Eq, Structural)]
pub enum ParseFailure {
    Malformed,
}

impl ParseFailure {
    /// Human-readable description of the failure.
    pub fn message(&self) -> (r: String)
        ensures
            r@ == "failed to parse tool calls"@,
    {
        String::from_str("failed to parse tool calls")
    }
}

/// An edit with the given fields, limit 1 and no rationale.
pub open spec fn simple_edit(path: Seq<char>, op: Seq<char>, anchor: Seq<char>, snippet: Seq<char>) -> EditModel {
    EditModel { path, op, anchor, snippet, limit: 1, rationale: None }
}

/// The action that tool `name` with arguments `args` stands for.
pub open spec fn action_for_tool(name: Seq<char>, args: Json) -> Option<ActionModel> {
    if name == "read"@ {
        match str_member(args, "file_path"@) {
            Some(p) => Some(ActionModel::ReadFile(p)),
            None => None,
        }
    } else if name == "list"@ {
        match str_member(args, "path"@) {
            Some(p) => Some(ActionModel::ListDirectory(p)),
            None => Some(ActionModel::ListDirectory("."@)),
        }
    } else if name == "edit"@ {
        match (
            str_member(args, "file_path"@),
            str_member(args, "old_string"@),
            str_member(args, "new_string"@),
        ) {
            (Some(p), Some(o), Some(n)) => Some(ActionModel::Edit(simple_edit(p, "replace"@, o, n))),
            _ => None,
        }
    } else if name == "answer"@ {
        match str_member(args, "text"@) {
            Some(t) => Some(ActionModel::ProvideAnswer(t)),
            None => None,
        }
    } else if name == "replace_text"@ || name == "insert_after"@ || name == "insert_before"@ {
        match (str_member(args, "path"@), str_member(args, "anchor"@), str_member(args, "snippet"@)) {
            (Some(p), Some(a), Some(sn)) => Some(
                ActionModel::Edit(
                    EditModel {
                        path: p,
                        op: if name == "replace_text"@ {
                            "replace"@
                        } else {
                            name
                        },
                        anchor: a,
                        snippet: sn,
                        limit: 1,
                        rationale: str_member(args, "rationale"@),
                    },
                ),
            ),
            _ => None,
        }
    } else if name == "provide_answer"@ {
        match str_member(args, "answer"@) {
            Some(t) => Some(ActionModel::ProvideAnswer(t)),
            None => None,
        }
    } else {
        None
    }
}

/// The action one tool call stands for (see `step_of_call` for the shape).
pub open spec fn action_of_call(call: Json) -> Option<ActionModel> {
    match member(call, "function"@) {
        Some(f) => match (str_member(f, "name"@), str_member(f, "arguments"@)) {
            (Some(name), Some(args_text)) => match parsed_json(args_text) {
                Some(args) => action_for_tool(name, args),
                None => None,
            },
            _ => None,
        },
        None => None,
    }
}

/// The actions of the calls that stand for one, in order.
pub open spec fn actions_of_calls(calls: Seq<Json>) -> Seq<ActionModel>
    decreases calls.len(),
{
    if calls.len() == 0 {
        Seq::empty()
    } else {
        let rest = actions_of_calls(calls.drop_last());
        match action_of_call(calls.last()) {
            Some(a) => rest.push(a),
            None => rest,
        }
    }
}

/// The models of a list of actions.
pub open spec fn actions_model(v: Seq<Action>) -> Seq<ActionModel> {
    v.map_values(|a: Action| a@)
}

/// The models of a list of edits.
pub open spec fn edits_model(v: Seq<Edit>) -> Seq<EditModel> {
    v.map_values(|e: Edit| e@)
}

fn text_of(s: &str) -> (r: String)
    ensures
        r@ == s@,
{
    String::from_str(s)
}

fn tool_action(name: &str, args: &Json) -> (r: Option<Action>)
    ensures
        r matches Some(a) ==> action_for_tool(name@, *args) == Some(a@),
        r is None ==> action_for_tool(name@, *args) is None,
{
    if same_text(name, "read") {
        match args.get_str("file_path") {
            Some(p) => Some(Action::ReadFile { path: p.clone() }),
            None => None,
        }
    } else if same_text(name, "list") {
        match args.get_str("path") {
            Some(p) => Some(Action::ListDirectory { path: p.clone() }),
            None => Some(Action::ListDirectory { path: text_of(".") }),
        }
    } else if same_text(name, "edit") {
        match (args.get_str("file_path"), args.get_str("old_string"), args.get_str("new_string")) {
            (Some(p), Some(o), Some(n)) => Some(
                Action::Edit(
                    Edit {
                        path: p.clone(),
                        op: text_of("replace"),
                        anchor: o.clone(),
                        snippet: n.clone(),
                        limit: 1,
                        rationale: None,
                    },
                ),
            ),
            _ => None,
        }
    } else if same_text(name, "answer") {
        match args.get_str("text") {
            Some(t) => Some(Action::ProvideAnswer { answer: t.clone() }),
            None => None,
        }
    } else if same_text(name, "replace_text") || same_text(name, "insert_after") || same_text(
        name,
        "insert_before",
    ) {
        match (args.get_str("path"), args.get_str("anchor"), args.get_str("snippet")) {
            (Some(p), Some(a), Some(sn)) => {
                let op = if same_text(name, "replace_text") {
                    text_of("replace")
                } else {
                    text_of(name)
                };
                let rationale = match args.get_str("rationale") {
                    Some(x) => Some(x.clone()),
                    None => None,
                };
                Some(
                    Action::Edit(
                        Edit {
                            path: p.clone(),
                            op,
                            anchor: a.clone(),
                            snippet: sn.clone(),
                            limit: 1,
                            rationale,
                        },
                    ),
                )
            },
            _ => None,
        }
    } else if same_text(name, "provide_answer") {
        match args.get_str("answer") {
            Some(t) => Some(Action::ProvideAnswer { answer: t.clone() }),
            None => None,
        }
    } else {
        None
    }
}

fn call_action(call: &Json) -> (r: Option<Action>)
    ensures
        r matches Some(a) ==> action_of_call(*call) == Some(a@),
        r is None ==> action_of_call(*call) is None,
{
    let f = match call.get("function") {
        Some(f) => f,
        None => {
            return None;
        },
    };
    let name = match f.get_str("name") {
        Some(n) => n,
        None => {
            return None;
        },
    };
    let args_text = match f.get_str("arguments") {
        Some(a) => a,
        None => {
            return None;
        },
    };
    match parse_json(args_text.as_str()) {
        Some(args) => tool_action(name.as_str(), &args),
        None => None,
    }
}

/// The actions of a tool-call list, in order; calls that are malformed or
/// name an unknown tool are left out.
pub fn actions_of(calls: &Vec<Json>) -> (r: Vec<Action>)
    ensures
        actions_model(r@) == actions_of_calls(calls@),
{
    let mut out: Vec<Action> = Vec::new();
    let mut i: usize = 0;
    while i < calls.len()
        invariant
            i <= calls.len(),
            actions_model(out@) == actions_of_calls(calls@.take(i as int)),
        decreases calls.len() - i,
    {
        assert(calls@.take(i + 1).drop_last() =~= calls@.take(i as int));
        assert(calls@.take(i + 1).last() == calls@[i as int]);
        match call_action(&calls[i]) {
            Some(a) => {
                out.push(a);
                assert(actions_model(out@) =~= actions_of_calls(calls@.take(i + 1)));
            },
            None => {},
        }
        i = i + 1;
    }
    assert(calls@.take(calls.len() as int) =~= calls@);
    out
}

/// Reads a JSON array of tool calls into actions.
pub fn parse_actions(json_text: &str) -> (r: Result<Vec<Action>, ParseFailure>)
    ensures
        match parsed_json(json_text@) {
            Some(Json::Array(calls)) => r matches Ok(v) && actions_model(v@) == actions_of_calls(
                calls@,
            ),
            _ => r == Err::<Vec<Action>, ParseFailure>(ParseFailure::Malformed),
        },
{
    match parse_json(json_text) {
        Some(Json::Array(calls)) => Ok(actions_of(&calls)),
        _ => Err(ParseFailure::Malformed),
    }
}


/// The value of a non-empty run of decimal digits.
pub open spec fn digits_value(s: Seq<char>) -> nat
    decreases s.len(),
{
    if s.len() == 0 {
        0
    } else {
        (digits_value(s.drop_last()) * 10 + (s.last() as int - '0' as int)) as nat
    }
}

/// The non-negative integer that the number text `s` spells, if it is one.
pub open spec fn unsigned_of(s: Seq<char>) -> Option<nat> {
    if s.len() > 0 && forall|i: int| 0 <= i < s.len() ==> '0' <= #[trigger] s[i] <= '9' {
        Some(digits_value(s))
    } else {
        None
    }
}

/// Reads a number text as a `usize`, if it is a non-negative integer that fits.
pub fn parse_usize(s: &str) -> (r: Option<usize>)
    ensures
        match unsigned_of(s@) {
            Some(n) => if n <= usize::MAX {
                r == Some(n as usize)
            } else {
                r is None
            },
            None => r is None,
        },
{
    let cs = chars_of(s);
    if cs.len() == 0 {
        return None;
    }
    let mut v: usize = 0;
    let mut i: usize = 0;
    while i < cs.len()
        invariant
            cs@ == s@,
            i <= cs.len(),
            forall|j: int| 0 <= j < i ==> '0' <= #[trigger] s@[j] <= '9',
            v == digits_value(s@.take(i as int)),
        decreases cs.len() - i,
    {
        let c = cs[i];
        if !('0' <= c && c <= '9') {
            return None;
        }
        let d = (c as u32 - '0' as u32) as usize;
        assert(s@.take(i + 1).drop_last() =~= s@.take(i as int));
        if v > (usize::MAX - d) / 10 {
            proof {
                assert(digits_value(s@.take(i + 1)) == v * 10 + d);
                assert(v * 10 + d > usize::MAX) by (nonlinear_arith)
                    requires
                        v > (usize::MAX - d) / 10,
                        d <= 9,
                ;
                if forall|j: int| 0 <= j < s@.len() ==> '0' <= #[trigger] s@[j] <= '9' {
                    lemma_digits_grow(s@, i + 1);
                }
            }
            return None;
        }
        assert(v * 10 + d <= usize::MAX) by (nonlinear_arith)
            requires
                v <= (usize::MAX - d) / 10,
                d <= 9,
        ;
        v = v * 10 + d;
        i = i + 1;
    }
    assert(s@.take(cs.len() as int) =~= s@);
    Some(v)
}

proof fn lemma_digits_grow(s: Seq<char>, k: int)
    requires
        0 <= k <= s.len(),
        forall|j: int| 0 <= j < s.len() ==> '0' <= #[trigger] s[j] <= '9',
    ensures
        digits_value(s) >= digits_value(s.take(k)),
    decreases s.len() - k,
{
    if k < s.len() {
        lemma_digits_grow(s, k + 1);
        assert(s.take(k + 1).drop_last() =~= s.take(k));
    } else {
        assert(s.take(k) =~= s);
    }
}

/// An edit object of the `{"edits": [...]}` form: `path`, `op`, `anchor`
/// and `snippet` strings, an optional non-negative integer `limit`
/// (default 1) and an optional, possibly null, string `rationale`.
pub open spec fn edit_of_object(v: Json) -> Option<EditModel> {
    let limit: Option<nat> = match member(v, "limit"@) {
        None => Some(1),
        Some(Json::Number(t)) => match unsigned_of(t@) {
            Some(n) => if n <= usize::MAX {
                Some(n)
            } else {
                None
            },
            None => None,
        },
        _ => None,
    };
    let rationale: Option<Option<Seq<char>>> = match member(v, "rationale"@) {
        None => Some(None),
        Some(Json::Null) => Some(None),
        Some(Json::Str(r)) => Some(Some(r@)),
        _ => None,
    };
    match (
        str_member(v, "path"@),
        str_member(v, "op"@),
        str_member(v, "anchor"@),
        str_member(v, "snippet"@),
        limit,
        rationale,
    ) {
        (Some(p), Some(o), Some(a), Some(sn), Some(l), Some(r)) => Some(
            EditModel { path: p, op: o, anchor: a, snippet: sn, limit: l, rationale: r },
        ),
        _ => None,
    }
}

/// The edits of a list of edit objects; `None` if any of them is malformed.
pub open spec fn edits_of_objects(items: Seq<Json>) -> Option<Seq<EditModel>>
    decreases items.len(),
{
    if items.len() == 0 {
        Some(Seq::empty())
    } else {
        match (edits_of_objects(items.drop_last()), edit_of_object(items.last())) {
            (Some(es), Some(e)) => Some(es.push(e)),
            _ => None,
        }
    }
}

/// The edits among `actions`, in order.
pub open spec fn edits_of_actions(actions: Seq<ActionModel>) -> Seq<EditModel>
    decreases actions.len(),
{
    if actions.len() == 0 {
        Seq::empty()
    } else {
        let rest = edits_of_actions(actions.drop_last());
        match actions.last() {
            ActionModel::Edit(e) => rest.push(e),
            _ => rest,
        }
    }
}

/// The edit batch that the model output `t` holds: an object whose `edits`
/// member is an array of edit objects, or an array of tool calls whose edit
/// calls are kept.
pub open spec fn batch_of(t: Seq<char>) -> Option<Seq<EditModel>> {
    match parsed_json(t) {
        Some(Json::Array(calls)) => Some(edits_of_actions(actions_of_calls(calls@))),
        Some(Json::Object(fields)) => match lookup(fields@, "edits"@) {
            Some(Json::Array(items)) => edits_of_objects(items@),
            _ => None,
        },
        _ => None,
    }
}

fn edit_object(v: &Json) -> (r: Option<Edit>)
    ensures
        r matches Some(e) ==> edit_of_object(*v) == Some(e@),
        r is None ==> edit_of_object(*v) is None,
{
    let limit = match v.get("limit") {
        None => 1,
        Some(Json::Number(t)) => match parse_usize(t.as_str()) {
            Some(n) => n,
            None => {
                return None;
            },
        },
        _ => {
            return None;
        },
    };
    let rationale = match v.get("rationale") {
        None => None,
        Some(Json::Null) => None,
        Some(Json::Str(r)) => Some(r.clone()),
        _ => {
            return None;
        },
    };
    match (v.get_str("path"), v.get_str("op"), v.get_str("anchor"), v.get_str("snippet")) {
        (Some(p), Some(o), Some(a), Some(sn)) => Some(
            Edit {
                path: p.clone(),
                op: o.clone(),
                anchor: a.clone(),
                snippet: sn.clone(),
                limit,
                rationale,
            },
        ),
        _ => None,
    }
}

fn edit_objects(items: &Vec<Json>) -> (r: Option<Vec<Edit>>)
    ensures
        match edits_of_objects(items@) {
            Some(es) => r matches Some(v) && edits_model(v@) == es,
            None => r is None,
        },
{
    let mut out: Vec<Edit> = Vec::new();
    let mut i: usize = 0;
    while i < items.len()
        invariant
            i <= items.len(),
            edits_of_objects(items@.take(i as int)) == Some(edits_model(out@)),
        decreases items.len() - i,
    {
        assert(items@.take(i + 1).drop_last() =~= items@.take(i as int));
        assert(items@.take(i + 1).last() == items@[i as int]);
        match edit_object(&items[i]) {
            Some(e) => {
                out.push(e);
                assert(edits_model(out@) =~= edits_model(out@.drop_last()).push(out@.last()@));
            },
            None => {
                proof {
                    lemma_objects_fail(items@, i as int);
                }
                return None;
            },
        }
        i = i + 1;
    }
    assert(items@.take(items.len() as int) =~= items@);
    Some(out)
}

proof fn lemma_objects_fail(items: Seq<Json>, i: int)
    requires
        0 <= i < items.len(),
        edit_of_object(items[i]) is None,
    ensures
        edits_of_objects(items) is None,
    decreases items.len(),
{
    if i < items.len() - 1 {
        assert(items.drop_last()[i] == items[i]);
        lemma_objects_fail(items.drop_last(), i);
    }
}

fn edits_among(actions: Vec<Action>) -> (r: Vec<Edit>)
    ensures
        edits_model(r@) == edits_of_actions(actions_model(actions@)),
{
    let mut out: Vec<Edit> = Vec::new();
    let mut rest = actions;
    let ghost all = actions_model(rest@);
    let mut i: usize = 0;
    while i < rest.len()
        invariant
            i <= rest.len(),
            actions_model(rest@) == all,
            edits_model(out@) == edits_of_actions(all.take(i as int)),
        decreases rest.len() - i,
    {
        assert(all.take(i + 1).drop_last() =~= all.take(i as int));
        assert(all.take(i + 1).last() == rest@[i as int]@);
        match &rest[i] {
            Action::Edit(e) => {
                out.push(copy_edit(e));
                assert(edits_model(out@) =~= edits_model(out@.drop_last()).push(out@.last()@));
            },
            _ => {},
        }
        i = i + 1;
    }
    assert(all.take(rest.len() as int) =~= all);
    out
}

fn copy_text(s: &String) -> (r: String)
    ensures
        r@ == s@,
{
    s.clone()
}

fn copy_edit(e: &Edit) -> (r: Edit)
    ensures
        r@ == e@,
{
    Edit {
        path: copy_text(&e.path),
        op: copy_text(&e.op),
        anchor: copy_text(&e.anchor),
        snippet: copy_text(&e.snippet),
        limit: e.limit,
        rationale: match &e.rationale {
            Some(x) => Some(copy_text(x)),
            None => None,
        },
    }
}

/// Reads the model's edit proposal: an object `{"edits": [...]}` or an
/// array of tool calls; anything else fails.
pub fn parse_edits(json_text: &str) -> (r: Result<EditBatch, ParseFailure>)
    ensures
        match batch_of(json_text@) {
            Some(es) => r matches Ok(b) && edits_model(b.edits@) == es,
            None => r == Err::<EditBatch, ParseFailure>(ParseFailure::Malformed),
        },
{
    match parse_json(json_text) {
        Some(Json::Array(calls)) => Ok(EditBatch { edits: edits_among(actions_of(&calls)) }),
        Some(doc) => {
            match &doc {
                Json::Object(_) => match doc.get("edits") {
                    Some(Json::Array(items)) => match edit_objects(items) {
                        Some(edits) => Ok(EditBatch { edits }),
                        None => Err(ParseFailure::Malformed),
                    },
                    _ => Err(ParseFailure::Malformed),
                },
                _ => Err(ParseFailure::Malformed),
            }
        },
        None => Err(ParseFailure::Malformed),
    }
}

} // verus!
