use vstd::prelude::*;
use vstd::string::*;

use crate::agent::{CreateLog, CreateOutcome, ReadLog, ReadOutcome};
use crate::plan::{steps_model, PlanStep, StepModel};
use crate::text::{chars_of, find_chars, first_match, trim, trimmed, truncate, truncated};

verus! {

/// Largest part of one file, in bytes, that goes into a turn's context.
pub const MAX_CONTEXT_BYTES_PER_FILE: usize = 8000;

/// One filesystem action that a plan asks for, in plan order.
pub enum PlanOp {
    /// Create an empty file unless it exists.
    Create { path: String },
    /// A target already created in this turn: logged, not touched again.
    RepeatCreate { path: String },
    /// Read a file into the context.
    Read { path: String },
    /// A target already read in this turn: logged as skipped.
    RepeatRead { path: String },
    /// List a directory into the context.
    List { path: String },
}

/// A `PlanOp` as character sequences.
pub enum OpModel {
    Create(Seq<char>),
    RepeatCreate(Seq<char>),
    Read(Seq<char>),
    RepeatRead(Seq<char>),
    List(Seq<char>),
}

impl View for PlanOp {
    type V = OpModel;

    open spec fn view(&self) -> OpModel {
        match self {
            PlanOp::Create { path } => OpModel::Create(path@),
            PlanOp::RepeatCreate { path } => OpModel::RepeatCreate(path@),
            PlanOp::Read { path } => OpModel::Read(path@),
            PlanOp::RepeatRead { path } => OpModel::RepeatRead(path@),
            PlanOp::List { path } => OpModel::List(path@),
        }
    }
}

/// The models of a list of operations.
pub open spec fn ops_model(v: Seq<PlanOp>) -> Seq<OpModel> {
    v.map_values(|o: PlanOp| o@)
}

/// A read or create target: the trimmed path, where it is not blank.
pub open spec fn target(p: Option<Seq<char>>) -> Option<Seq<char>> {
    match p {
        Some(t) => if trimmed(t).len() > 0 {
            Some(trimmed(t))
        } else {
            None
        },
        None => None,
    }
}

/// The read targets of `steps`.
pub open spec fn read_targets(steps: Seq<StepModel>) -> Set<Seq<char>>
    decreases steps.len(),
{
    if steps.len() == 0 {
        Set::empty()
    } else {
        match target(steps.last().read) {
            Some(t) => read_targets(steps.drop_last()).insert(t),
            None => read_targets(steps.drop_last()),
        }
    }
}

/// The create targets of `steps`.
pub open spec fn create_targets(steps: Seq<StepModel>) -> Set<Seq<char>>
    decreases steps.len(),
{
    if steps.len() == 0 {
        Set::empty()
    } else {
        match target(steps.last().create) {
            Some(t) => create_targets(steps.drop_last()).insert(t),
            None => create_targets(steps.drop_last()),
        }
    }
}

/// The directory a step's description asks to list: the trimmed text
/// between `List directory ` and the next `:`.
pub open spec fn listed_dir(d: Seq<char>) -> Option<Seq<char>> {
    match first_match(d, "List directory "@) {
        Some(k) => {
            let rest = d.skip(k + "List directory "@.len());
            match first_match(rest, ":"@) {
                Some(c) => Some(trimmed(rest.take(c))),
                None => None,
            }
        },
        None => None,
    }
}

/// The operations of one step, given the targets of earlier steps: its
/// create, then its read, then its listing; a repeated read ends the step.
pub open spec fn step_ops(st: StepModel, reads: Set<Seq<char>>, creates: Set<Seq<char>>) -> Seq<
    OpModel,
> {
    let create_part = match target(st.create) {
        Some(c) => if creates.contains(c) {
            seq![OpModel::RepeatCreate(c)]
        } else {
            seq![OpModel::Create(c)]
        },
        None => Seq::empty(),
    };
    let list_part = match listed_dir(st.description) {
        Some(p) => seq![OpModel::List(p)],
        None => Seq::empty(),
    };
    match target(st.read) {
        Some(r) => if reads.contains(r) {
            create_part.push(OpModel::RepeatRead(r))
        } else {
            create_part.push(OpModel::Read(r)) + list_part
        },
        None => create_part + list_part,
    }
}

/// The operations of a plan, in order.
pub open spec fn plan_ops(steps: Seq<StepModel>) -> Seq<OpModel>
    decreases steps.len(),
{
    if steps.len() == 0 {
        Seq::empty()
    } else {
        let prior = steps.drop_last();
        plan_ops(prior) + step_ops(steps.last(), read_targets(prior), create_targets(prior))
    }
}

fn target_of(p: &Option<String>) -> (r: Option<String>)
    ensures
        opt_view(r) == target(
            match p {
                Some(s) => Some(s@),
                None => None,
            },
        ),
{
    match p {
        Some(s) => {
            let t = trim(s.as_str());
            if t.unicode_len() > 0 {
                Some(t)
            } else {
                None
            }
        },
        None => None,
    }
}

/// The characters of an optional string.
pub open spec fn opt_view(o: Option<String>) -> Option<Seq<char>> {
    match o {
        Some(s) => Some(s@),
        None => None,
    }
}

fn seen(v: &Vec<String>, t: &String) -> (r: bool)
    ensures
        r == exists|i: int| 0 <= i < v@.len() && v@[i]@ == t@,
{
    let mut i: usize = 0;
    while i < v.len()
        invariant
            i <= v.len(),
            forall|j: int| 0 <= j < i ==> v@[j]@ != t@,
        decreases v.len() - i,
    {
        if crate::text::same_text(v[i].as_str(), t.as_str()) {
            return true;
        }
        i = i + 1;
    }
    false
}

/// The directory a step's description asks to list, if any.
pub fn listed_directory(description: &str) -> (r: Option<String>)
    ensures
        opt_view(r) == listed_dir(description@),
{
    let d = chars_of(description);
    let marker = chars_of("List directory ");
    let colon = chars_of(":");
    match find_chars(&d, &marker, 0) {
        Some(k) => {
            assert(k + marker@.len() <= d@.len());
            assert(k + marker.len() <= d.len());
            let start = k + marker.len();
            let n = description.unicode_len();
            let rest = description.substring_char(start, n);
            let rc = chars_of(rest);
            assert(rest@ =~= description@.skip(k + "List directory "@.len()));
            match find_chars(&rc, &colon, 0) {
                Some(c) => {
                    let inner = rest.substring_char(0, c);
                    Some(trim(inner))
                },
                None => None,
            }
        },
        None => None,
    }
}

proof fn lemma_insert_seen(old: Seq<String>, new: Seq<String>, s: Set<Seq<char>>, r: Seq<char>)
    requires
        forall|t: Seq<char>| s.contains(t) <==> exists|j: int| 0 <= j < old.len() && old[j]@ == t,
        new == old || (new.len() == old.len() + 1 && new.drop_last() == old && new.last()@ == r),
        new == old ==> s.contains(r),
    ensures
        forall|t: Seq<char>|
            s.insert(r).contains(t) <==> exists|j: int| 0 <= j < new.len() && new[j]@ == t,
{
    assert forall|t: Seq<char>|
        s.insert(r).contains(t) <==> exists|j: int| 0 <= j < new.len() && new[j]@ == t by {
        if s.contains(t) {
            let j = choose|j: int| 0 <= j < old.len() && old[j]@ == t;
            assert(new[j] == old[j]);
        }
        if t == r && new != old {
            assert(new[new.len() - 1]@ == t);
        }
        if exists|j: int| 0 <= j < new.len() && new[j]@ == t {
            let j = choose|j: int| 0 <= j < new.len() && new[j]@ == t;
            if j < old.len() {
                assert(new[j] == old[j]);
            }
        }
    }
}

/// The filesystem operations a plan asks for, in order; targets seen
/// earlier in the plan become repeats.
pub fn plan_operations(plan: &Vec<PlanStep>) -> (r: Vec<PlanOp>)
    ensures
        ops_model(r@) == plan_ops(steps_model(plan@)),
{
    let mut ops: Vec<PlanOp> = Vec::new();
    let mut reads: Vec<String> = Vec::new();
    let mut creates: Vec<String> = Vec::new();
    let mut i: usize = 0;
    while i < plan.len()
        invariant
            i <= plan.len(),
            ops_model(ops@) == plan_ops(steps_model(plan@.take(i as int))),
            forall|t: Seq<char>|
                read_targets(steps_model(plan@.take(i as int))).contains(t) <==> exists|j: int|
                    0 <= j < reads@.len() && reads@[j]@ == t,
            forall|t: Seq<char>|
                create_targets(steps_model(plan@.take(i as int))).contains(t) <==> exists|j: int|
                    0 <= j < creates@.len() && creates@[j]@ == t,
        decreases plan.len() - i,
    {
        let st = &plan[i];
        let ghost prior = steps_model(plan@.take(i as int));
        let ghost next = steps_model(plan@.take(i + 1));
        assert(next.drop_last() =~= prior);
        assert(next.last() == st@);
        let ghost before = ops_model(ops@);
        let ghost create_part: Seq<OpModel> = Seq::empty();
        let ghost old_reads = reads@;
        let ghost old_creates = creates@;
        let created = target_of(&st.create);
        proof {
            if created is None {
                assert(create_targets(next) == create_targets(prior));
            }
        }
        match created {
            Some(c) => {
                if seen(&creates, &c) {
                    ops.push(PlanOp::RepeatCreate { path: c });
                } else {
                    creates.push(c.clone());
                    assert(creates@.drop_last() =~= old_creates);
                    ops.push(PlanOp::Create { path: c });
                }
                proof {
                    lemma_insert_seen(old_creates, creates@, create_targets(prior), c@);
                }
                proof {
                    create_part = seq![ops@.last()@];
                }
            },
            None => {},
        }
        assert(ops_model(ops@) =~= before + create_part);
        let mut repeated = false;
        let read = target_of(&st.read);
        proof {
            if read is None {
                assert(read_targets(next) == read_targets(prior));
            }
        }
        match read {
            Some(r) => {
                if seen(&reads, &r) {
                    ops.push(PlanOp::RepeatRead { path: r });
                    repeated = true;
                } else {
                    reads.push(r.clone());
                    assert(reads@.drop_last() =~= old_reads);
                    ops.push(PlanOp::Read { path: r });
                }
                proof {
                    lemma_insert_seen(old_reads, reads@, read_targets(prior), r@);
                }
            },
            None => {},
        }
        if !repeated {
            match listed_directory(st.description.as_str()) {
                Some(p) => {
                    ops.push(PlanOp::List { path: p });
                },
                None => {},
            }
        }
        assert(ops_model(ops@) =~= before + step_ops(st@, read_targets(prior), create_targets(prior)));
        i = i + 1;
    }
    assert(plan@.take(plan.len() as int) =~= plan@);
    ops
}


/// How often `o` occurs in `ops`.
pub open spec fn count_op(ops: Seq<OpModel>, o: OpModel) -> nat
    decreases ops.len(),
{
    if ops.len() == 0 {
        0
    } else {
        count_op(ops.drop_last(), o) + if ops.last() == o {
            1nat
        } else {
            0nat
        }
    }
}

/// How many steps of `steps` have read target `p`.
pub open spec fn count_read_target(steps: Seq<StepModel>, p: Seq<char>) -> nat
    decreases steps.len(),
{
    if steps.len() == 0 {
        0
    } else {
        count_read_target(steps.drop_last(), p) + if target(steps.last().read) == Some(p) {
            1nat
        } else {
            0nat
        }
    }
}

proof fn lemma_count_concat(a: Seq<OpModel>, b: Seq<OpModel>, o: OpModel)
    ensures
        count_op(a + b, o) == count_op(a, o) + count_op(b, o),
    decreases b.len(),
{
    if b.len() == 0 {
        assert(a + b =~= a);
    } else {
        assert((a + b).drop_last() =~= a + b.drop_last());
        lemma_count_concat(a, b.drop_last(), o);
    }
}

proof fn lemma_count_single(x: OpModel, o: OpModel)
    ensures
        count_op(seq![x], o) == if x == o {
            1nat
        } else {
            0nat
        },
{
    assert(seq![x].drop_last() =~= Seq::<OpModel>::empty());
    assert(count_op(Seq::<OpModel>::empty(), o) == 0);
    assert(seq![x].last() == x);
}

proof fn lemma_step_read_count(st: StepModel, reads: Set<Seq<char>>, creates: Set<Seq<char>>, p: Seq<char>)
    ensures
        count_op(step_ops(st, reads, creates), OpModel::Read(p)) == if target(st.read) == Some(p)
            && !reads.contains(p) {
            1nat
        } else {
            0nat
        },
        count_op(step_ops(st, reads, creates), OpModel::RepeatRead(p)) == if target(st.read)
            == Some(p) && reads.contains(p) {
            1nat
        } else {
            0nat
        },
{
    let create_part = match target(st.create) {
        Some(c) => if creates.contains(c) {
            seq![OpModel::RepeatCreate(c)]
        } else {
            seq![OpModel::Create(c)]
        },
        None => Seq::empty(),
    };
    let list_part = match listed_dir(st.description) {
        Some(q) => seq![OpModel::List(q)],
        None => Seq::empty(),
    };
    let rd = OpModel::Read(p);
    let rr = OpModel::RepeatRead(p);
    assert(count_op(create_part, rd) == 0 && count_op(create_part, rr) == 0) by {
        if let Some(c) = target(st.create) {
            if creates.contains(c) {
                lemma_count_single(OpModel::RepeatCreate(c), rd);
                lemma_count_single(OpModel::RepeatCreate(c), rr);
            } else {
                lemma_count_single(OpModel::Create(c), rd);
                lemma_count_single(OpModel::Create(c), rr);
            }
        }
    }
    assert(count_op(list_part, rd) == 0 && count_op(list_part, rr) == 0) by {
        if let Some(q) = listed_dir(st.description) {
            lemma_count_single(OpModel::List(q), rd);
            lemma_count_single(OpModel::List(q), rr);
        }
    }
    match target(st.read) {
        Some(r) => {
            let x = if reads.contains(r) {
                OpModel::RepeatRead(r)
            } else {
                OpModel::Read(r)
            };
            assert(create_part.push(x) =~= create_part + seq![x]);
            lemma_count_concat(create_part, seq![x], rd);
            lemma_count_concat(create_part, seq![x], rr);
            lemma_count_single(x, rd);
            lemma_count_single(x, rr);
            if !reads.contains(r) {
                lemma_count_concat(create_part.push(x), list_part, rd);
                lemma_count_concat(create_part.push(x), list_part, rr);
            }
        },
        None => {
            lemma_count_concat(create_part, list_part, rd);
            lemma_count_concat(create_part, list_part, rr);
        },
    }
}

/// Within one plan, a read target named by `n >= 1` steps yields exactly one
/// `Read` operation and `n - 1` `RepeatRead` operations (so one
/// `Success`/`Failed` record and `n - 1` `Skipped` records); a target no step
/// names yields neither.
pub proof fn lemma_repeated_reads(steps: Seq<StepModel>, p: Seq<char>)
    ensures
        count_op(plan_ops(steps), OpModel::Read(p)) == if count_read_target(steps, p) > 0 {
            1nat
        } else {
            0nat
        },
        count_op(plan_ops(steps), OpModel::RepeatRead(p)) == if count_read_target(steps, p) > 0 {
            (count_read_target(steps, p) - 1) as nat
        } else {
            0nat
        },
        read_targets(steps).contains(p) <==> count_read_target(steps, p) > 0,
    decreases steps.len(),
{
    if steps.len() > 0 {
        let prior = steps.drop_last();
        lemma_repeated_reads(prior, p);
        lemma_count_concat(
            plan_ops(prior),
            step_ops(steps.last(), read_targets(prior), create_targets(prior)),
            OpModel::Read(p),
        );
        lemma_count_concat(
            plan_ops(prior),
            step_ops(steps.last(), read_targets(prior), create_targets(prior)),
            OpModel::RepeatRead(p),
        );
        lemma_step_read_count(steps.last(), read_targets(prior), create_targets(prior), p);
    }
}

/// What the filesystem operations of a turn produced: the read and create
/// records and the context assembled so far.
pub struct TurnRecord {
    pub reads: Vec<ReadLog>,
    pub creates: Vec<CreateLog>,
    pub context: String,
}

impl TurnRecord {
    /// A record with no operations, starting from `base_context`.
    pub fn new(base_context: String) -> (r: TurnRecord)
        ensures
            r.reads@.len() == 0,
            r.creates@.len() == 0,
            r.context@ == base_context@,
    {
        TurnRecord { reads: Vec::new(), creates: Vec::new(), context: base_context }
    }

    /// Records a create: `Ok(true)` made the file, `Ok(false)` found it there.
    pub fn record_create(&mut self, path: &str, result: Result<bool, String>)
        ensures
            final(self).reads@ == old(self).reads@,
            final(self).context@ == old(self).context@,
            final(self).creates@.len() == old(self).creates@.len() + 1,
            final(self).creates@.drop_last() == old(self).creates@,
            final(self).creates@.last().path@ == path@,
            final(self).creates@.last().outcome == match result {
                Ok(true) => CreateOutcome::Created,
                Ok(false) => CreateOutcome::AlreadyExists,
                Err(e) => CreateOutcome::Failed { error: e },
            },
    {
        let outcome = match result {
            Ok(true) => CreateOutcome::Created,
            Ok(false) => CreateOutcome::AlreadyExists,
            Err(e) => CreateOutcome::Failed { error: e },
        };
        self.creates.push(CreateLog { path: String::from_str(path), outcome });
        assert(self.creates@.drop_last() =~= old(self).creates@);
    }

    /// Records a create target already handled in this turn.
    pub fn record_repeat_create(&mut self, path: &str)
        ensures
            final(self).reads@ == old(self).reads@,
            final(self).context@ == old(self).context@,
            final(self).creates@.len() == old(self).creates@.len() + 1,
            final(self).creates@.drop_last() == old(self).creates@,
            final(self).creates@.last().path@ == path@,
            final(self).creates@.last().outcome == CreateOutcome::AlreadyExists,
    {
        self.creates.push(CreateLog { path: String::from_str(path), outcome: CreateOutcome::AlreadyExists });
        assert(self.creates@.drop_last() =~= old(self).creates@);
    }

    /// Records a read: `Ok((contents, bytes))` adds the contents, cut to
    /// `MAX_CONTEXT_BYTES_PER_FILE`, under a `# File:` heading; an error adds
    /// the heading with the error.
    pub fn record_read(&mut self, path: &str, result: Result<(String, usize), String>)
        ensures
            final(self).creates@ == old(self).creates@,
            final(self).reads@.len() == old(self).reads@.len() + 1,
            final(self).reads@.drop_last() == old(self).reads@,
            final(self).reads@.last().path@ == path@,
            match result {
                Ok((contents, bytes)) => {
                    &&& final(self).reads@.last().outcome == ReadOutcome::Success { bytes }
                    &&& final(self).context@ == old(self).context@ + "\n\n# File: "@ + path@ + "\n"@
                        + truncated(contents@, MAX_CONTEXT_BYTES_PER_FILE as nat)
                },
                Err(e) => {
                    &&& final(self).reads@.last().outcome == ReadOutcome::Failed { error: e }
                    &&& final(self).context@ == old(self).context@ + "\n\n# File: "@ + path@
                        + " (ERROR: "@ + e@ + ")\n"@
                },
            },
    {
        let outcome = match result {
            Ok((contents, bytes)) => {
                self.context.append("\n\n# File: ");
                self.context.append(path);
                self.context.append("\n");
                self.context.append(truncate(contents.as_str(), MAX_CONTEXT_BYTES_PER_FILE).as_str());
                ReadOutcome::Success { bytes }
            },
            Err(e) => {
                self.context.append("\n\n# File: ");
                self.context.append(path);
                self.context.append(" (ERROR: ");
                self.context.append(e.as_str());
                self.context.append(")\n");
                ReadOutcome::Failed { error: e }
            },
        };
        self.reads.push(ReadLog { path: String::from_str(path), outcome });
        assert(self.reads@.drop_last() =~= old(self).reads@);
    }

    /// Records a read target already read in this turn.
    pub fn record_repeat_read(&mut self, path: &str)
        ensures
            final(self).creates@ == old(self).creates@,
            final(self).context@ == old(self).context@,
            final(self).reads@.len() == old(self).reads@.len() + 1,
            final(self).reads@.drop_last() == old(self).reads@,
            final(self).reads@.last().path@ == path@,
            final(self).reads@.last().outcome == ReadOutcome::Skipped,
    {
        self.reads.push(ReadLog { path: String::from_str(path), outcome: ReadOutcome::Skipped });
        assert(self.reads@.drop_last() =~= old(self).reads@);
    }

    /// Records a directory listing into the context.
    pub fn record_listing(&mut self, path: &str, result: Result<String, String>)
        ensures
            final(self).creates@ == old(self).creates@,
            final(self).reads@ == old(self).reads@,
            final(self).context@ == old(self).context@ + match result {
                Ok(l) => "\n\n# Directory listing: "@ + path@ + "\n"@ + l@,
                Err(e) => "\n\n# Directory: "@ + path@ + " (error: "@ + e@ + ")\n"@,
            },
    {
        match result {
            Ok(l) => {
                self.context.append("\n\n# Directory listing: ");
                self.context.append(path);
                self.context.append("\n");
                self.context.append(l.as_str());
            },
            Err(e) => {
                self.context.append("\n\n# Directory: ");
                self.context.append(path);
                self.context.append(" (error: ");
                self.context.append(e.as_str());
                self.context.append(")\n");
            },
        }
    }
}

} // verus!
