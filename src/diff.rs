use vstd::prelude::*;
use vstd::string::*;

verus! {

/// Lines of context kept around each change.
pub const DIFF_CONTEXT_LINES: usize = 3;

/// What happened to one line.
#[derive(PartialEq, Eq, Structural, Clone, Copy)]
pub enum LineTag {
    Equal,
    Delete,
    Insert,
}

/// One line of a line diff; `text` ends with a newline.
pub struct LineChange {
    pub tag: LineTag,
    pub text: String,
}

/// The tag and text of each change.
pub open spec fn changes_model(v: Seq<LineChange>) -> Seq<(LineTag, Seq<char>)> {
    v.map_values(|c: LineChange| (c.tag, c.text@))
}

/// The changed lines of a line diff of `old` and `new`, hunk after hunk,
/// with `context` unchanged lines around each change, as `similar` groups
/// them.
pub uninterp spec fn grouped_changes(old: Seq<char>, new: Seq<char>, context: nat) -> Seq<
    (LineTag, Seq<char>),
>;

/// Relies on similar::TextDiff::from_lines, grouped_ops and iter_changes:
/// the hunks of the line diff with `context` lines of context, each change
/// as its tag and its line, a missing final newline added. grouped_ops
/// doubles `context`, so it must stay at most half of `usize::MAX`.
#[verifier::external_body]
fn line_changes(old: &str, new: &str, context: usize) -> (r: Vec<LineChange>)
    requires
        context <= usize::MAX / 2,
    ensures
        changes_model(r@) == grouped_changes(old@, new@, context as nat),
{
    let diff = similar::TextDiff::from_lines(old, new);
    let mut out = Vec::new();
    for group in diff.grouped_ops(context) {
        for op in &group {
            for change in diff.iter_changes(op) {
                let tag = match change.tag() {
                    similar::ChangeTag::Equal => LineTag::Equal,
                    similar::ChangeTag::Delete => LineTag::Delete,
                    similar::ChangeTag::Insert => LineTag::Insert,
                };
                out.push(LineChange { tag, text: change.to_string() });
            }
        }
    }
    out
}

/// The marker that starts a rendered line.
pub open spec fn marker(tag: LineTag) -> char {
    match tag {
        LineTag::Equal => ' ',
        LineTag::Delete => '-',
        LineTag::Insert => '+',
    }
}

/// The changes rendered one per line, each after its marker.
pub open spec fn rendered(changes: Seq<(LineTag, Seq<char>)>) -> Seq<char>
    decreases changes.len(),
{
    if changes.len() == 0 {
        Seq::empty()
    } else {
        rendered(changes.drop_last()) + seq![marker(changes.last().0)] + changes.last().1
    }
}

/// The two header lines of a diff of `path`.
pub open spec fn diff_header(path: Seq<char>) -> Seq<char> {
    "--- a/"@ + path + "\n+++ b/"@ + path + "\n"@
}

/// Renders changes one per line, each after its marker.
pub fn render_changes(changes: &Vec<LineChange>) -> (r: String)
    ensures
        r@ == rendered(changes_model(changes@)),
{
    let mut out = String::new();
    let mut i: usize = 0;
    while i < changes.len()
        invariant
            i <= changes.len(),
            out@ == rendered(changes_model(changes@).take(i as int)),
        decreases changes.len() - i,
    {
        let ghost prev = out@;
        let c = &changes[i];
        match c.tag {
            LineTag::Equal => out.append(" "),
            LineTag::Delete => out.append("-"),
            LineTag::Insert => out.append("+"),
        }
        out.append(c.text.as_str());
        proof {
            reveal_strlit(" ");
            reveal_strlit("-");
            reveal_strlit("+");
            let m = changes_model(changes@);
            assert(m.take(i + 1).drop_last() =~= m.take(i as int));
            assert(m.take(i + 1).last() == (c.tag, c.text@));
            assert(out@ =~= prev + seq![marker(c.tag)] + c.text@);
        }
        i = i + 1;
    }
    assert(changes_model(changes@).take(changes.len() as int) =~= changes_model(changes@));
    out
}

/// A unified diff of `old` and `new` for display: `--- a/<path>` and
/// `+++ b/<path>` headers, then the changed lines with three lines of
/// context, marked `-`, `+` or ` `.
pub fn unified_diff(old: &str, new: &str, path: &str) -> (r: String)
    ensures
        r@ == diff_header(path@) + rendered(grouped_changes(old@, new@, DIFF_CONTEXT_LINES as nat)),
{
    let mut out = String::from_str("--- a/");
    out.append(path);
    out.append("\n+++ b/");
    out.append(path);
    out.append("\n");
    let changes = line_changes(old, new, DIFF_CONTEXT_LINES);
    out.append(render_changes(&changes).as_str());
    out
}

} // verus!
