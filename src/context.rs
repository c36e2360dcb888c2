use vstd::prelude::*;
use vstd::string::*;

use crate::text::{truncate, truncated};

verus! {

/// Bytes of the README that go into a turn's base context.
pub const README_BYTES: usize = 10000;

/// Bytes of each well-known project file that go into the base context.
pub const PROJECT_FILE_BYTES: usize = 3000;

/// Bytes of each sampled source file that go into the base context.
pub const SOURCE_FILE_BYTES: usize = 2000;

/// Turn summaries that the conversation memory keeps.
pub const MEMORY_ENTRIES: usize = 6;

/// Named files, each under a `# <name>` heading and cut to `max` bytes.
pub open spec fn file_sections(files: Seq<(String, String)>, max: nat) -> Seq<char>
    decreases files.len(),
{
    if files.len() == 0 {
        Seq::empty()
    } else {
        file_sections(files.drop_last(), max) + "\n\n# "@ + files.last().0@ + "\n"@ + truncated(
            files.last().1@,
            max,
        )
    }
}

/// The memory entries, each followed by a `---` line.
pub open spec fn memory_lines(memory: Seq<String>) -> Seq<char>
    decreases memory.len(),
{
    if memory.len() == 0 {
        Seq::empty()
    } else {
        memory_lines(memory.drop_last()) + memory.last()@ + "\n---\n"@
    }
}

/// The base context of a turn: the README, the well-known project files,
/// one sampled file per source directory, then the conversation memory.
pub open spec fn base_context(
    readme: Option<Seq<char>>,
    project: Seq<(String, String)>,
    sources: Seq<(String, String)>,
    memory: Seq<String>,
) -> Seq<char> {
    let head = match readme {
        Some(r) => "README.md:\n"@ + truncated(r, README_BYTES as nat),
        None => Seq::empty(),
    };
    let tail = if memory.len() == 0 {
        Seq::empty()
    } else {
        "\n\n# Conversation\n"@ + memory_lines(memory)
    };
    head + file_sections(project, PROJECT_FILE_BYTES as nat) + file_sections(
        sources,
        SOURCE_FILE_BYTES as nat,
    ) + tail
}

fn append_files(out: &mut String, files: &Vec<(String, String)>, max: usize)
    ensures
        final(out)@ == old(out)@ + file_sections(files@, max as nat),
{
    let mut i: usize = 0;
    assert(files@.take(0) =~= Seq::<(String, String)>::empty());
    while i < files.len()
        invariant
            i <= files.len(),
            out@ == old(out)@ + file_sections(files@.take(i as int), max as nat),
        decreases files.len() - i,
    {
        let ghost prev = out@;
        out.append("\n\n# ");
        out.append(files[i].0.as_str());
        out.append("\n");
        out.append(truncate(files[i].1.as_str(), max).as_str());
        assert(files@.take(i + 1).drop_last() =~= files@.take(i as int));
        assert(out@ =~= prev + "\n\n# "@ + files@[i as int].0@ + "\n"@ + truncated(
            files@[i as int].1@,
            max as nat,
        ));
        i = i + 1;
    }
    assert(files@.take(files.len() as int) =~= files@);
}

/// Assembles the base context from what was found on disk: the README's
/// text, if any, the well-known project files and the sampled source files
/// as (name, text) pairs, and the conversation memory.
pub fn build_context(
    readme: Option<String>,
    project: &Vec<(String, String)>,
    sources: &Vec<(String, String)>,
    memory: &Vec<String>,
) -> (r: String)
    ensures
        r@ == base_context(
            match readme {
                Some(t) => Some(t@),
                None => None,
            },
            project@,
            sources@,
            memory@,
        ),
{
    let mut out = String::new();
    match &readme {
        Some(t) => {
            out.append("README.md:\n");
            out.append(truncate(t.as_str(), README_BYTES).as_str());
        },
        None => {},
    }
    append_files(&mut out, project, PROJECT_FILE_BYTES);
    append_files(&mut out, sources, SOURCE_FILE_BYTES);
    if memory.len() > 0 {
        let ghost prev = out@;
        out.append("\n\n# Conversation\n");
        let mut i: usize = 0;
        assert(memory@.take(0) =~= Seq::<String>::empty());
        while i < memory.len()
            invariant
                i <= memory.len(),
                out@ == prev + "\n\n# Conversation\n"@ + memory_lines(memory@.take(i as int)),
            decreases memory.len() - i,
        {
            out.append(memory[i].as_str());
            out.append("\n---\n");
            assert(memory@.take(i + 1).drop_last() =~= memory@.take(i as int));
            i = i + 1;
        }
        assert(memory@.take(memory.len() as int) =~= memory@);
    }
    out
}

/// Adds a turn summary to the conversation memory, dropping the oldest
/// entry once more than `MEMORY_ENTRIES` are held.
pub fn remember(memory: &mut Vec<String>, entry: String)
    ensures
        old(memory)@.len() < MEMORY_ENTRIES ==> final(memory)@ == old(memory)@.push(entry),
        old(memory)@.len() >= MEMORY_ENTRIES ==> final(memory)@ == old(memory)@.push(entry).skip(1),
{
    memory.push(entry);
    if memory.len() > MEMORY_ENTRIES {
        memory.remove(0);
    }
}

} // verus!
