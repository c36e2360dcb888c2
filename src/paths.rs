use vstd::prelude::*;
use vstd::string::*;

use crate::text::{decimal, decimal_text, digit};

verus! {

/// The text of each string in `v`.
pub open spec fn texts(v: Seq<String>) -> Seq<Seq<char>> {
    v.map_values(|s: String| s@)
}

/// Adds the segment `cur` to `done` unless it is empty or `.`.
pub open spec fn flush(done: Seq<Seq<char>>, cur: Seq<char>) -> Seq<Seq<char>> {
    if cur.len() == 0 || cur == seq!['.'] {
        done
    } else {
        done.push(cur)
    }
}

/// Splitting `p` at `/`: the finished components and the segment being read.
pub open spec fn split_state(p: Seq<char>) -> (Seq<Seq<char>>, Seq<char>)
    decreases p.len(),
{
    if p.len() == 0 {
        (Seq::empty(), Seq::empty())
    } else {
        let (done, cur) = split_state(p.drop_last());
        if p.last() == '/' {
            (flush(done, cur), Seq::empty())
        } else {
            (done, cur.push(p.last()))
        }
    }
}

/// The components of path `p`: its `/`-separated segments without empty
/// and `.` segments.
pub open spec fn components(p: Seq<char>) -> Seq<Seq<char>> {
    flush(split_state(p).0, split_state(p).1)
}

/// `p` starts at the file-system root.
pub open spec fn is_absolute(p: Seq<char>) -> bool {
    p.len() > 0 && p[0] == '/'
}

/// `a` is a prefix of `b`.
pub open spec fn is_prefix(a: Seq<Seq<char>>, b: Seq<Seq<char>>) -> bool {
    a.len() <= b.len() && b.take(a.len() as int) == a
}

/// `p` lies inside `root`: both absolute or both relative, the components
/// of `root` begin those of `p`, and `p` has no `..` component.
pub open spec fn inside(root: Seq<char>, p: Seq<char>) -> bool {
    &&& is_absolute(root) == is_absolute(p)
    &&& is_prefix(components(root), components(p))
    &&& !components(p).contains(seq!['.', '.'])
}

/// `rel` joined onto `base`: an absolute `rel` stands for itself.
pub open spec fn joined(base: Seq<char>, rel: Seq<char>) -> Seq<char> {
    if is_absolute(rel) {
        rel
    } else {
        base + seq!['/'] + rel
    }
}

/// The components of `p`.
pub fn path_components(p: &str) -> (r: Vec<String>)
    ensures
        texts(r@) == components(p@),
{
    let cs = crate::text::chars_of(p);
    let mut done: Vec<String> = Vec::new();
    let mut start: usize = 0;
    let mut i: usize = 0;
    while i < cs.len()
        invariant
            cs@ == p@,
            start <= i <= cs.len(),
            split_state(p@.take(i as int)) == (texts(done@), p@.subrange(start as int, i as int)),
        decreases cs.len() - i,
    {
        assert(p@.take(i + 1).drop_last() =~= p@.take(i as int));
        assert(p@.take(i + 1).last() == p@[i as int]);
        if cs[i] == '/' {
            let seg = p.substring_char(start, i);
            let ghost before = texts(done@);
            if !(i - start == 0 || (i - start == 1 && cs[start] == '.')) {
                assert(seg@ != seq!['.'] || seg@.len() == 0) by {
                    if seg@.len() == 1 {
                        assert(seg@[0] == p@[start as int]);
                    }
                }
                done.push(String::from_str(seg));
                assert(texts(done@) =~= before.push(seg@));
            } else {
                assert(seg@.len() == 0 || seg@ =~= seq!['.']);
            }
            start = i + 1;
        } else {
            assert(p@.subrange(start as int, i + 1) =~= p@.subrange(start as int, i as int).push(
                p@[i as int],
            ));
        }
        i = i + 1;
    }
    assert(p@.take(cs.len() as int) =~= p@);
    let seg = p.substring_char(start, cs.len());
    let ghost before = texts(done@);
    let n = cs.len();
    if !(n - start == 0 || (n - start == 1 && cs[start] == '.')) {
        assert(seg@ != seq!['.'] || seg@.len() == 0) by {
            if seg@.len() == 1 {
                assert(seg@[0] == p@[start as int]);
            }
        }
        done.push(String::from_str(seg));
        assert(texts(done@) =~= before.push(seg@));
    } else {
        assert(seg@.len() == 0 || seg@ =~= seq!['.']);
    }
    done
}


/// The path `base` followed by each of `comps`, each after a `/`.
pub open spec fn under(base: Seq<char>, comps: Seq<Seq<char>>) -> Seq<char>
    decreases comps.len(),
{
    if comps.len() == 0 {
        base
    } else {
        under(base, comps.drop_last()) + seq!['/'] + comps.last()
    }
}

/// A path was refused because it leaves the repository.
#[derive(PartialEq, Eq, Structural)]
pub enum PathError {
    PathEscape,
}

/// Where `rel` resolves to under `root`: the canonical form of the joined
/// path where it exists (`resolved`), else the joined path itself; `None`
/// where that lies outside `root`.
pub open spec fn resolution(root: Seq<char>, resolved: Option<Seq<char>>, rel: Seq<char>) -> Option<
    Seq<char>,
> {
    let candidate = match resolved {
        Some(c) => c,
        None => joined(root, rel),
    };
    if inside(root, candidate) {
        Some(candidate)
    } else {
        None
    }
}

fn texts_prefix(a: &Vec<String>, b: &Vec<String>) -> (r: bool)
    ensures
        r == is_prefix(texts(a@), texts(b@)),
{
    if a.len() > b.len() {
        return false;
    }
    let mut i: usize = 0;
    while i < a.len()
        invariant
            a.len() <= b.len(),
            i <= a.len(),
            forall|j: int| 0 <= j < i ==> a@[j]@ == b@[j]@,
        decreases a.len() - i,
    {
        if !crate::text::same_text(a[i].as_str(), b[i].as_str()) {
            assert(texts(b@).take(a.len() as int)[i as int] != texts(a@)[i as int]);
            return false;
        }
        i = i + 1;
    }
    assert(texts(b@).take(a.len() as int) =~= texts(a@));
    true
}

fn has_parent_ref(v: &Vec<String>) -> (r: bool)
    ensures
        r == texts(v@).contains(seq!['.', '.']),
{
    let mut i: usize = 0;
    while i < v.len()
        invariant
            i <= v.len(),
            forall|j: int| 0 <= j < i ==> v@[j]@ != seq!['.', '.'],
        decreases v.len() - i,
    {
        if crate::text::same_text(v[i].as_str(), "..") {
            proof {
                reveal_strlit("..");
                assert(".."@ =~= seq!['.', '.']);
                assert(texts(v@)[i as int] == seq!['.', '.']);
            }
            return true;
        }
        proof {
            reveal_strlit("..");
            assert(".."@ =~= seq!['.', '.']);
        }
        i = i + 1;
    }
    assert forall|x: Seq<char>| texts(v@).contains(x) implies x != seq!['.', '.'] by {
        let j = choose|j: int| 0 <= j < texts(v@).len() && texts(v@)[j] == x;
        assert(v@[j]@ == x);
    }
    false
}

fn absolute(p: &str) -> (r: bool)
    ensures
        r == is_absolute(p@),
{
    p.unicode_len() > 0 && p.get_char(0) == '/'
}

/// Whether `p` lies inside `root` (see `inside`).
pub fn is_inside(root: &str, p: &str) -> (r: bool)
    ensures
        r == inside(root@, p@),
{
    if absolute(root) != absolute(p) {
        return false;
    }
    let rc = path_components(root);
    let pc = path_components(p);
    texts_prefix(&rc, &pc) && !has_parent_ref(&pc)
}

/// `rel` joined onto `base`.
pub fn join_path(base: &str, rel: &str) -> (r: String)
    ensures
        r@ == joined(base@, rel@),
{
    if absolute(rel) {
        String::from_str(rel)
    } else {
        let mut r = String::from_str(base);
        r.append("/");
        r.append(rel);
        proof {
            reveal_strlit("/");
        }
        assert(r@ =~= base@ + seq!['/'] + rel@);
        r
    }
}

/// Resolves `rel` inside the repository whose canonical root is
/// `canonical_root`. `canonical_target` is the canonical form of the joined
/// path where that path exists; otherwise the join itself is checked.
pub fn ensure_inside_repo(canonical_root: &str, canonical_target: Option<&str>, rel: &str) -> (r:
    Result<String, PathError>)
    ensures
        match resolution(
            canonical_root@,
            match canonical_target {
                Some(c) => Some(c@),
                None => None,
            },
            rel@,
        ) {
            Some(c) => r matches Ok(p) && p@ == c,
            None => r == Err::<String, PathError>(PathError::PathEscape),
        },
{
    let candidate = match canonical_target {
        Some(c) => String::from_str(c),
        None => join_path(canonical_root, rel),
    };
    if is_inside(canonical_root, candidate.as_str()) {
        Ok(candidate)
    } else {
        Err(PathError::PathEscape)
    }
}

/// An absolute path outside the root never resolves: not by joining, and
/// not through a canonical form that is itself outside the root.
pub proof fn lemma_absolute_outside_escapes(root: Seq<char>, p: Seq<char>, canonical: Option<Seq<char>>)
    requires
        is_absolute(p),
        !inside(root, p),
        canonical matches Some(c) ==> !inside(root, c),
    ensures
        resolution(root, canonical, p) is None,
{
}

fn append_under(out: &mut String, comps: &Vec<String>, from: usize)
    requires
        from <= comps.len(),
    ensures
        final(out)@ == under(old(out)@, texts(comps@).skip(from as int)),
{
    let ghost base = out@;
    let mut i: usize = from;
    assert(texts(comps@).skip(from as int).take(0) =~= Seq::<Seq<char>>::empty());
    while i < comps.len()
        invariant
            from <= i <= comps.len(),
            out@ == under(base, texts(comps@).skip(from as int).take(i - from)),
        decreases comps.len() - i,
    {
        let ghost prev = out@;
        out.append("/");
        out.append(comps[i].as_str());
        proof {
            reveal_strlit("/");
            let t = texts(comps@).skip(from as int);
            assert(t.take(i + 1 - from).drop_last() =~= t.take(i - from));
            assert(t.take(i + 1 - from).last() == comps@[i as int]@);
            assert(out@ =~= prev + seq!['/'] + comps@[i as int]@);
        }
        i = i + 1;
    }
    assert(texts(comps@).skip(from as int).take(comps.len() - from) =~= texts(comps@).skip(
        from as int,
    ));
}

/// Where the backup of `abs` goes: its path relative to the repository,
/// placed under `backup_root`; `None` where `abs` is not inside the root.
pub open spec fn backup_file_of(backup_root: Seq<char>, abs: Seq<char>, root: Seq<char>) -> Option<
    Seq<char>,
> {
    if inside(root, abs) {
        Some(under(backup_root, components(abs).skip(components(root).len() as int)))
    } else {
        None
    }
}

/// The backup file for `abs` under `backup_root`.
pub fn backup_path(backup_root: &str, abs: &str, canonical_root: &str) -> (r: Option<String>)
    ensures
        match backup_file_of(backup_root@, abs@, canonical_root@) {
            Some(b) => r matches Some(x) && x@ == b,
            None => r is None,
        },
{
    if !is_inside(canonical_root, abs) {
        return None;
    }
    let rc = path_components(canonical_root);
    let ac = path_components(abs);
    let mut out = String::from_str(backup_root);
    append_under(&mut out, &ac, rc.len());
    Some(out)
}

/// The file a backup restores: the backup's path below `backups_dir`,
/// without its first (timestamp) component, placed under `repo_root`.
pub open spec fn target_of_backup(repo_root: Seq<char>, backups_dir: Seq<char>, backup: Seq<char>) -> Option<
    Seq<char>,
> {
    let bc = components(backups_dir);
    let c = components(backup);
    if is_absolute(backups_dir) == is_absolute(backup) && is_prefix(bc, c) && c.len() >= bc.len()
        + 2 {
        Some(under(repo_root, c.skip(bc.len() + 1int)))
    } else {
        None
    }
}

/// Maps a backup file back to the file it was taken from.
pub fn target_from_backup(repo_root: &str, backups_dir: &str, backup: &str) -> (r: Option<String>)
    ensures
        match target_of_backup(repo_root@, backups_dir@, backup@) {
            Some(t) => r matches Some(x) && x@ == t,
            None => r is None,
        },
{
    if absolute(backups_dir) != absolute(backup) {
        return None;
    }
    let bc = path_components(backups_dir);
    let c = path_components(backup);
    if !texts_prefix(&bc, &c) || c.len() - bc.len() < 2 {
        return None;
    }
    let mut out = String::from_str(repo_root);
    append_under(&mut out, &c, bc.len() + 1);
    Some(out)
}

/// Paths that edits may not touch at all: absolute ones and those that
/// start with `.`.
pub open spec fn write_blocked(path: Seq<char>) -> bool {
    path.len() > 0 && (path[0] == '/' || path[0] == '.')
}

/// Whether edits to `path` are refused before any resolution.
pub fn is_write_blocked(path: &str) -> (r: bool)
    ensures
        r == write_blocked(path@),
{
    if path.unicode_len() == 0 {
        return false;
    }
    let c = path.get_char(0);
    c == '/' || c == '.'
}


/// A component as `components` yields it: not empty, not `.`, no `/`.
pub open spec fn normal(c: Seq<char>) -> bool {
    c.len() > 0 && c != seq!['.'] && !c.contains('/')
}

proof fn lemma_split_no_slash(x: Seq<char>, y: Seq<char>)
    requires
        !y.contains('/'),
    ensures
        split_state(x + y) == (split_state(x).0, split_state(x).1 + y),
    decreases y.len(),
{
    if y.len() == 0 {
        assert(x + y =~= x);
        assert(split_state(x).1 + y =~= split_state(x).1);
    } else {
        let y0 = y.drop_last();
        assert(!y0.contains('/')) by {
            if y0.contains('/') {
                let j = choose|j: int| 0 <= j < y0.len() && y0[j] == '/';
                assert(y[j] == '/');
            }
        }
        lemma_split_no_slash(x, y0);
        assert((x + y).drop_last() =~= x + y0);
        assert((x + y).last() == y.last());
        assert(y.last() != '/') by {
            if y.last() == '/' {
                assert(y[y.len() - 1] == '/');
            }
        }
        assert(split_state(x).1 + y0 + seq![y.last()] =~= split_state(x).1 + y);
    }
}

proof fn lemma_components_append(x: Seq<char>, c: Seq<char>)
    requires
        normal(c),
    ensures
        components(x + seq!['/'] + c) == components(x).push(c),
{
    let xs = x + seq!['/'];
    assert(xs.drop_last() =~= x);
    assert(split_state(xs) == (components(x), Seq::<char>::empty()));
    lemma_split_no_slash(xs, c);
    assert(Seq::<char>::empty() + c =~= c);
}

proof fn lemma_flush_normal(done: Seq<Seq<char>>, cur: Seq<char>)
    requires
        forall|i: int| 0 <= i < done.len() ==> normal(#[trigger] done[i]),
        !cur.contains('/'),
    ensures
        forall|i: int| 0 <= i < flush(done, cur).len() ==> normal(#[trigger] flush(done, cur)[i]),
{
    assert forall|i: int| 0 <= i < flush(done, cur).len() implies normal(
        #[trigger] flush(done, cur)[i],
    ) by {
        if i < done.len() {
            assert(flush(done, cur)[i] == done[i]);
        }
    }
}

/// Every component of a path is normal.
proof fn lemma_components_normal(p: Seq<char>)
    ensures
        forall|i: int| 0 <= i < split_state(p).0.len() ==> normal(#[trigger] split_state(p).0[i]),
        !split_state(p).1.contains('/'),
        forall|i: int| 0 <= i < components(p).len() ==> normal(#[trigger] components(p)[i]),
    decreases p.len(),
{
    if p.len() > 0 {
        lemma_components_normal(p.drop_last());
        let (done, cur) = split_state(p.drop_last());
        lemma_flush_normal(done, cur);
        if p.last() != '/' {
            assert(!cur.push(p.last()).contains('/')) by {
                if cur.push(p.last()).contains('/') {
                    let j = choose|j: int|
                        0 <= j < cur.push(p.last()).len() && cur.push(p.last())[j] == '/';
                    if j < cur.len() {
                        assert(cur[j] == '/');
                    }
                }
            }
            lemma_flush_normal(done, cur.push(p.last()));
        } else {
            assert(!Seq::<char>::empty().contains('/'));
            lemma_flush_normal(flush(done, cur), Seq::<char>::empty());
        }
    } else {
        assert(!Seq::<char>::empty().contains('/'));
    }
}

proof fn lemma_components_under(base: Seq<char>, comps: Seq<Seq<char>>)
    requires
        forall|i: int| 0 <= i < comps.len() ==> normal(#[trigger] comps[i]),
    ensures
        components(under(base, comps)) == components(base) + comps,
        base.len() > 0 ==> under(base, comps).len() > 0 && under(base, comps)[0] == base[0],
    decreases comps.len(),
{
    if comps.len() == 0 {
        assert(components(base) + comps =~= components(base));
    } else {
        lemma_components_under(base, comps.drop_last());
        lemma_components_append(under(base, comps.drop_last()), comps.last());
        assert(components(base) + comps.drop_last() + seq![comps.last()] =~= components(base) + comps);
        assert(normal(comps[comps.len() - 1]));
    }
}

/// The contents of a file tree, by the components of each file's path.
pub type Files = Map<Seq<Seq<char>>, Seq<char>>;

/// The tree after backing up `target` to `backup` where it exists and then
/// writing `contents` to `target`.
pub open spec fn after_write(fs: Files, target: Seq<char>, backup: Seq<char>, contents: Seq<char>) -> Files {
    let t = components(target);
    let saved = if fs.contains_key(t) {
        fs.insert(components(backup), fs[t])
    } else {
        fs
    };
    saved.insert(t, contents)
}

/// The tree after undoing `backup`: copied back over its target where it
/// exists, else its target removed; unchanged where no target maps to it.
pub open spec fn after_undo(fs: Files, repo_root: Seq<char>, backups_dir: Seq<char>, backup: Seq<char>) -> Files {
    match target_of_backup(repo_root, backups_dir, backup) {
        Some(t) => if fs.contains_key(components(backup)) {
            fs.insert(components(t), fs[components(backup)])
        } else {
            fs.remove(components(t))
        },
        None => fs,
    }
}

/// Undo inverts apply for one edit: backing up and writing a file strictly
/// inside the repository, with its backup in the fresh directory
/// `<backups_dir>/<stamp>`, and then undoing that backup leaves the file as
/// it was before: the same content, or absent if it was absent.
pub proof fn lemma_undo_inverts_apply(
    fs: Files,
    root: Seq<char>,
    backups_dir: Seq<char>,
    stamp: Seq<char>,
    abs: Seq<char>,
    contents: Seq<char>,
)
    requires
        is_absolute(backups_dir),
        normal(stamp),
        inside(root, abs),
        components(abs).len() > components(root).len(),
        ({
            let b = backup_file_of(backups_dir + seq!['/'] + stamp, abs, root)->0;
            !fs.contains_key(components(b)) && components(b) != components(abs)
        }),
    ensures
        ({
            let b = backup_file_of(backups_dir + seq!['/'] + stamp, abs, root)->0;
            let fs2 = after_undo(after_write(fs, abs, b, contents), root, backups_dir, b);
            &&& fs2.contains_key(components(abs)) == fs.contains_key(components(abs))
            &&& fs.contains_key(components(abs)) ==> fs2[components(abs)] == fs[components(abs)]
        }),
{
    let broot = backups_dir + seq!['/'] + stamp;
    let rc = components(root);
    let ac = components(abs);
    let rel = ac.skip(rc.len() as int);
    let b = under(broot, rel);
    lemma_components_normal(abs);
    assert forall|i: int| 0 <= i < rel.len() implies normal(#[trigger] rel[i]) by {
        assert(rel[i] == ac[i + rc.len()]);
    }
    lemma_components_under(broot, rel);
    lemma_components_append(backups_dir, stamp);
    let bc = components(backups_dir);
    assert(components(b) =~= bc + seq![stamp] + rel);
    assert(components(b).take(bc.len() as int) =~= bc);
    assert(components(b).skip(bc.len() + 1int) =~= rel);
    assert(broot[0] == backups_dir[0]);
    assert(is_absolute(b));
    lemma_components_under(root, rel);
    assert(ac =~= rc + rel) by {
        assert(ac.take(rc.len() as int) == rc);
    }
    assert(target_of_backup(root, backups_dir, b) == Some(under(root, rel)));
    assert(components(under(root, rel)) == ac);
}


/// The backup directory of a turn that started `secs` seconds after the
/// Unix epoch: `<backups_dir>/<secs>`.
pub fn backup_root_for(backups_dir: &str, secs: usize) -> (r: String)
    ensures
        r@ == backups_dir@ + seq!['/'] + decimal(secs as nat),
        normal(decimal(secs as nat)),
{
    let mut r = String::from_str(backups_dir);
    r.append("/");
    r.append(decimal_text(secs).as_str());
    proof {
        reveal_strlit("/");
        lemma_decimal_normal(secs as nat);
    }
    assert(r@ =~= backups_dir@ + seq!['/'] + decimal(secs as nat));
    r
}

/// Decimal digits form a normal path component.
pub proof fn lemma_decimal_normal(n: nat)
    ensures
        normal(decimal(n)),
        forall|i: int| 0 <= i < decimal(n).len() ==> '0' <= #[trigger] decimal(n)[i] <= '9',
    decreases n,
{
    reveal_strlit("0123456789");
    assert(forall|d: nat| d < 10 ==> '0' <= #[trigger] digit(d) <= '9');
    if n >= 10 {
        lemma_decimal_normal(n / 10);
    }
    let s = decimal(n);
    assert(!s.contains('/'));
    assert(s != seq!['.']) by {
        if s == seq!['.'] {
            assert(s[0] == '.');
        }
    }
}

} // verus!
