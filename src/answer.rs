use vstd::prelude::*;
use vstd::string::*;

use crate::diff::{diff_header, grouped_changes, rendered, unified_diff, DIFF_CONTEXT_LINES};
use crate::text::{
    chars_of, find_chars, find_from, is_space, match_at, matches_at, trim, trim_end, trimmed,
};

verus! {

/// The three backticks that open and close a code block.
pub open spec fn fence() -> Seq<char> {
    seq!['`', '`', '`']
}

/// Characters allowed in a code block's language tag.
pub open spec fn is_lang_char(c: char) -> bool {
    ('a' <= c <= 'z') || ('A' <= c <= 'Z') || ('0' <= c <= '9') || c == '_' || c == '+' || c
        == '-' || c == '.'
}

/// The end of the run of language-tag characters that starts at `j`.
pub open spec fn lang_end(s: Seq<char>, j: int) -> int
    decreases s.len() - j,
{
    if 0 <= j < s.len() && is_lang_char(s[j]) {
        lang_end(s, j + 1)
    } else {
        j
    }
}

/// The end of the run of white space that starts at `j`.
pub open spec fn space_end(s: Seq<char>, j: int) -> int
    decreases s.len() - j,
{
    if 0 <= j < s.len() && is_space(s[j]) {
        space_end(s, j + 1)
    } else {
        j
    }
}

/// A code block starting at `i`: backticks, a language tag, a newline, the
/// code up to the next backticks, then any white space. Gives the end of
/// the tag, the end of the code and the end of the block.
pub open spec fn block_at(s: Seq<char>, i: int) -> Option<(int, int, int)> {
    if matches_at(s, fence(), i) {
        let le = lang_end(s, i + 3);
        if le < s.len() && s[le] == '\n' {
            match find_from(s, fence(), le + 1) {
                Some(ce) => Some((le, ce, space_end(s, ce + 3))),
                None => None,
            }
        } else {
            None
        }
    } else {
        None
    }
}

/// The first index at or after `p` where a code block starts.
pub open spec fn next_block(s: Seq<char>, p: int) -> Option<int>
    decreases s.len() + 1 - p,
{
    if p < 0 || p > s.len() {
        None
    } else if block_at(s, p) is Some {
        Some(p)
    } else {
        next_block(s, p + 1)
    }
}

/// The code blocks of `s` from `p` on, each as (start, tag end, code end,
/// end), found left to right without overlap.
pub open spec fn blocks_from(s: Seq<char>, p: int) -> Seq<(int, int, int, int)>
    decreases s.len() + 1 - p,
{
    match next_block(s, p) {
        Some(i) => {
            let b = block_at(s, i)->0;
            if p < b.2 <= s.len() {
                seq![(i, b.0, b.1, b.2)] + blocks_from(s, b.2)
            } else {
                Seq::empty()
            }
        },
        None => Seq::empty(),
    }
}


fn lang_char(c: char) -> (r: bool)
    ensures
        r == is_lang_char(c),
{
    ('a' <= c && c <= 'z') || ('A' <= c && c <= 'Z') || ('0' <= c && c <= '9') || c == '_' || c
        == '+' || c == '-' || c == '.'
}

fn scan_lang(cs: &Vec<char>, j: usize) -> (r: usize)
    requires
        j <= cs.len(),
    ensures
        r as int == lang_end(cs@, j as int),
        j <= r <= cs.len(),
{
    let mut k = j;
    while k < cs.len() && lang_char(cs[k])
        invariant
            j <= k <= cs.len(),
            lang_end(cs@, j as int) == lang_end(cs@, k as int),
        decreases cs.len() - k,
    {
        k = k + 1;
    }
    k
}

fn scan_space(cs: &Vec<char>, j: usize) -> (r: usize)
    requires
        j <= cs.len(),
    ensures
        r as int == space_end(cs@, j as int),
        j <= r <= cs.len(),
{
    let mut k = j;
    while k < cs.len() && crate::text::is_space_char(cs[k])
        invariant
            j <= k <= cs.len(),
            space_end(cs@, j as int) == space_end(cs@, k as int),
        decreases cs.len() - k,
    {
        k = k + 1;
    }
    k
}

fn fence_chars() -> (r: Vec<char>)
    ensures
        r@ == fence(),
{
    let r = chars_of("```");
    proof {
        reveal_strlit("```");
    }
    assert(r@ =~= fence());
    r
}

fn block_here(cs: &Vec<char>, fc: &Vec<char>, i: usize) -> (r: Option<(usize, usize, usize)>)
    requires
        fc@ == fence(),
        i <= cs.len(),
    ensures
        match block_at(cs@, i as int) {
            Some(b) => r matches Some(x) && x.0 as int == b.0 && x.1 as int == b.1 && x.2 as int
                == b.2 && i + 3 <= x.0 < x.1 < x.2 <= cs.len(),
            None => r is None,
        },
{
    if !match_at(cs, fc, i) {
        return None;
    }
    let le = scan_lang(cs, i + 3);
    if le >= cs.len() || cs[le] != '\n' {
        return None;
    }
    match find_chars(cs, fc, le + 1) {
        Some(ce) => {
            assert(ce + fc@.len() <= cs@.len());
            let end = scan_space(cs, ce + 3);
            Some((le, ce, end))
        },
        None => None,
    }
}

/// The blocks as integers.
pub open spec fn spans(v: Seq<(usize, usize, usize, usize)>) -> Seq<(int, int, int, int)> {
    v.map_values(|t: (usize, usize, usize, usize)| (t.0 as int, t.1 as int, t.2 as int, t.3 as int))
}

fn find_blocks(cs: &Vec<char>) -> (r: Vec<(usize, usize, usize, usize)>)
    ensures
        spans(r@) == blocks_from(cs@, 0),
        forall|k: int| 0 <= k < r@.len() ==> (#[trigger] r@[k]).0 + 3 <= r@[k].1 < r@[k].2 < r@[k].3 <= cs@.len(),
        forall|k: int| 0 <= k < r@.len() - 1 ==> (#[trigger] r@[k]).3 <= r@[k + 1].0,
{
    let fc = fence_chars();
    let mut out: Vec<(usize, usize, usize, usize)> = Vec::new();
    let mut pos: usize = 0;
    let mut i: usize = 0;
    while i < cs.len()
        invariant
            fc@ == fence(),
            pos <= i,
            pos <= cs.len(),
            i <= cs.len(),
            blocks_from(cs@, 0) == spans(out@) + blocks_from(cs@, pos as int),
            next_block(cs@, pos as int) == next_block(cs@, i as int),
            forall|k: int| 0 <= k < out@.len() ==> (#[trigger] out@[k]).0 + 3 <= out@[k].1 < out@[k].2 < out@[k].3 <= cs@.len(),
            forall|k: int| 0 <= k < out@.len() - 1 ==> (#[trigger] out@[k]).3 <= out@[k + 1].0,
            out@.len() > 0 ==> out@.last().3 <= pos,
        decreases cs.len() + 1 - i,
    {
        match block_here(cs, &fc, i) {
            Some((le, ce, end)) => {
                assert(blocks_from(cs@, pos as int) == seq![
                    (i as int, le as int, ce as int, end as int),
                ] + blocks_from(cs@, end as int));
                out.push((i, le, ce, end));
                assert(spans(out@) =~= spans(out@.drop_last()) + seq![
                    (i as int, le as int, ce as int, end as int),
                ]);
                pos = end;
                i = end;
            },
            None => {
                i = i + 1;
            },
        }
    }
    assert(block_at(cs@, i as int) is None);
    assert(next_block(cs@, i + 1) is None);
    assert(blocks_from(cs@, pos as int) =~= Seq::<(int, int, int, int)>::empty());
    assert(spans(out@) + Seq::<(int, int, int, int)>::empty() =~= spans(out@));
    out
}


/// A stretch of plain text, kept (trimmed) where it is not blank.
pub open spec fn piece(t: Seq<char>) -> Seq<Seq<char>> {
    if trimmed(t).len() > 0 {
        seq![trimmed(t)]
    } else {
        Seq::empty()
    }
}

/// The plain text around `blocks`, from index `from` on.
pub open spec fn plain_segments(s: Seq<char>, blocks: Seq<(int, int, int, int)>, from: int) -> Seq<
    Seq<char>,
>
    decreases blocks.len(),
{
    if blocks.len() == 0 {
        piece(s.subrange(from, s.len() as int))
    } else {
        piece(s.subrange(from, blocks[0].0)) + plain_segments(s, blocks.drop_first(), blocks[0].3)
    }
}

/// `segs` with `sep` between each two.
pub open spec fn joined_with(segs: Seq<Seq<char>>, sep: Seq<char>) -> Seq<char>
    decreases segs.len(),
{
    if segs.len() == 0 {
        Seq::empty()
    } else if segs.len() == 1 {
        segs[0]
    } else {
        joined_with(segs.drop_last(), sep) + sep + segs.last()
    }
}

/// `l` equals the lower-case word `w` up to the case of ASCII letters.
pub open spec fn same_word(l: Seq<char>, w: Seq<char>) -> bool {
    l.len() == w.len() && forall|i: int|
        0 <= i < l.len() ==> (#[trigger] l[i] == w[i] || ('A' <= l[i] <= 'Z' && l[i] as u32 + 32
            == w[i] as u32))
}

/// The file extension shown for a code block in language `l`.
pub open spec fn ext_of(l: Seq<char>) -> Seq<char> {
    if same_word(l, "rs"@) || same_word(l, "rust"@) {
        "rs"@
    } else if same_word(l, "ts"@) || same_word(l, "typescript"@) {
        "ts"@
    } else if same_word(l, "js"@) || same_word(l, "javascript"@) {
        "js"@
    } else if same_word(l, "jsx"@) {
        "jsx"@
    } else if same_word(l, "tsx"@) {
        "tsx"@
    } else if same_word(l, "py"@) || same_word(l, "python"@) {
        "py"@
    } else if same_word(l, "html"@) {
        "html"@
    } else if same_word(l, "css"@) {
        "css"@
    } else if same_word(l, "json"@) {
        "json"@
    } else if same_word(l, "toml"@) {
        "toml"@
    } else if same_word(l, "yaml"@) || same_word(l, "yml"@) {
        "yaml"@
    } else if same_word(l, "sh"@) || same_word(l, "bash"@) {
        "sh"@
    } else if same_word(l, "sql"@) {
        "sql"@
    } else if same_word(l, "java"@) {
        "java"@
    } else if same_word(l, "c"@) {
        "c"@
    } else if same_word(l, "cpp"@) || same_word(l, "c++"@) {
        "cpp"@
    } else {
        "txt"@
    }
}

fn word_is(l: &Vec<char>, w: &str) -> (r: bool)
    ensures
        r == same_word(l@, w@),
{
    let wc = chars_of(w);
    if l.len() != wc.len() {
        return false;
    }
    let mut i: usize = 0;
    while i < l.len()
        invariant
            wc@ == w@,
            l.len() == wc.len(),
            i <= l.len(),
            forall|j: int|
                0 <= j < i ==> (#[trigger] l@[j] == w@[j] || ('A' <= l@[j] <= 'Z' && l@[j] as u32
                    + 32 == w@[j] as u32)),
        decreases l.len() - i,
    {
        let c = l[i];
        let d = wc[i];
        if !(c == d || ('A' <= c && c <= 'Z' && c as u32 + 32 == d as u32)) {
            return false;
        }
        i = i + 1;
    }
    true
}

/// The file extension shown for a code block in language `lang`; `txt`
/// for an unknown or missing one.
pub fn language_to_ext(lang: Option<&str>) -> (r: &'static str)
    ensures
        r@ == ext_of(
            match lang {
                Some(l) => l@,
                None => Seq::empty(),
            },
        ),
{
    let l = match lang {
        Some(x) => chars_of(x),
        None => Vec::new(),
    };
    if word_is(&l, "rs") || word_is(&l, "rust") {
        "rs"
    } else if word_is(&l, "ts") || word_is(&l, "typescript") {
        "ts"
    } else if word_is(&l, "js") || word_is(&l, "javascript") {
        "js"
    } else if word_is(&l, "jsx") {
        "jsx"
    } else if word_is(&l, "tsx") {
        "tsx"
    } else if word_is(&l, "py") || word_is(&l, "python") {
        "py"
    } else if word_is(&l, "html") {
        "html"
    } else if word_is(&l, "css") {
        "css"
    } else if word_is(&l, "json") {
        "json"
    } else if word_is(&l, "toml") {
        "toml"
    } else if word_is(&l, "yaml") || word_is(&l, "yml") {
        "yaml"
    } else if word_is(&l, "sh") || word_is(&l, "bash") {
        "sh"
    } else if word_is(&l, "sql") {
        "sql"
    } else if word_is(&l, "java") {
        "java"
    } else if word_is(&l, "c") {
        "c"
    } else if word_is(&l, "cpp") || word_is(&l, "c++") {
        "cpp"
    } else {
        "txt"
    }
}

/// `s` without leading newlines.
pub open spec fn strip_newlines_start(s: Seq<char>) -> Seq<char>
    decreases s.len(),
{
    if s.len() > 0 && s[0] == '\n' {
        strip_newlines_start(s.drop_first())
    } else {
        s
    }
}

/// `s` without trailing newlines.
pub open spec fn strip_newlines_end(s: Seq<char>) -> Seq<char>
    decreases s.len(),
{
    if s.len() > 0 && s.last() == '\n' {
        strip_newlines_end(s.drop_last())
    } else {
        s
    }
}

/// A block's code as shown: without leading and trailing newlines, then
/// ending in exactly one.
pub open spec fn shown_code(code: Seq<char>) -> Seq<char> {
    strip_newlines_end(strip_newlines_start(code)).push('\n')
}

/// A block shown as the diff that creates `answer.<ext>` with its code.
pub open spec fn block_diff(s: Seq<char>, b: (int, int, int, int)) -> Seq<char> {
    let ext = ext_of(s.subrange(b.0 + 3, b.1));
    diff_header("answer."@ + ext) + rendered(
        grouped_changes(Seq::empty(), shown_code(s.subrange(b.1 + 1, b.2)), DIFF_CONTEXT_LINES as nat),
    )
}

/// The diffs of `blocks`, a newline between each two.
pub open spec fn block_diffs(s: Seq<char>, blocks: Seq<(int, int, int, int)>) -> Seq<char>
    decreases blocks.len(),
{
    if blocks.len() == 0 {
        Seq::empty()
    } else if blocks.len() == 1 {
        block_diff(s, blocks[0])
    } else {
        block_diffs(s, blocks.drop_last()) + "\n"@ + block_diff(s, blocks.last())
    }
}

/// A model answer as shown: trimmed; where it holds code blocks, its plain
/// text (paragraphs a blank line apart) followed by each block as the diff
/// that creates a new file, without trailing white space.
pub open spec fn formatted_answer(a: Seq<char>) -> Seq<char> {
    let s = trimmed(a);
    let bs = blocks_from(s, 0);
    if s.len() == 0 {
        Seq::empty()
    } else if bs.len() == 0 {
        s
    } else {
        let segs = plain_segments(s, bs, 0);
        let text = if segs.len() > 0 {
            joined_with(segs, "\n\n"@) + "\n\n"@
        } else {
            Seq::empty()
        };
        trim_end(text + block_diffs(s, bs))
    }
}


fn strip_newlines(s: &str) -> (r: String)
    ensures
        r@ == strip_newlines_end(strip_newlines_start(s@)),
{
    let cs = chars_of(s);
    let mut lo: usize = 0;
    assert(s@.skip(0) =~= s@);
    while lo < cs.len() && cs[lo] == '\n'
        invariant
            cs@ == s@,
            lo <= cs.len(),
            strip_newlines_start(s@) == strip_newlines_start(s@.skip(lo as int)),
        decreases cs.len() - lo,
    {
        assert(s@.skip(lo as int).drop_first() =~= s@.skip(lo + 1));
        lo = lo + 1;
    }
    let mut hi: usize = cs.len();
    assert(s@.skip(lo as int) =~= s@.subrange(lo as int, hi as int));
    while hi > lo && cs[hi - 1] == '\n'
        invariant
            cs@ == s@,
            lo <= hi <= cs.len(),
            strip_newlines_end(strip_newlines_start(s@)) == strip_newlines_end(
                s@.subrange(lo as int, hi as int),
            ),
        decreases hi,
    {
        assert(s@.subrange(lo as int, hi as int).drop_last() =~= s@.subrange(lo as int, hi - 1));
        hi = hi - 1;
    }
    String::from_str(s.substring_char(lo, hi))
}

fn trim_end_text(s: &str) -> (r: String)
    ensures
        r@ == trim_end(s@),
{
    let cs = chars_of(s);
    let mut hi: usize = cs.len();
    assert(s@.subrange(0, hi as int) =~= s@);
    while hi > 0 && crate::text::is_space_char(cs[hi - 1])
        invariant
            cs@ == s@,
            hi <= cs.len(),
            trim_end(s@) == trim_end(s@.subrange(0, hi as int)),
        decreases hi,
    {
        assert(s@.subrange(0, hi as int).drop_last() =~= s@.subrange(0, hi - 1));
        hi = hi - 1;
    }
    String::from_str(s.substring_char(0, hi))
}

fn plain_pieces(t: &str, bs: &Vec<(usize, usize, usize, usize)>) -> (r: Vec<String>)
    requires
        forall|k: int| 0 <= k < bs@.len() ==> (#[trigger] bs@[k]).0 + 3 <= bs@[k].1 < bs@[k].2 < bs@[k].3 <= t@.len(),
        forall|k: int| 0 <= k < bs@.len() - 1 ==> (#[trigger] bs@[k]).3 <= bs@[k + 1].0,
    ensures
        r@.map_values(|x: String| x@) == plain_segments(t@, spans(bs@), 0),
{
    let ghost b = spans(bs@);
    let mut out: Vec<String> = Vec::new();
    let mut from: usize = 0;
    let mut k: usize = 0;
    let n = t.unicode_len();
    assert(b.skip(0) =~= b);
    while k < bs.len()
        invariant
            n == t@.len(),
            b == spans(bs@),
            k <= bs.len(),
            from <= n,
            k < bs.len() ==> from <= bs@[k as int].0,
            forall|j: int| 0 <= j < bs@.len() ==> (#[trigger] bs@[j]).0 + 3 <= bs@[j].1 < bs@[j].2 < bs@[j].3 <= t@.len(),
            forall|j: int| 0 <= j < bs@.len() - 1 ==> (#[trigger] bs@[j]).3 <= bs@[j + 1].0,
            plain_segments(t@, b, 0) == out@.map_values(|x: String| x@) + plain_segments(
                t@,
                b.skip(k as int),
                from as int,
            ),
        decreases bs.len() - k,
    {
        let (start, _le, _ce, end) = bs[k];
        assert(b.skip(k as int).drop_first() =~= b.skip(k + 1));
        assert(b.skip(k as int)[0] == b[k as int]);
        let ghost before = out@.map_values(|x: String| x@);
        let piece_text = trim(t.substring_char(from, start));
        if piece_text.unicode_len() > 0 {
            out.push(piece_text);
        }
        assert(out@.map_values(|x: String| x@) =~= before + piece(t@.subrange(from as int, start as int)));
        from = end;
        k = k + 1;
    }
    let ghost before = out@.map_values(|x: String| x@);
    let last = trim(t.substring_char(from, n));
    if last.unicode_len() > 0 {
        out.push(last);
    }
    assert(out@.map_values(|x: String| x@) =~= before + piece(t@.subrange(from as int, n as int)));
    out
}

fn join_texts(segs: &Vec<String>, sep: &str) -> (r: String)
    ensures
        r@ == joined_with(segs@.map_values(|x: String| x@), sep@),
{
    let ghost v = segs@.map_values(|x: String| x@);
    let mut out = String::new();
    let mut i: usize = 0;
    while i < segs.len()
        invariant
            v == segs@.map_values(|x: String| x@),
            i <= segs.len(),
            out@ == joined_with(v.take(i as int), sep@),
        decreases segs.len() - i,
    {
        assert(v.take(i + 1).drop_last() =~= v.take(i as int));
        assert(v.take(i + 1).last() == segs@[i as int]@);
        if i > 0 {
            out.append(sep);
        } else {
            assert(v.take(1) =~= seq![segs@[0]@]);
            assert(out@ =~= Seq::<char>::empty());
        }
        out.append(segs[i].as_str());
        i = i + 1;
    }
    assert(v.take(segs.len() as int) =~= v);
    out
}

fn diff_of_block(t: &str, b: (usize, usize, usize, usize)) -> (r: String)
    requires
        b.0 + 3 <= b.1 < b.2 <= t@.len(),
    ensures
        r@ == block_diff(t@, (b.0 as int, b.1 as int, b.2 as int, b.3 as int)),
{
    let ext = language_to_ext(Some(t.substring_char(b.0 + 3, b.1)));
    let mut path = String::from_str("answer.");
    path.append(ext);
    let mut code = strip_newlines(t.substring_char(b.1 + 1, b.2));
    let ghost stripped = code@;
    code.append("\n");
    proof {
        reveal_strlit("\n");
    }
    assert(code@ =~= stripped.push('\n'));
    assert(code@ == shown_code(t@.subrange(b.1 + 1, b.2 as int)));
    let empty = String::new();
    assert(empty@ =~= Seq::<char>::empty());
    unified_diff(empty.as_str(), code.as_str(), path.as_str())
}

/// Formats a model answer for display: trimmed, and where it holds fenced
/// code blocks, its plain paragraphs followed by each block rendered as the
/// diff that creates `answer.<ext>`.
pub fn format_answer(answer: &str) -> (r: String)
    ensures
        r@ == formatted_answer(answer@),
{
    let t = trim(answer);
    let cs = chars_of(t.as_str());
    if cs.len() == 0 {
        return String::new();
    }
    let bs = find_blocks(&cs);
    if bs.len() == 0 {
        return t;
    }
    let segs = plain_pieces(t.as_str(), &bs);
    let mut out = String::new();
    if segs.len() > 0 {
        out.append(join_texts(&segs, "\n\n").as_str());
        out.append("\n\n");
    }
    let ghost text = out@;
    let ghost b = spans(bs@);
    let mut k: usize = 0;
    while k < bs.len()
        invariant
            b == spans(bs@),
            t@ == cs@,
            k <= bs.len(),
            forall|j: int| 0 <= j < bs@.len() ==> (#[trigger] bs@[j]).0 + 3 <= bs@[j].1 < bs@[j].2 < bs@[j].3 <= cs@.len(),
            out@ == text + block_diffs(t@, b.take(k as int)),
        decreases bs.len() - k,
    {
        assert(b.take(k + 1).drop_last() =~= b.take(k as int));
        assert(b.take(k + 1).last() == b[k as int]);
        if k > 0 {
            out.append("\n");
        } else {
            assert(b.take(1) =~= seq![b[0]]);
            assert(block_diffs(t@, b.take(0)) =~= Seq::<char>::empty());
        }
        out.append(diff_of_block(t.as_str(), bs[k]).as_str());
        k = k + 1;
    }
    assert(b.take(bs.len() as int) =~= b);
    trim_end_text(out.as_str())
}

} // verus!
