use vstd::prelude::*;
use vstd::string::*;

verus! {

/// `a` occurs in `s` starting at character index `i`.
pub open spec fn matches_at(s: Seq<char>, a: Seq<char>, i: int) -> bool {
    0 <= i && i + a.len() <= s.len() && s.subrange(i, i + a.len()) == a
}

/// `a` occurs somewhere in `s`.
pub open spec fn occurs(s: Seq<char>, a: Seq<char>) -> bool {
    exists|i: int| matches_at(s, a, i)
}

/// The first index at or after `i` where `a` occurs in `s`.
pub open spec fn find_from(s: Seq<char>, a: Seq<char>, i: int) -> Option<int>
    decreases s.len() + 1 - i,
{
    if i < 0 || i + a.len() > s.len() {
        None
    } else if s.subrange(i, i + a.len()) == a {
        Some(i)
    } else {
        find_from(s, a, i + 1)
    }
}

/// The first index where `a` occurs in `s`.
pub open spec fn first_match(s: Seq<char>, a: Seq<char>) -> Option<int> {
    find_from(s, a, 0)
}

proof fn lemma_find_from(s: Seq<char>, a: Seq<char>, i: int)
    requires
        0 <= i,
    ensures
        find_from(s, a, i) matches Some(k) ==> i <= k && matches_at(s, a, k) && forall|j: int|
            i <= j < k ==> !matches_at(s, a, j),
        find_from(s, a, i) is None ==> forall|j: int| i <= j ==> !matches_at(s, a, j),
    decreases s.len() + 1 - i,
{
    if i + a.len() > s.len() {
    } else if s.subrange(i, i + a.len()) == a {
    } else {
        lemma_find_from(s, a, i + 1);
    }
}

/// `first_match` is the least index where `a` occurs, and is absent exactly
/// when `a` does not occur.
pub proof fn lemma_first_match(s: Seq<char>, a: Seq<char>)
    ensures
        first_match(s, a) matches Some(k) ==> matches_at(s, a, k) && forall|j: int|
            0 <= j < k ==> !matches_at(s, a, j),
        first_match(s, a) is None <==> !occurs(s, a),
{
    lemma_find_from(s, a, 0);
}

/// Number of non-overlapping occurrences of `a` in `s` from index `i` on,
/// taken greedily from the left; an empty `a` occurs at every position.
pub open spec fn count_from(s: Seq<char>, a: Seq<char>, i: int) -> nat
    decreases s.len() + 1 - i,
{
    if i < 0 || i > s.len() {
        0
    } else if a.len() == 0 {
        (s.len() + 1 - i) as nat
    } else if i + a.len() > s.len() {
        0
    } else if s.subrange(i, i + a.len()) == a {
        1 + count_from(s, a, i + a.len())
    } else {
        count_from(s, a, i + 1)
    }
}

/// Number of non-overlapping occurrences of `a` in `s`.
pub open spec fn count_matches(s: Seq<char>, a: Seq<char>) -> nat {
    count_from(s, a, 0)
}

/// The characters of `s`.
pub fn chars_of(s: &str) -> (r: Vec<char>)
    ensures
        r@ == s@,
{
    let mut r: Vec<char> = Vec::new();
    for c in it: s.chars()
        invariant
            it.seq() == s@,
            r@ == it.seq().take(it.index() as int),
    {
        r.push(c);
    }
    r
}


/// Whether `a` occurs in `s` at index `i`.
pub fn match_at(s: &Vec<char>, a: &Vec<char>, i: usize) -> (r: bool)
    ensures
        r == matches_at(s@, a@, i as int),
{
    if a.len() > s.len() || i > s.len() - a.len() {
        return false;
    }
    let mut j: usize = 0;
    while j < a.len()
        invariant
            i + a.len() <= s.len(),
            j <= a.len(),
            forall|k: int| 0 <= k < j ==> s@[i + k] == a@[k],
        decreases a.len() - j,
    {
        if s[i + j] != a[j] {
            assert(s@.subrange(i as int, i + a.len())[j as int] != a@[j as int]);
            return false;
        }
        j = j + 1;
    }
    assert(s@.subrange(i as int, i + a.len()) =~= a@);
    true
}

/// The first index at or after `from` where `a` occurs in `s`.
pub fn find_chars(s: &Vec<char>, a: &Vec<char>, from: usize) -> (r: Option<usize>)
    ensures
        r matches Some(k) ==> from <= k && find_from(s@, a@, from as int) == Some(k as int) && matches_at(
            s@,
            a@,
            k as int,
        ),
        r is None ==> find_from(s@, a@, from as int) is None,
{
    let mut i = from;
    while i <= s.len() && a.len() <= s.len() - i
        invariant
            from <= i,
            find_from(s@, a@, from as int) == find_from(s@, a@, i as int),
        decreases s.len() + 1 - i,
    {
        if match_at(s, a, i) {
            return Some(i);
        }
        if i == s.len() {
            assert(s@.subrange(i as int, i + a.len()) =~= a@);
            return None;
        }
        i = i + 1;
    }
    None
}

/// Whether `a` occurs at least `limit` times in `s`, counting
/// non-overlapping occurrences from the left.
pub fn occurs_at_least(s: &Vec<char>, a: &Vec<char>, limit: usize) -> (r: bool)
    ensures
        r == (count_matches(s@, a@) >= limit),
{
    if a.len() == 0 {
        return limit == 0 || limit - 1 <= s.len();
    }
    let mut count: usize = 0;
    let mut i: usize = 0;
    while count < limit && i <= s.len() && a.len() <= s.len() - i
        invariant
            a.len() > 0,
            i <= s.len(),
            count <= limit,
            count + count_from(s@, a@, i as int) == count_matches(s@, a@),
        decreases s.len() + 1 - i,
    {
        if match_at(s, a, i) {
            count = count + 1;
            i = i + a.len();
        } else {
            i = i + 1;
        }
    }
    count >= limit
}


/// Whether two texts hold the same characters.
pub fn same_text(a: &str, b: &str) -> (r: bool)
    ensures
        r == (a@ == b@),
{
    let x = chars_of(a);
    let y = chars_of(b);
    if x.len() != y.len() {
        return false;
    }
    let mut i: usize = 0;
    while i < x.len()
        invariant
            x@ == a@,
            y@ == b@,
            x.len() == y.len(),
            i <= x.len(),
            forall|k: int| 0 <= k < i ==> x@[k] == y@[k],
        decreases x.len() - i,
    {
        if x[i] != y[i] {
            return false;
        }
        i = i + 1;
    }
    assert(x@ =~= y@);
    true
}

/// `s` with `del` characters at index `at` replaced by `ins`.
pub open spec fn spliced(s: Seq<char>, at: int, del: int, ins: Seq<char>) -> Seq<char> {
    s.subrange(0, at) + ins + s.subrange(at + del, s.len() as int)
}

/// Builds `spliced(s@, at, del, ins@)`.
pub fn splice(s: &str, at: usize, del: usize, ins: &str) -> (r: String)
    requires
        at + del <= s@.len(),
    ensures
        r@ == spliced(s@, at as int, del as int, ins@),
{
    let n = s.unicode_len();
    let mut r = String::new();
    r.append(s.substring_char(0, at));
    r.append(ins);
    r.append(s.substring_char(at + del, n));
    r
}


/// Number of bytes in the UTF-8 encoding of `c`.
pub open spec fn char_width(c: char) -> nat {
    let v = c as u32;
    if v <= 0x7f {
        1
    } else if v <= 0x7ff {
        2
    } else if v <= 0xffff {
        3
    } else {
        4
    }
}

/// Number of leading characters of `s` whose UTF-8 encoding fits in
/// `max` bytes.
pub open spec fn fit_len(s: Seq<char>, max: nat) -> nat
    decreases s.len(),
{
    if s.len() == 0 || char_width(s[0]) > max {
        0
    } else {
        1 + fit_len(s.drop_first(), (max - char_width(s[0])) as nat)
    }
}

/// The longest prefix of `s` whose UTF-8 encoding fits in `max` bytes.
pub open spec fn truncated(s: Seq<char>, max: nat) -> Seq<char> {
    s.take(fit_len(s, max) as int)
}

fn width_of(c: char) -> (r: usize)
    ensures
        r == char_width(c),
{
    let v = c as u32;
    if v <= 0x7f {
        1
    } else if v <= 0x7ff {
        2
    } else if v <= 0xffff {
        3
    } else {
        4
    }
}

/// The longest prefix of `s` that fits in `max` bytes of UTF-8, never
/// splitting a character.
pub fn truncate(s: &str, max: usize) -> (r: String)
    ensures
        r@ == truncated(s@, max as nat),
{
    let cs = chars_of(s);
    let mut used: usize = 0;
    let mut k: usize = 0;
    let mut full = false;
    assert(s@.skip(0) =~= s@);
    while !full && k < cs.len()
        invariant
            cs@ == s@,
            k <= cs.len(),
            used <= max,
            fit_len(s@, max as nat) == k + fit_len(s@.skip(k as int), (max - used) as nat),
            full ==> k < cs.len() && char_width(s@[k as int]) > max - used,
        decreases cs.len() - k + (if full { 0int } else { 1 }),
    {
        let w = width_of(cs[k]);
        if w > max - used {
            full = true;
            continue;
        }
        assert(s@.skip(k as int).drop_first() =~= s@.skip(k + 1));
        used = used + w;
        k = k + 1;
    }
    String::from_str(s.substring_char(0, k))
}

/// `c` has the Unicode White_Space property.
pub open spec fn is_space(c: char) -> bool {
    let v = c as u32;
    (0x9 <= v <= 0xd) || v == 0x20 || v == 0x85 || v == 0xa0 || v == 0x1680 || (0x2000 <= v
        <= 0x200a) || v == 0x2028 || v == 0x2029 || v == 0x202f || v == 0x205f || v == 0x3000
}

/// Whether `c` is white space.
pub fn is_space_char(c: char) -> (r: bool)
    ensures
        r == is_space(c),
{
    let v = c as u32;
    (0x9 <= v && v <= 0xd) || v == 0x20 || v == 0x85 || v == 0xa0 || v == 0x1680 || (0x2000 <= v
        && v <= 0x200a) || v == 0x2028 || v == 0x2029 || v == 0x202f || v == 0x205f || v == 0x3000
}

/// `s` without its leading white space.
pub open spec fn trim_start(s: Seq<char>) -> Seq<char>
    decreases s.len(),
{
    if s.len() > 0 && is_space(s[0]) {
        trim_start(s.drop_first())
    } else {
        s
    }
}

/// `s` without its trailing white space.
pub open spec fn trim_end(s: Seq<char>) -> Seq<char>
    decreases s.len(),
{
    if s.len() > 0 && is_space(s.last()) {
        trim_end(s.drop_last())
    } else {
        s
    }
}

/// `s` without leading and trailing white space.
pub open spec fn trimmed(s: Seq<char>) -> Seq<char> {
    trim_end(trim_start(s))
}

/// `s` without leading and trailing white space.
pub fn trim(s: &str) -> (r: String)
    ensures
        r@ == trimmed(s@),
{
    let cs = chars_of(s);
    let mut lo: usize = 0;
    assert(s@.skip(0) =~= s@);
    while lo < cs.len() && is_space_char(cs[lo])
        invariant
            cs@ == s@,
            lo <= cs.len(),
            trim_start(s@) == trim_start(s@.skip(lo as int)),
        decreases cs.len() - lo,
    {
        assert(s@.skip(lo as int).drop_first() =~= s@.skip(lo + 1));
        lo = lo + 1;
    }
    let mut hi: usize = cs.len();
    assert(trim_start(s@) =~= s@.subrange(lo as int, hi as int)) by {
        assert(s@.skip(lo as int) =~= s@.subrange(lo as int, hi as int));
    }
    while hi > lo && is_space_char(cs[hi - 1])
        invariant
            cs@ == s@,
            lo <= hi <= cs.len(),
            trimmed(s@) == trim_end(s@.subrange(lo as int, hi as int)),
        decreases hi,
    {
        assert(s@.subrange(lo as int, hi as int).drop_last() =~= s@.subrange(lo as int, hi - 1));
        hi = hi - 1;
    }
    String::from_str(s.substring_char(lo, hi))
}

/// The decimal digits of `n`.
pub open spec fn decimal(n: nat) -> Seq<char>
    decreases n,
{
    if n < 10 {
        seq![digit(n)]
    } else {
        decimal(n / 10).push(digit(n % 10))
    }
}

/// The character of the digit `d`.
pub open spec fn digit(d: nat) -> char {
    "0123456789"@[d as int]
}

/// The decimal digits of `n`.
pub fn decimal_text(n: usize) -> (r: String)
    ensures
        r@ == decimal(n as nat),
    decreases n,
{
    let digits = "0123456789";
    proof {
        reveal_strlit("0123456789");
    }
    let d = n % 10;
    let one = digits.substring_char(d, d + 1);
    assert(one@ =~= seq![digit(d as nat)]);
    if n < 10 {
        String::from_str(one)
    } else {
        let mut r = decimal_text(n / 10);
        r.append(one);
        assert(r@ =~= decimal(n as nat));
        r
    }
}


/// Whether `pat` occurs in `s`.
pub fn contains_text(s: &str, pat: &str) -> (r: bool)
    ensures
        r == occurs(s@, pat@),
{
    let cs = chars_of(s);
    let a = chars_of(pat);
    proof {
        lemma_first_match(s@, pat@);
    }
    find_chars(&cs, &a, 0).is_some()
}

} // verus!
