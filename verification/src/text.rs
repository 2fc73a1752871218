//! Character-sequence helpers shared by the schema and documentation checks.

use vstd::prelude::*;

verus! {

/// `needle` occurs in `hay` starting at position `i`.
pub open spec fn occurs_at(hay: Seq<char>, needle: Seq<char>, i: int) -> bool {
    0 <= i && i + needle.len() <= hay.len() && hay.subrange(i, i + needle.len()) =~= needle
}

/// `needle` occurs somewhere in `hay`.
pub open spec fn contains(hay: Seq<char>, needle: Seq<char>) -> bool {
    exists|i: int| occurs_at(hay, needle, i)
}

/// The characters of `s`, in order.
pub fn chars_of(s: &str) -> (v: Vec<char>)
    ensures
        v@ == s@,
{
    let mut v: Vec<char> = Vec::new();
    for c in it: s.chars()
        invariant
            v@ == it.seq().take(it.index() as int),
    {
        v.push(c);
    }
    v
}

/// Whether `needle` occurs in `hay` at position `i`.
pub fn matches_at(hay: &[char], needle: &[char], i: usize) -> (r: bool)
    ensures
        r == occurs_at(hay@, needle@, i as int),
{
    if i > hay.len() || needle.len() > hay.len() - i {
        return false;
    }
    let mut k: usize = 0;
    while k < needle.len()
        invariant
            i + needle.len() <= hay.len(),
            k <= needle.len(),
            forall|j: int| 0 <= j < k ==> hay@[i + j] == needle@[j],
        decreases needle.len() - k,
    {
        if hay[i + k] != needle[k] {
            assert(hay@.subrange(i as int, i + needle.len())[k as int] != needle@[k as int]);
            return false;
        }
        k = k + 1;
    }
    assert(hay@.subrange(i as int, i + needle.len()) =~= needle@);
    true
}

/// Whether `needle` occurs anywhere in `hay`.
pub fn contains_seq(hay: &[char], needle: &[char]) -> (r: bool)
    ensures
        r == contains(hay@, needle@),
{
    if needle.len() > hay.len() {
        return false;
    }
    let last = hay.len() - needle.len();
    let mut i: usize = 0;
    while i <= last
        invariant
            last == hay.len() - needle.len(),
            needle.len() <= hay.len(),
            i <= last + 1,
            forall|j: int| 0 <= j < i ==> !occurs_at(hay@, needle@, j),
        decreases last + 1 - i,
    {
        if matches_at(hay, needle, i) {
            return true;
        }
        i = i + 1;
    }
    false
}


/// The whitespace characters: those with the Unicode `White_Space` property.
pub open spec fn is_whitespace_spec(c: char) -> bool {
    let u = c as u32;
    ||| 0x09 <= u <= 0x0d
    ||| u == 0x20
    ||| u == 0x85
    ||| u == 0xa0
    ||| u == 0x1680
    ||| 0x2000 <= u <= 0x200a
    ||| u == 0x2028
    ||| u == 0x2029
    ||| u == 0x202f
    ||| u == 0x205f
    ||| u == 0x3000
}

/// Whether `c` is whitespace.
pub fn is_whitespace(c: char) -> (r: bool)
    ensures
        r == is_whitespace_spec(c),
{
    let u = c as u32;
    (0x09 <= u && u <= 0x0d) || u == 0x20 || u == 0x85 || u == 0xa0 || u == 0x1680 || (0x2000
        <= u && u <= 0x200a) || u == 0x2028 || u == 0x2029 || u == 0x202f || u == 0x205f || u
        == 0x3000
}

/// `s` without its leading whitespace.
pub open spec fn trim_start(s: Seq<char>) -> Seq<char>
    decreases s.len(),
{
    if s.len() > 0 && is_whitespace_spec(s[0]) {
        trim_start(s.drop_first())
    } else {
        s
    }
}

/// `s` without its trailing whitespace.
pub open spec fn trim_end(s: Seq<char>) -> Seq<char>
    decreases s.len(),
{
    if s.len() > 0 && is_whitespace_spec(s.last()) {
        trim_end(s.drop_last())
    } else {
        s
    }
}

/// `s` without its leading and trailing whitespace.
pub open spec fn trim(s: Seq<char>) -> Seq<char> {
    trim_end(trim_start(s))
}

pub proof fn lemma_trim_start_at(s: Seq<char>, a: int)
    requires
        0 <= a <= s.len(),
        forall|j: int| 0 <= j < a ==> is_whitespace_spec(#[trigger] s[j]),
        a == s.len() || !is_whitespace_spec(s[a]),
    ensures
        trim_start(s) == s.skip(a),
    decreases a,
{
    if a > 0 {
        assert(s.drop_first().skip(a - 1) =~= s.skip(a));
        assert forall|j: int| 0 <= j < a - 1 implies is_whitespace_spec(#[trigger] s.drop_first()[j]) by {
            assert(s.drop_first()[j] == s[j + 1]);
        }
        lemma_trim_start_at(s.drop_first(), a - 1);
    } else {
        assert(s.skip(0) =~= s);
    }
}

/// Trimming keeps every character up to the last one that is not whitespace.
proof fn lemma_trim_end_keeps_prefix(s: Seq<char>, k: int)
    requires
        0 < k <= s.len(),
        !is_whitespace_spec(s[k - 1]),
    ensures
        trim_end(s).len() >= k,
        trim_end(s).take(k) == s.take(k),
    decreases s.len(),
{
    if s.len() > 0 && is_whitespace_spec(s.last()) {
        assert(s.drop_last()[k - 1] == s[k - 1]);
        lemma_trim_end_keeps_prefix(s.drop_last(), k);
        assert(s.drop_last().take(k) =~= s.take(k));
    }
}

/// Whitespace before a text that starts with a non-whitespace character
/// changes nothing of the trimmed text's first `k` characters, up to its
/// last non-whitespace one.
pub proof fn lemma_trim_ignores_indent(indent: Seq<char>, s: Seq<char>, k: int)
    requires
        forall|j: int| 0 <= j < indent.len() ==> is_whitespace_spec(#[trigger] indent[j]),
        0 < k <= s.len(),
        !is_whitespace_spec(s[0]),
        !is_whitespace_spec(s[k - 1]),
    ensures
        trim(indent + s).len() >= k,
        trim(indent + s).take(k) == s.take(k),
        trim(indent + s) == trim(s),
{
    let t = indent + s;
    assert forall|j: int| 0 <= j < indent.len() implies is_whitespace_spec(#[trigger] t[j]) by {
        assert(t[j] == indent[j]);
    }
    assert(t[indent.len() as int] == s[0]);
    lemma_trim_start_at(t, indent.len() as int);
    assert(t.skip(indent.len() as int) =~= s);
    lemma_trim_start_at(s, 0);
    assert(s.skip(0) =~= s);
    lemma_trim_end_keeps_prefix(s, k);
}

proof fn lemma_trim_end_at(s: Seq<char>, b: int)
    requires
        0 <= b <= s.len(),
        forall|j: int| b <= j < s.len() ==> is_whitespace_spec(#[trigger] s[j]),
        b == 0 || !is_whitespace_spec(s[b - 1]),
    ensures
        trim_end(s) == s.take(b),
    decreases s.len() - b,
{
    if b < s.len() {
        assert(s.drop_last().take(b) =~= s.take(b));
        assert forall|j: int| b <= j < s.len() - 1 implies is_whitespace_spec(#[trigger] s.drop_last()[j]) by {
            assert(s.drop_last()[j] == s[j]);
        }
        assert(is_whitespace_spec(s[s.len() - 1]));
        lemma_trim_end_at(s.drop_last(), b);
    } else {
        assert(s.take(b) =~= s);
    }
}

/// `s` without its leading and trailing whitespace.
pub fn trimmed(s: &[char]) -> (r: Vec<char>)
    ensures
        r@ == trim(s@),
{
    let mut a: usize = 0;
    while a < s.len() && is_whitespace(s[a])
        invariant
            a <= s.len(),
            forall|j: int| 0 <= j < a ==> is_whitespace_spec(#[trigger] s@[j]),
        decreases s.len() - a,
    {
        a = a + 1;
    }
    proof {
        lemma_trim_start_at(s@, a as int);
    }
    let mut b: usize = s.len();
    while b > a && is_whitespace(s[b - 1])
        invariant
            a <= b <= s.len(),
            forall|j: int| b <= j < s.len() ==> is_whitespace_spec(#[trigger] s@[j]),
        decreases b,
    {
        b = b - 1;
    }
    let ghost t = s@.skip(a as int);
    proof {
        assert forall|j: int| b - a <= j < t.len() implies is_whitespace_spec(#[trigger] t[j]) by {
            assert(t[j] == s@[j + a]);
        }
        lemma_trim_end_at(t, b - a);
    }
    let mut r: Vec<char> = Vec::new();
    let mut k: usize = a;
    while k < b
        invariant
            a <= k <= b <= s.len(),
            r@ =~= s@.subrange(a as int, k as int),
        decreases b - k,
    {
        r.push(s[k]);
        k = k + 1;
    }
    assert(t.take(b - a) =~= s@.subrange(a as int, b as int));
    r
}

/// `s` with every non-overlapping occurrence of `pat`, scanned from the left,
/// replaced by `rep`. An empty `pat` leaves `s` unchanged (unlike std's
/// `str::replace`, which inserts `rep` between characters); [`replaced`]
/// only accepts a non-empty pattern.
pub open spec fn replace_all(s: Seq<char>, pat: Seq<char>, rep: Seq<char>) -> Seq<char>
    decreases s.len(),
{
    if pat.len() == 0 || s.len() == 0 {
        s
    } else if occurs_at(s, pat, 0) {
        rep + replace_all(s.skip(pat.len() as int), pat, rep)
    } else {
        seq![s[0]] + replace_all(s.skip(1), pat, rep)
    }
}

/// `s` with every non-overlapping occurrence of `pat`, scanned from the left,
/// replaced by `rep`.
pub fn replaced(s: &[char], pat: &[char], rep: &[char]) -> (r: Vec<char>)
    requires
        pat@.len() > 0,
    ensures
        r@ == replace_all(s@, pat@, rep@),
{
    let mut r: Vec<char> = Vec::new();
    let mut i: usize = 0;
    assert(s@.skip(0) =~= s@);
    while i < s.len()
        invariant
            pat@.len() > 0,
            i <= s.len(),
            replace_all(s@, pat@, rep@) == r@ + replace_all(s@.skip(i as int), pat@, rep@),
        decreases s.len() - i,
    {
        let ghost t = s@.skip(i as int);
        if matches_at(s, pat, i) {
            assert(t.subrange(0, pat@.len() as int) =~= s@.subrange(i as int, i + pat@.len()));
            assert(t.skip(pat@.len() as int) =~= s@.skip(i + pat@.len()));
            let mut k: usize = 0;
            let ghost r0 = r@;
            while k < rep.len()
                invariant
                    k <= rep.len(),
                    r@ =~= r0 + rep@.take(k as int),
                decreases rep.len() - k,
            {
                r.push(rep[k]);
                k = k + 1;
            }
            assert(rep@.take(rep@.len() as int) =~= rep@);
            assert(r@ + replace_all(s@.skip(i + pat@.len()), pat@, rep@) =~= r0 + (rep@
                + replace_all(t.skip(pat@.len() as int), pat@, rep@)));
            i = i + pat.len();
        } else {
            assert(!occurs_at(t, pat@, 0)) by {
                if occurs_at(t, pat@, 0) {
                    assert(t.subrange(0, pat@.len() as int) =~= s@.subrange(
                        i as int,
                        i + pat@.len(),
                    ));
                }
            }
            assert(t.skip(1) =~= s@.skip(i + 1));
            let ghost r0 = r@;
            r.push(s[i]);
            assert(r@ + replace_all(s@.skip(i + 1), pat@, rep@) =~= r0 + (seq![t[0]]
                + replace_all(t.skip(1), pat@, rep@)));
            i = i + 1;
        }
    }
    assert(s@.skip(i as int) =~= Seq::<char>::empty());
    assert(r@ + Seq::<char>::empty() =~= r@);
    r
}

/// Whether `a` and `b` hold the same characters.
pub fn same_chars(a: &[char], b: &[char]) -> (r: bool)
    ensures
        r == (a@ == b@),
{
    if a.len() != b.len() {
        return false;
    }
    let r = matches_at(a, b, 0);
    assert(a@.subrange(0, b@.len() as int) =~= a@);
    r
}


/// `i` is the first position at which `needle` occurs in `hay`.
pub open spec fn is_first_occurrence(hay: Seq<char>, needle: Seq<char>, i: int) -> bool {
    occurs_at(hay, needle, i) && forall|j: int| 0 <= j < i ==> !occurs_at(hay, needle, j)
}

/// The first position at which `needle` occurs in `hay`, if any.
pub open spec fn find(hay: Seq<char>, needle: Seq<char>) -> Option<int> {
    if exists|i: int| is_first_occurrence(hay, needle, i) {
        Some(choose|i: int| is_first_occurrence(hay, needle, i))
    } else {
        None
    }
}

/// `i` is the last position of `c` in `s`.
pub open spec fn is_last_char(s: Seq<char>, c: char, i: int) -> bool {
    0 <= i < s.len() && s[i] == c && forall|j: int| i < j < s.len() ==> s[j] != c
}

/// The last position of `c` in `s`, if any.
pub open spec fn rfind_char(s: Seq<char>, c: char) -> Option<int> {
    if exists|i: int| is_last_char(s, c, i) {
        Some(choose|i: int| is_last_char(s, c, i))
    } else {
        None
    }
}

/// The first occurrence is at `i` whenever `i` satisfies the description.
pub proof fn lemma_find_at(hay: Seq<char>, needle: Seq<char>, i: int)
    requires
        is_first_occurrence(hay, needle, i),
    ensures
        find(hay, needle) == Some(i),
{
    let k = choose|k: int| is_first_occurrence(hay, needle, k);
    assert(is_first_occurrence(hay, needle, k));
}

/// A text that neither starts nor ends with whitespace is its own trim.
pub proof fn lemma_trim_unchanged(s: Seq<char>)
    requires
        s.len() > 0 ==> !is_whitespace_spec(s[0]) && !is_whitespace_spec(s.last()),
    ensures
        trim(s) == s,
{
    lemma_trim_start_at(s, 0);
    assert(s.skip(0) =~= s);
    lemma_trim_end_at(s, s.len() as int);
    assert(s.take(s.len() as int) =~= s);
}

/// A text in which `needle` does not occur has no first occurrence of it.
pub proof fn lemma_find_absent(hay: Seq<char>, needle: Seq<char>)
    requires
        !contains(hay, needle),
    ensures
        find(hay, needle) is None,
{
}

/// Trailing whitespace is trimmed from the end only: text before a part
/// that starts with a non-whitespace character stays as it is.
pub proof fn lemma_trim_end_after_prefix(p: Seq<char>, u: Seq<char>)
    requires
        u.len() > 0,
        !is_whitespace_spec(u[0]),
    ensures
        trim_end(p + u) == p + trim_end(u),
    decreases u.len(),
{
    let pu = p + u;
    if is_whitespace_spec(u.last()) {
        assert(u.len() > 1);
        assert(pu.last() == u.last());
        assert(pu.drop_last() =~= p + u.drop_last());
        assert(u.drop_last()[0] == u[0]);
        lemma_trim_end_after_prefix(p, u.drop_last());
    } else {
        assert(pu.last() == u.last());
    }
}

/// A text that starts with a non-whitespace character and has a part
/// starting with a non-whitespace character after `p` trims to `p` followed
/// by that part trimmed.
pub proof fn lemma_trim_after_prefix(p: Seq<char>, u: Seq<char>)
    requires
        p.len() > 0,
        !is_whitespace_spec(p[0]),
        u.len() > 0,
        !is_whitespace_spec(u[0]),
    ensures
        trim(p + u) == p + trim(u),
{
    lemma_trim_start_at(p + u, 0);
    assert((p + u).skip(0) =~= p + u);
    lemma_trim_start_at(u, 0);
    assert(u.skip(0) =~= u);
    lemma_trim_end_after_prefix(p, u);
}

/// Replacing in a text whose first part holds no character that starts
/// `pat` leaves that part as it is.
pub proof fn lemma_replace_after_prefix(p: Seq<char>, x: Seq<char>, pat: Seq<char>, rep: Seq<char>)
    requires
        pat.len() > 0,
        forall|m: int| 0 <= m < p.len() ==> #[trigger] p[m] != pat[0],
    ensures
        replace_all(p + x, pat, rep) == p + replace_all(x, pat, rep),
    decreases p.len(),
{
    if p.len() > 0 {
        let px = p + x;
        assert(px[0] == p[0]);
        if occurs_at(px, pat, 0) {
            assert(px.subrange(0, pat.len() as int)[0] == px[0]);
        }
        assert(px.skip(1) =~= p.skip(1) + x);
        assert forall|m: int| 0 <= m < p.skip(1).len() implies #[trigger] p.skip(1)[m] != pat[0] by {
            assert(p.skip(1)[m] == p[m + 1]);
        }
        lemma_replace_after_prefix(p.skip(1), x, pat, rep);
        assert(seq![px[0]] + (p.skip(1) + replace_all(x, pat, rep)) =~= p + replace_all(x, pat, rep));
    } else {
        assert(p + x =~= x);
        assert(p + replace_all(x, pat, rep) =~= replace_all(x, pat, rep));
    }
}

/// Replacing `pat` at the very start of a text removes it there first.
pub proof fn lemma_replace_at_start(x: Seq<char>, pat: Seq<char>, rep: Seq<char>)
    requires
        pat.len() > 0,
    ensures
        replace_all(pat + x, pat, rep) == rep + replace_all(x, pat, rep),
{
    let px = pat + x;
    assert(px.subrange(0, pat.len() as int) =~= pat);
    assert(px.skip(pat.len() as int) =~= x);
}

/// Occurrences in a suffix are occurrences in the whole, shifted.
pub proof fn lemma_occurs_skip(hay: Seq<char>, needle: Seq<char>, from: int, k: int)
    requires
        0 <= from <= hay.len(),
        0 <= k,
    ensures
        occurs_at(hay.skip(from), needle, k) <==> occurs_at(hay, needle, k + from),
{
    if k + needle.len() <= hay.len() - from {
        assert(hay.skip(from).subrange(k, k + needle.len()) =~= hay.subrange(
            k + from,
            k + from + needle.len(),
        ));
    }
}

/// The first position at or after `from` at which `needle` occurs in `hay`.
pub fn find_from(hay: &[char], needle: &[char], from: usize) -> (r: Option<usize>)
    requires
        from <= hay@.len(),
    ensures
        match r {
            Some(i) => from <= i && find(hay@.skip(from as int), needle@) == Some(i - from)
                && is_first_occurrence(hay@.skip(from as int), needle@, i - from)
                && i + needle@.len() <= hay@.len(),
            None => find(hay@.skip(from as int), needle@) is None,
        },
{
    let ghost t = hay@.skip(from as int);
    let mut i: usize = from;
    while i < hay.len()
        invariant
            from <= i <= hay@.len(),
            t == hay@.skip(from as int),
            forall|j: int| 0 <= j < i - from ==> !occurs_at(t, needle@, j),
        decreases hay.len() + 1 - i,
    {
        if matches_at(hay, needle, i) {
            proof {
                lemma_occurs_skip(hay@, needle@, from as int, i - from);
                lemma_find_at(t, needle@, i - from);
            }
            return Some(i);
        }
        proof {
            lemma_occurs_skip(hay@, needle@, from as int, i - from);
        }
        i = i + 1;
    }
    if matches_at(hay, needle, i) {
        proof {
            lemma_occurs_skip(hay@, needle@, from as int, i - from);
            lemma_find_at(t, needle@, i - from);
        }
        return Some(i);
    }
    proof {
        lemma_occurs_skip(hay@, needle@, from as int, i - from);
        assert forall|k: int| !is_first_occurrence(t, needle@, k) by {
            if k >= i - from && is_first_occurrence(t, needle@, k) {
                assert(k + needle@.len() <= t.len());
            }
        }
    }
    None
}

/// The last position of `c` in `s[from..]`, counted from `from`.
pub fn rfind_char_from(s: &[char], c: char, from: usize) -> (r: Option<usize>)
    requires
        from <= s@.len(),
    ensures
        match r {
            Some(i) => from <= i < s@.len() && rfind_char(s@.skip(from as int), c) == Some(i - from)
                && is_last_char(s@.skip(from as int), c, i - from),
            None => rfind_char(s@.skip(from as int), c) is None,
        },
{
    let ghost t = s@.skip(from as int);
    let mut i: usize = s.len();
    while i > from
        invariant
            from <= i <= s@.len(),
            t == s@.skip(from as int),
            forall|j: int| i <= j < s@.len() ==> s@[j] != c,
        decreases i,
    {
        if s[i - 1] == c {
            proof {
                let w = i - 1 - from;
                assert(is_last_char(t, c, w));
                let k = choose|k: int| is_last_char(t, c, k);
                assert(is_last_char(t, c, k));
                if k > w {
                    assert(t[k] == s@[k + from]);
                } else if k < w {
                    assert(t[w] == s@[w + from]);
                }
            }
            return Some(i - 1);
        }
        i = i - 1;
    }
    proof {
        assert forall|k: int| !is_last_char(t, c, k) by {
            if 0 <= k < t.len() {
                assert(t[k] == s@[k + from]);
            }
        }
    }
    None
}

/// `s[a..b]` as a vector.
pub fn slice_of(s: &[char], a: usize, b: usize) -> (r: Vec<char>)
    requires
        a <= b <= s@.len(),
    ensures
        r@ == s@.subrange(a as int, b as int),
{
    let mut r: Vec<char> = Vec::new();
    let mut k: usize = a;
    while k < b
        invariant
            a <= k <= b <= s@.len(),
            r@ =~= s@.subrange(a as int, k as int),
        decreases b - k,
    {
        r.push(s[k]);
        k = k + 1;
    }
    r
}

/// `line` without the carriage return that ends it, if any.
pub open spec fn strip_cr(line: Seq<char>) -> Seq<char> {
    if line.len() > 0 && line.last() == '\r' {
        line.drop_last()
    } else {
        line
    }
}

/// The views of a list of character vectors.
pub open spec fn views(v: Seq<Vec<char>>) -> Seq<Seq<char>> {
    Seq::new(v.len(), |i: int| v[i]@)
}

/// The lines of `s`, as `str::lines` gives them: split at each `\n`, with a
/// carriage return before the `\n` removed, and no empty last line after a
/// final `\n`.
pub open spec fn lines(s: Seq<char>) -> Seq<Seq<char>>
    decreases s.len(),
{
    if s.len() == 0 {
        Seq::empty()
    } else {
        match find(s, seq!['\n']) {
            None => seq![s],
            Some(k) => if 0 <= k < s.len() {
                seq![strip_cr(s.take(k))] + lines(s.skip(k + 1))
            } else {
                Seq::empty()
            },
        }
    }
}

/// The lines of `s`.
pub fn split_lines(s: &[char]) -> (r: Vec<Vec<char>>)
    ensures
        views(r@) == lines(s@),
{
    let mut out: Vec<Vec<char>> = Vec::new();
    let newline = vec!['\n'];
    let mut start: usize = 0;
    assert(s@.skip(0) =~= s@);
    while start < s.len()
        invariant
            start <= s@.len(),
            newline@ == seq!['\n'],
            lines(s@) =~= views(out@) + lines(s@.skip(start as int)),
        decreases s.len() - start,
    {
        let ghost t = s@.skip(start as int);
        let ghost before = views(out@);
        match find_from(s, &newline, start) {
            None => {
                out.push(slice_of(s, start, s.len()));
                assert(s@.subrange(start as int, s@.len() as int) =~= t);
                assert(views(out@) =~= before + seq![t]);
                assert(s@.skip(s@.len() as int) =~= Seq::<char>::empty());
                start = s.len();
            },
            Some(k) => {
                proof {
                    let m = choose|m: int| is_first_occurrence(t, seq!['\n'], m);
                    assert(is_first_occurrence(t, seq!['\n'], m));
                }
                let mut line = slice_of(s, start, k);
                if line.len() > 0 && line[line.len() - 1] == '\r' {
                    line.pop();
                }
                assert(t.take(k - start) =~= s@.subrange(start as int, k as int));
                assert(t.skip(k - start + 1) =~= s@.skip(k + 1));
                out.push(line);
                assert(views(out@) =~= before + seq![strip_cr(t.take(k - start))]);
                start = k + 1;
            },
        }
    }
    assert(s@.skip(start as int) =~= Seq::<char>::empty());
    out
}

/// Joining a first line to nonempty further lines puts one `\n` between.
proof fn lemma_join_prepend(a: Seq<char>, ls: Seq<Seq<char>>)
    requires
        ls.len() > 0,
    ensures
        join_lines(seq![a] + ls) == a + seq!['\n'] + join_lines(ls),
    decreases ls.len(),
{
    let all = seq![a] + ls;
    if ls.len() == 1 {
        assert(all.drop_last() =~= seq![a]);
        assert(all.last() == ls[0]);
        assert(join_lines(seq![a]) == a);
        assert(join_lines(ls) == ls[0]);
        assert(join_lines(all) == join_lines(all.drop_last()) + seq!['\n'] + all.last());
    } else {
        assert(all.drop_last() =~= seq![a] + ls.drop_last());
        assert(all.last() == ls.last());
        lemma_join_prepend(a, ls.drop_last());
        assert(join_lines(all) == join_lines(all.drop_last()) + seq!['\n'] + all.last());
        assert(join_lines(ls) == join_lines(ls.drop_last()) + seq!['\n'] + ls.last());
        assert(a + seq!['\n'] + join_lines(ls.drop_last()) + seq!['\n'] + ls.last() =~= a + seq!['\n']
            + (join_lines(ls.drop_last()) + seq!['\n'] + ls.last()));
    }
}

/// Splitting a text without carriage returns into lines and joining them
/// again with `\n` gives the text back, when it does not end with `\n`.
pub proof fn lemma_join_lines_of_lines(s: Seq<char>)
    requires
        forall|j: int| 0 <= j < s.len() ==> #[trigger] s[j] != '\r',
        s.len() > 0 ==> s.last() != '\n',
    ensures
        join_lines(lines(s)) == s,
    decreases s.len(),
{
    if s.len() > 0 {
        match find(s, seq!['\n']) {
            None => {},
            Some(k) => {
                let w = choose|w: int| is_first_occurrence(s, seq!['\n'], w);
                assert(is_first_occurrence(s, seq!['\n'], w));
                assert(s.subrange(k, k + 1)[0] == s[k]);
                let head = s.take(k);
                let tail = s.skip(k + 1);
                assert(k < s.len() - 1);
                if head.len() > 0 {
                    assert(head.last() == s[k - 1]);
                }
                assert(strip_cr(head) == head);
                assert forall|j: int| 0 <= j < tail.len() implies #[trigger] tail[j] != '\r' by {
                    assert(tail[j] == s[k + 1 + j]);
                }
                assert(tail.last() == s.last());
                lemma_join_lines_of_lines(tail);
                lemma_lines_nonempty(tail);
                lemma_join_prepend(head, lines(tail));
                assert(s =~= head + seq!['\n'] + tail);
            },
        }
    }
}

/// A nonempty text has at least one line.
proof fn lemma_lines_nonempty(s: Seq<char>)
    requires
        s.len() > 0,
    ensures
        lines(s).len() > 0,
{
    match find(s, seq!['\n']) {
        None => {},
        Some(k) => {
            let w = choose|w: int| is_first_occurrence(s, seq!['\n'], w);
            assert(is_first_occurrence(s, seq!['\n'], w));
        },
    }
}

/// No line holds a `\n`.
pub proof fn lemma_lines_have_no_newline(s: Seq<char>, i: int, j: int)
    requires
        0 <= i < lines(s).len(),
        0 <= j < lines(s)[i].len(),
    ensures
        lines(s)[i][j] != '\n',
    decreases s.len(),
{
    match find(s, seq!['\n']) {
        None => {
            assert(!exists|w: int| is_first_occurrence(s, seq!['\n'], w));
            assert(lines(s)[i] == s);
            if s[j] == '\n' {
                lemma_first_occurrence_exists(s, j);
            }
        },
        Some(k) => {
            let w = choose|w: int| is_first_occurrence(s, seq!['\n'], w);
            assert(is_first_occurrence(s, seq!['\n'], w));
            let head = strip_cr(s.take(k));
            let tail = s.skip(k + 1);
            if i == 0 {
                assert(lines(s)[0] == head);
                assert(head[j] == s[j]);
                if s[j] == '\n' {
                    assert(s.subrange(j, j + 1) =~= seq!['\n']);
                    assert(occurs_at(s, seq!['\n'], j));
                }
            } else {
                assert(lines(s)[i] == lines(tail)[i - 1]);
                lemma_lines_have_no_newline(tail, i - 1, j);
            }
        },
    }
}

/// Where a character occurs, a first occurrence of it exists.
proof fn lemma_first_occurrence_exists(s: Seq<char>, j: int)
    requires
        0 <= j < s.len(),
        s[j] == '\n',
    ensures
        exists|w: int| is_first_occurrence(s, seq!['\n'], w),
    decreases j,
{
    assert(s.subrange(j, j + 1) =~= seq!['\n']);
    if exists|m: int| 0 <= m < j && occurs_at(s, seq!['\n'], m) {
        let m = choose|m: int| 0 <= m < j && occurs_at(s, seq!['\n'], m);
        assert(s.subrange(m, m + 1)[0] == s[m]);
        lemma_first_occurrence_exists(s, m);
    } else {
        assert(is_first_occurrence(s, seq!['\n'], j));
    }
}

/// The lines `ls` joined by `\n`.
pub open spec fn join_lines(ls: Seq<Seq<char>>) -> Seq<char>
    decreases ls.len(),
{
    if ls.len() == 0 {
        Seq::empty()
    } else if ls.len() == 1 {
        ls[0]
    } else {
        join_lines(ls.drop_last()) + seq!['\n'] + ls.last()
    }
}

/// The lines `ls` joined by `\n`.
pub fn joined(ls: &Vec<Vec<char>>) -> (r: Vec<char>)
    ensures
        r@ == join_lines(views(ls@)),
{
    let mut r: Vec<char> = Vec::new();
    let mut i: usize = 0;
    while i < ls.len()
        invariant
            i <= ls@.len(),
            r@ == join_lines(views(ls@).take(i as int)),
        decreases ls.len() - i,
    {
        if i > 0 {
            r.push('\n');
        }
        let mut k: usize = 0;
        let ghost mid = r@;
        while k < ls[i].len()
            invariant
                i < ls@.len(),
                k <= ls@[i as int]@.len(),
                r@ =~= mid + ls@[i as int]@.take(k as int),
            decreases ls@[i as int]@.len() - k,
        {
            r.push(ls[i][k]);
            k = k + 1;
        }
        assert(ls@[i as int]@.take(ls@[i as int]@.len() as int) =~= ls@[i as int]@);
        assert(views(ls@).take(i + 1).drop_last() =~= views(ls@).take(i as int));
        i = i + 1;
    }
    assert(views(ls@).take(ls@.len() as int) =~= views(ls@));
    r
}

} // verus!
