//! Character-level string model shared by every parser in the crate.

use vstd::prelude::*;

verus! {

/// `String::push` appends the character: afterwards the text is the text
/// before with `ch` at its end.
pub assume_specification[ String::push ](s: &mut String, ch: char)
    ensures
        final(s)@ == old(s)@.push(ch),
;

/// Unicode `White_Space` property, the set that `char::is_whitespace` uses.
pub open spec fn is_ws(c: char) -> bool {
    let u = c as u32;
    ||| 0x9 <= u <= 0xd
    ||| u == 0x20
    ||| u == 0x85
    ||| u == 0xa0
    ||| u == 0x1680
    ||| 0x2000 <= u <= 0x200a
    ||| u == 0x2028
    ||| u == 0x2029
    ||| u == 0x202f
    ||| u == 0x205f
    ||| u == 0x3000
}

pub fn is_whitespace(c: char) -> (b: bool)
    ensures
        b == is_ws(c),
{
    let u = c as u32;
    (0x9 <= u && u <= 0xd) || u == 0x20 || u == 0x85 || u == 0xa0 || u == 0x1680 || (0x2000
        <= u && u <= 0x200a) || u == 0x2028 || u == 0x2029 || u == 0x202f || u == 0x205f || u
        == 0x3000
}

/// The characters of a string slice, in order.
pub fn chars_of(s: &str) -> (v: Vec<char>)
    ensures
        v@ == s@,
{
    let mut v: Vec<char> = Vec::new();
    for c in it: s.chars()
        invariant
            v@ == it.seq().take(it.index()),
    {
        v.push(c);
    }
    v
}


/// Position of the first `c` in `s`, or -1.
pub open spec fn first_index(s: Seq<char>, c: char) -> int
    decreases s.len(),
{
    if s.len() == 0 {
        -1
    } else if s[0] == c {
        0
    } else {
        let r = first_index(s.drop_first(), c);
        if r < 0 {
            -1
        } else {
            r + 1
        }
    }
}

pub proof fn lemma_first_index(s: Seq<char>, c: char)
    ensures
        -1 <= first_index(s, c) < s.len(),
        first_index(s, c) >= 0 ==> s[first_index(s, c)] == c,
        forall|j: int| 0 <= j < s.len() && (first_index(s, c) < 0 || j < first_index(s, c)) ==> s[j] != c,
    decreases s.len(),
{
    if s.len() > 0 && s[0] != c {
        lemma_first_index(s.drop_first(), c);
        assert forall|j: int| 0 <= j < s.len() && (first_index(s, c) < 0 || j < first_index(s, c)) implies s[j] != c by {
            if j > 0 {
                assert(s[j] == s.drop_first()[j - 1]);
            }
        }
    }
}

/// `first_index` is determined by where `c` first occurs.
pub proof fn lemma_first_index_at(s: Seq<char>, c: char, i: int)
    requires
        -1 <= i < s.len(),
        i >= 0 ==> s[i] == c,
        forall|j: int| 0 <= j < s.len() && (i < 0 || j < i) ==> s[j] != c,
    ensures
        first_index(s, c) == i,
{
    lemma_first_index(s, c);
    let r = first_index(s, c);
    if r >= 0 && (i < 0 || r < i) {
        assert(s[r] != c);
    }
    if i >= 0 && (r < 0 || i < r) {
        assert(s[i] != c);
    }
}

/// A line without its terminating `\r`, as `str::lines` strips it before `\n`.
pub open spec fn strip_cr(s: Seq<char>) -> Seq<char> {
    if s.len() > 0 && s.last() == '\r' {
        s.drop_last()
    } else {
        s
    }
}

/// The lines of a text, as `str::lines` yields them: split at `\n`, a `\r`
/// directly before the `\n` dropped, and no empty line after a final `\n`.
pub open spec fn lines(s: Seq<char>) -> Seq<Seq<char>>
    decreases s.len(),
{
    if s.len() == 0 {
        seq![]
    } else {
        let i = first_index(s, '\n');
        if i < 0 {
            seq![s]
        } else {
            proof {
                lemma_first_index(s, '\n');
            }
            seq![strip_cr(s.take(i))] + lines(s.skip(i + 1))
        }
    }
}

/// Leading whitespace removed.
pub open spec fn trim_start(s: Seq<char>) -> Seq<char>
    decreases s.len(),
{
    if s.len() > 0 && is_ws(s[0]) {
        trim_start(s.drop_first())
    } else {
        s
    }
}

/// Trailing whitespace removed.
pub open spec fn trim_end(s: Seq<char>) -> Seq<char>
    decreases s.len(),
{
    if s.len() > 0 && is_ws(s.last()) {
        trim_end(s.drop_last())
    } else {
        s
    }
}

/// Whitespace removed at both ends, as `str::trim`.
pub open spec fn trim(s: Seq<char>) -> Seq<char> {
    trim_end(trim_start(s))
}

pub open spec fn starts_with(s: Seq<char>, p: Seq<char>) -> bool {
    p.len() <= s.len() && s.take(p.len() as int) == p
}

pub open spec fn ends_with(s: Seq<char>, p: Seq<char>) -> bool {
    p.len() <= s.len() && s.skip(s.len() - p.len()) == p
}

/// `p` occurs somewhere in `s`, as `str::contains` with a string pattern.
pub open spec fn contains(s: Seq<char>, p: Seq<char>) -> bool {
    exists|i: int| 0 <= i && i + p.len() <= s.len() && #[trigger] s.subrange(i, i + p.len()) == p
}

/// The text before and after the first `c`, as `str::split_once` with a char.
pub open spec fn split_once(s: Seq<char>, c: char) -> Option<(Seq<char>, Seq<char>)> {
    let i = first_index(s, c);
    if i < 0 {
        None
    } else {
        Some((s.take(i), s.skip(i + 1)))
    }
}

/// A `String` holding exactly the given characters.
pub fn string_of(v: &[char]) -> (s: String)
    ensures
        s@ == v@,
{
    let mut s = String::new();
    let mut i: usize = 0;
    while i < v.len()
        invariant
            i <= v@.len(),
            s@ == v@.take(i as int),
        decreases v.len() - i,
    {
        s.push(v[i]);
        assert(v@.take(i as int).push(v@[i as int]) =~= v@.take(i + 1));
        i += 1;
    }
    assert(v@.take(v@.len() as int) =~= v@);
    s
}

/// The characters `v[lo..hi]` as a `String`.
pub fn string_of_range(v: &Vec<char>, lo: usize, hi: usize) -> (s: String)
    requires
        lo <= hi <= v@.len(),
    ensures
        s@ == v@.subrange(lo as int, hi as int),
{
    let mut s = String::new();
    let mut i: usize = lo;
    while i < hi
        invariant
            lo <= i <= hi <= v@.len(),
            s@ == v@.subrange(lo as int, i as int),
        decreases hi - i,
    {
        s.push(v[i]);
        assert(v@.subrange(lo as int, i as int).push(v@[i as int]) =~= v@.subrange(lo as int, i + 1));
        i += 1;
    }
    s
}

/// Appends the characters `v[lo..hi]` to `out`.
pub fn push_range(out: &mut String, v: &Vec<char>, lo: usize, hi: usize)
    requires
        lo <= hi <= v@.len(),
    ensures
        final(out)@ == old(out)@ + v@.subrange(lo as int, hi as int),
{
    let ghost start = out@;
    let mut i: usize = lo;
    while i < hi
        invariant
            lo <= i <= hi <= v@.len(),
            out@ == start + v@.subrange(lo as int, i as int),
        decreases hi - i,
    {
        out.push(v[i]);
        assert(start + v@.subrange(lo as int, i as int).push(v@[i as int]) =~= start + v@.subrange(lo as int, i + 1));
        i += 1;
    }
}

/// Appends a string slice to `out`.
pub fn push_str(out: &mut String, t: &str)
    ensures
        final(out)@ == old(out)@ + t@,
{
    let v = chars_of(t);
    push_range(out, &v, 0, v.len());
    assert(v@.subrange(0, v@.len() as int) =~= v@);
}

/// Index of the first `c` in `v[lo..hi]`, or `hi` when there is none.
pub fn find_char(v: &Vec<char>, lo: usize, hi: usize, c: char) -> (p: usize)
    requires
        lo <= hi <= v@.len(),
    ensures
        lo <= p <= hi,
        p < hi ==> v@[p as int] == c,
        forall|j: int| lo <= j < p ==> v@[j] != c,
        first_index(v@.subrange(lo as int, hi as int), c) == (if p < hi { p - lo } else { -1 }),
{
    let mut i: usize = lo;
    while i < hi
        invariant
            lo <= i <= hi <= v@.len(),
            forall|j: int| lo <= j < i ==> v@[j] != c,
        decreases hi - i,
    {
        if v[i] == c {
            proof {
                lemma_first_index_at(v@.subrange(lo as int, hi as int), c, i - lo);
            }
            return i;
        }
        i += 1;
    }
    proof {
        lemma_first_index_at(v@.subrange(lo as int, hi as int), c, -1);
    }
    hi
}

/// The next line of `v` starting at `start`: its content is `v[start..r.0]`
/// and the following line starts at `r.1`.
pub fn next_line(v: &Vec<char>, start: usize) -> (r: (usize, usize))
    requires
        start < v@.len(),
    ensures
        start <= r.0 <= r.1 <= v@.len(),
        start < r.1,
        lines(v@.skip(start as int)) == seq![v@.subrange(start as int, r.0 as int)] + lines(
            v@.skip(r.1 as int),
        ),
{
    let n = v.len();
    let p = find_char(v, start, n, '\n');
    let ghost s = v@.skip(start as int);
    assert(s =~= v@.subrange(start as int, n as int));
    if p == n {
        assert(v@.skip(n as int) =~= Seq::<char>::empty());
        assert(lines(v@.skip(n as int)) == Seq::<Seq<char>>::empty());
        assert(s =~= v@.subrange(start as int, n as int));
        assert(seq![v@.subrange(start as int, n as int)] + Seq::<Seq<char>>::empty() =~= seq![s]);
        (n, n)
    } else {
        let e = if p > start && v[p - 1] == '\r' { p - 1 } else { p };
        assert(s.take(p - start) =~= v@.subrange(start as int, p as int));
        assert(s.skip(p - start + 1) =~= v@.skip(p + 1));
        assert(strip_cr(s.take(p - start)) =~= v@.subrange(start as int, e as int));
        (e, p + 1)
    }
}


/// Bounds of `trim_start(v[lo..hi])`.
pub fn trim_start_range(v: &Vec<char>, lo: usize, hi: usize) -> (r: usize)
    requires
        lo <= hi <= v@.len(),
    ensures
        lo <= r <= hi,
        v@.subrange(r as int, hi as int) == trim_start(v@.subrange(lo as int, hi as int)),
{
    let mut i = lo;
    while i < hi && is_whitespace(v[i])
        invariant
            lo <= i <= hi <= v@.len(),
            trim_start(v@.subrange(lo as int, hi as int)) == trim_start(v@.subrange(i as int, hi as int)),
        decreases hi - i,
    {
        assert(v@.subrange(i as int, hi as int).drop_first() =~= v@.subrange(i + 1, hi as int));
        i += 1;
    }
    i
}

/// Bounds of `trim_end(v[lo..hi])`.
pub fn trim_end_range(v: &Vec<char>, lo: usize, hi: usize) -> (r: usize)
    requires
        lo <= hi <= v@.len(),
    ensures
        lo <= r <= hi,
        v@.subrange(lo as int, r as int) == trim_end(v@.subrange(lo as int, hi as int)),
{
    let mut j = hi;
    while j > lo && is_whitespace(v[j - 1])
        invariant
            lo <= j <= hi <= v@.len(),
            trim_end(v@.subrange(lo as int, hi as int)) == trim_end(v@.subrange(lo as int, j as int)),
        decreases j - lo,
    {
        assert(v@.subrange(lo as int, j as int).drop_last() =~= v@.subrange(lo as int, j - 1));
        j -= 1;
    }
    j
}

/// Bounds of `trim(v[lo..hi])`.
pub fn trim_range(v: &Vec<char>, lo: usize, hi: usize) -> (r: (usize, usize))
    requires
        lo <= hi <= v@.len(),
    ensures
        lo <= r.0 <= r.1 <= hi,
        v@.subrange(r.0 as int, r.1 as int) == trim(v@.subrange(lo as int, hi as int)),
{
    let a = trim_start_range(v, lo, hi);
    let b = trim_end_range(v, a, hi);
    (a, b)
}

/// Whether `v[lo..hi]` equals `p`.
pub fn range_eq(v: &Vec<char>, lo: usize, hi: usize, p: &Vec<char>) -> (b: bool)
    requires
        lo <= hi <= v@.len(),
    ensures
        b == (v@.subrange(lo as int, hi as int) == p@),
{
    if hi - lo != p.len() {
        return false;
    }
    let mut k: usize = 0;
    while k < p.len()
        invariant
            lo <= hi <= v@.len(),
            hi - lo == p@.len(),
            k <= p@.len(),
            forall|j: int| 0 <= j < k ==> v@[lo + j] == p@[j],
        decreases p.len() - k,
    {
        if v[lo + k] != p[k] {
            assert(v@.subrange(lo as int, hi as int)[k as int] != p@[k as int]);
            return false;
        }
        k += 1;
    }
    assert(v@.subrange(lo as int, hi as int) =~= p@);
    true
}

/// Whether `v[lo..hi]` starts with `p`.
pub fn range_starts_with(v: &Vec<char>, lo: usize, hi: usize, p: &Vec<char>) -> (b: bool)
    requires
        lo <= hi <= v@.len(),
    ensures
        b == starts_with(v@.subrange(lo as int, hi as int), p@),
{
    if p.len() > hi - lo {
        return false;
    }
    let r = range_eq(v, lo, lo + p.len(), p);
    assert(v@.subrange(lo as int, hi as int).take(p@.len() as int) =~= v@.subrange(lo as int, lo + p@.len()));
    r
}

/// Whether `v[lo..hi]` ends with `p`.
pub fn range_ends_with(v: &Vec<char>, lo: usize, hi: usize, p: &Vec<char>) -> (b: bool)
    requires
        lo <= hi <= v@.len(),
    ensures
        b == ends_with(v@.subrange(lo as int, hi as int), p@),
{
    if p.len() > hi - lo {
        return false;
    }
    let r = range_eq(v, hi - p.len(), hi, p);
    assert(v@.subrange(lo as int, hi as int).skip(hi - lo - p@.len()) =~= v@.subrange(hi - p@.len(), hi as int));
    r
}

/// Whether `p` occurs in `v[lo..hi]`.
pub fn range_contains(v: &Vec<char>, lo: usize, hi: usize, p: &Vec<char>) -> (b: bool)
    requires
        lo <= hi <= v@.len(),
    ensures
        b == contains(v@.subrange(lo as int, hi as int), p@),
{
    let ghost s = v@.subrange(lo as int, hi as int);
    if p.len() > hi - lo {
        assert forall|i: int| 0 <= i && i + p@.len() <= s.len() implies #[trigger] s.subrange(i, i + p@.len()) != p@ by {}
        return false;
    }
    let last = hi - p.len();
    let mut i: usize = lo;
    loop
        invariant
            lo <= i <= last,
            last + p@.len() == hi,
            hi <= v@.len(),
            s == v@.subrange(lo as int, hi as int),
            forall|k: int| 0 <= k < i - lo ==> #[trigger] s.subrange(k, k + p@.len()) != p@,
        decreases last - i,
    {
        let m = range_eq(v, i, i + p.len(), p);
        assert(s.subrange(i - lo, i - lo + p@.len()) =~= v@.subrange(i as int, i + p@.len()));
        if m {
            return true;
        }
        if i == last {
            return false;
        }
        i += 1;
    }
}

/// Whether `p` occurs in `t`.
pub fn str_contains(t: &str, p: &str) -> (b: bool)
    ensures
        b == contains(t@, p@),
{
    let v = chars_of(t);
    let pv = chars_of(p);
    assert(v@.subrange(0, v@.len() as int) =~= v@);
    range_contains(&v, 0, v.len(), &pv)
}

/// Whether `t` starts with `p`.
pub fn str_starts_with(t: &str, p: &str) -> (b: bool)
    ensures
        b == starts_with(t@, p@),
{
    let v = chars_of(t);
    let pv = chars_of(p);
    assert(v@.subrange(0, v@.len() as int) =~= v@);
    range_starts_with(&v, 0, v.len(), &pv)
}

/// The text with every `'` written as `'\''`, so that it can stand inside
/// single quotes in a POSIX shell.
pub open spec fn shell_escape(s: Seq<char>) -> Seq<char>
    decreases s.len(),
{
    if s.len() == 0 {
        seq![]
    } else if s.last() == '\'' {
        shell_escape(s.drop_last()) + seq!['\'', '\\', '\'', '\'']
    } else {
        shell_escape(s.drop_last()).push(s.last())
    }
}

/// `s` single-quoted for a POSIX shell.
pub open spec fn spec_shell_quote(s: Seq<char>) -> Seq<char> {
    seq!['\''] + shell_escape(s) + seq!['\'']
}

/// Single-quotes a value for safe inclusion in a shell command line.
pub fn shell_quote(s: &str) -> (r: String)
    ensures
        r@ == spec_shell_quote(s@),
{
    let v = chars_of(s);
    let mut out = String::new();
    out.push('\'');
    let mut i: usize = 0;
    while i < v.len()
        invariant
            i <= v@.len(),
            v@ == s@,
            out@ == seq!['\''] + shell_escape(v@.take(i as int)),
        decreases v.len() - i,
    {
        let c = v[i];
        assert(v@.take(i + 1).drop_last() =~= v@.take(i as int));
        if c == '\'' {
            out.push('\'');
            out.push('\\');
            out.push('\'');
            out.push('\'');
            assert(out@ =~= seq!['\''] + shell_escape(v@.take(i + 1)));
        } else {
            out.push(c);
            assert(out@ =~= seq!['\''] + shell_escape(v@.take(i + 1)));
        }
        i += 1;
    }
    out.push('\'');
    assert(v@.take(v@.len() as int) =~= v@);
    out
}

/// The pieces joined with `sep` between neighbours, as `[T]::join`.
pub open spec fn join(ls: Seq<Seq<char>>, sep: Seq<char>) -> Seq<char>
    decreases ls.len(),
{
    if ls.len() == 0 {
        seq![]
    } else if ls.len() == 1 {
        ls[0]
    } else {
        join(ls.drop_last(), sep) + sep + ls.last()
    }
}


/// What `str::to_uppercase` returns for a text: its Unicode uppercase mapping.
pub uninterp spec fn str_to_uppercase(s: Seq<char>) -> Seq<char>;

/// What `str::to_lowercase` returns for a text: its Unicode lowercase mapping.
pub uninterp spec fn str_to_lowercase(s: Seq<char>) -> Seq<char>;

/// Whether every character of a text is ASCII.
pub open spec fn all_ascii(s: Seq<char>) -> bool {
    forall|i: int| 0 <= i < s.len() ==> (#[trigger] s[i] as u32) < 128
}

/// The ASCII uppercase of a character, as `char::to_ascii_uppercase`.
pub open spec fn ascii_upper(c: char) -> char {
    if 'a' <= c && c <= 'z' {
        ((c as u32) - 32) as char
    } else {
        c
    }
}

/// Calls `str::to_uppercase`; the result is named. Its documentation maps
/// by the Unicode uppercase property, which on ASCII text is the ASCII
/// mapping: that much is stated.
#[verifier::external_body]
pub(crate) fn to_uppercase(s: &str) -> (r: String)
    ensures
        r@ == str_to_uppercase(s@),
        all_ascii(s@) ==> r@ == s@.map_values(|c: char| ascii_upper(c)),
{
    s.to_uppercase()
}

/// Calls `str::to_lowercase`; the result is named. Its documentation maps
/// by the Unicode lowercase property, which on ASCII text is the ASCII
/// mapping: that much is stated.
#[verifier::external_body]
pub(crate) fn to_lowercase(s: &str) -> (r: String)
    ensures
        r@ == str_to_lowercase(s@),
        all_ascii(s@) ==> r@ == ascii_lower_str(s@),
{
    s.to_lowercase()
}


/// Whether the characters end with `c`.
pub fn ends_with_char(v: &Vec<char>, c: char) -> (b: bool)
    ensures
        b == ends_with(v@, seq![c]),
{
    if v.len() == 0 {
        return false;
    }
    let last = v[v.len() - 1];
    let ghost t = v@.skip(v@.len() - 1);
    assert(t.len() == 1 && t[0] == last);
    if last == c {
        assert(t =~= seq![c]);
        true
    } else {
        assert(t[0] != seq![c][0]);
        false
    }
}


/// No `c` anywhere in `s`.
pub open spec fn no_char(s: Seq<char>, c: char) -> bool {
    forall|j: int| 0 <= j < s.len() ==> s[j] != c
}

pub proof fn lemma_lines_cons(a: Seq<char>, b: Seq<char>)
    requires
        no_char(a, '\n'),
    ensures
        lines(a + seq!['\n'] + b) == seq![strip_cr(a)] + lines(b),
{
    let s = a + seq!['\n'] + b;
    assert(s[a.len() as int] == '\n');
    assert forall|j: int| 0 <= j < s.len() && j < a.len() implies s[j] != '\n' by {
        assert(s[j] == a[j]);
    }
    lemma_first_index_at(s, '\n', a.len() as int);
    assert(s.take(a.len() as int) =~= a);
    assert(s.skip(a.len() as int + 1) =~= b);
}

pub proof fn lemma_lines_single(a: Seq<char>)
    requires
        no_char(a, '\n'),
        a.len() > 0,
    ensures
        lines(a) == seq![a],
{
    lemma_first_index_at(a, '\n', -1);
}

pub proof fn lemma_join_front(ls: Seq<Seq<char>>, sep: Seq<char>)
    requires
        ls.len() >= 2,
    ensures
        join(ls, sep) == ls[0] + sep + join(ls.drop_first(), sep),
    decreases ls.len(),
{
    if ls.len() == 2 {
        assert(ls.drop_last() =~= seq![ls[0]]);
        assert(ls.drop_first() =~= seq![ls[1]]);
        assert(join(ls, sep) == join(ls.drop_last(), sep) + sep + ls.last());
        assert(join(ls.drop_first(), sep) == ls[1]);
    } else {
        lemma_join_front(ls.drop_last(), sep);
        assert(ls.drop_last().drop_first() =~= ls.drop_first().drop_last());
        assert(ls.drop_first().last() == ls.last());
        assert(ls.drop_last()[0] == ls[0]);
        assert(join(ls.drop_first(), sep) == join(ls.drop_first().drop_last(), sep) + sep + ls.last());
        assert(join(ls, sep) == join(ls.drop_last(), sep) + sep + ls.last());
        assert(ls[0] + sep + join(ls.drop_first().drop_last(), sep) + sep + ls.last() =~= ls[0] + sep + (
        join(ls.drop_first().drop_last(), sep) + sep + ls.last()));
    }
}

/// Joining lines with newlines and ending with one, then splitting the text
/// into lines again, gives the lines back (less a `\r` before each newline).
pub proof fn lemma_lines_join_newline(ls: Seq<Seq<char>>)
    requires
        ls.len() >= 1,
        forall|i: int| 0 <= i < ls.len() ==> no_char(#[trigger] ls[i], '\n'),
    ensures
        lines(join(ls, seq!['\n']) + seq!['\n']) == ls.map_values(|l: Seq<char>| strip_cr(l)),
    decreases ls.len(),
{
    if ls.len() == 1 {
        lemma_lines_cons(ls[0], seq![]);
        assert(ls[0] + seq!['\n'] + Seq::<char>::empty() =~= ls[0] + seq!['\n']);
        assert(lines(Seq::<char>::empty()) == Seq::<Seq<char>>::empty());
        assert(ls.map_values(|l: Seq<char>| strip_cr(l)) =~= seq![strip_cr(ls[0])]);
        assert(seq![strip_cr(ls[0])] + Seq::<Seq<char>>::empty() =~= seq![strip_cr(ls[0])]);
    } else {
        let rest = ls.drop_first();
        lemma_join_front(ls, seq!['\n']);
        lemma_lines_join_newline(rest);
        assert(no_char(ls[0], '\n'));
        lemma_lines_cons(ls[0], join(rest, seq!['\n']) + seq!['\n']);
        assert(join(ls, seq!['\n']) + seq!['\n'] =~= ls[0] + seq!['\n'] + (join(rest, seq!['\n']) + seq!['\n']));
        assert(ls.map_values(|l: Seq<char>| strip_cr(l)) =~= seq![strip_cr(ls[0])] + rest.map_values(|l: Seq<char>| strip_cr(l)));
    }
}

/// Joining lines with newlines, the last one non-empty, and splitting again
/// gives the lines back (less a `\r` before each newline).
pub proof fn lemma_lines_join(ls: Seq<Seq<char>>)
    requires
        ls.len() >= 1,
        ls.last().len() > 0,
        forall|i: int| 0 <= i < ls.len() ==> no_char(#[trigger] ls[i], '\n'),
    ensures
        lines(join(ls, seq!['\n'])) == ls.drop_last().map_values(|l: Seq<char>| strip_cr(l)).push(ls.last()),
    decreases ls.len(),
{
    if ls.len() == 1 {
        lemma_lines_single(ls[0]);
        assert(ls.drop_last().map_values(|l: Seq<char>| strip_cr(l)).push(ls.last()) =~= seq![ls[0]]);
    } else {
        let rest = ls.drop_first();
        lemma_join_front(ls, seq!['\n']);
        lemma_lines_join(rest);
        assert(no_char(ls[0], '\n'));
        lemma_lines_cons(ls[0], join(rest, seq!['\n']));
        assert(ls.drop_last().map_values(|l: Seq<char>| strip_cr(l)).push(ls.last()) =~= seq![strip_cr(ls[0])] + rest.drop_last().map_values(|l: Seq<char>| strip_cr(l)).push(rest.last()));
    }
}

/// No line contains a newline.
pub proof fn lemma_lines_no_newline(s: Seq<char>)
    ensures
        forall|i: int| 0 <= i < lines(s).len() ==> no_char(#[trigger] lines(s)[i], '\n'),
    decreases s.len(),
{
    if s.len() > 0 {
        lemma_first_index(s, '\n');
        let i = first_index(s, '\n');
        if i >= 0 {
            lemma_lines_no_newline(s.skip(i + 1));
            let x = strip_cr(s.take(i));
            assert(no_char(x, '\n'));
            assert forall|j: int| 0 <= j < lines(s).len() implies no_char(#[trigger] lines(s)[j], '\n') by {
                if j > 0 {
                    assert(lines(s)[j] == lines(s.skip(i + 1))[j - 1]);
                }
            }
        }
    }
}

/// A text has lines exactly when it is non-empty, and when it does not end
/// with a newline its last line is not empty.
pub proof fn lemma_lines_last(s: Seq<char>)
    ensures
        lines(s).len() > 0 <==> s.len() > 0,
        s.len() > 0 && !ends_with(s, seq!['\n']) ==> lines(s).last().len() > 0,
    decreases s.len(),
{
    if s.len() > 0 {
        lemma_first_index(s, '\n');
        let i = first_index(s, '\n');
        if i >= 0 {
            let rest = s.skip(i + 1);
            lemma_lines_last(rest);
            if !ends_with(s, seq!['\n']) {
                if rest.len() == 0 {
                    assert(s.skip(s.len() - 1) =~= seq!['\n']);
                } else {
                    assert(rest.skip(rest.len() - 1) =~= s.skip(s.len() - 1));
                    assert(lines(s).last() == lines(rest).last());
                }
            }
        }
    }
}

/// Removing whitespace at the end does not reach past a non-whitespace prefix end.
pub proof fn lemma_trim_end_append(a: Seq<char>, b: Seq<char>)
    requires
        a.len() > 0,
        !is_ws(a.last()),
    ensures
        trim_end(a + b) == a + trim_end(b),
    decreases b.len(),
{
    if b.len() == 0 {
        assert(a + b =~= a);
        assert(a + trim_end(b) =~= a);
    } else if is_ws(b.last()) {
        assert((a + b).drop_last() =~= a + b.drop_last());
        lemma_trim_end_append(a, b.drop_last());
    } else {
        assert((a + b).last() == b.last());
    }
}

/// A `\r` before the end is whitespace, so trimming the end removes it anyway.
pub proof fn lemma_trim_end_strip_cr(l: Seq<char>)
    ensures
        trim_end(strip_cr(l)) == trim_end(l),
{
    assert(is_ws('\r'));
}


/// Position of the last `c` in `s`, or -1.
pub open spec fn last_index(s: Seq<char>, c: char) -> int
    decreases s.len(),
{
    if s.len() == 0 {
        -1
    } else if s.last() == c {
        s.len() - 1
    } else {
        last_index(s.drop_last(), c)
    }
}

pub proof fn lemma_last_index(s: Seq<char>, c: char)
    ensures
        -1 <= last_index(s, c) < s.len(),
        last_index(s, c) >= 0 ==> s[last_index(s, c)] == c,
        forall|j: int| last_index(s, c) < j < s.len() ==> s[j] != c,
    decreases s.len(),
{
    if s.len() > 0 && s.last() != c {
        lemma_last_index(s.drop_last(), c);
        assert forall|j: int| last_index(s, c) < j < s.len() implies s[j] != c by {
            if j < s.len() - 1 {
                assert(s[j] == s.drop_last()[j]);
            }
        }
    }
}

/// Index of the last `c` in `v[lo..hi]`, or -1 relative to `lo` when there is none.
pub fn rfind_char(v: &Vec<char>, lo: usize, hi: usize, c: char) -> (r: Option<usize>)
    requires
        lo <= hi <= v@.len(),
    ensures
        match r {
            Some(p) => lo <= p < hi && last_index(v@.subrange(lo as int, hi as int), c) == p - lo,
            None => last_index(v@.subrange(lo as int, hi as int), c) == -1,
        },
{
    let mut j = hi;
    while j > lo
        invariant
            lo <= j <= hi <= v@.len(),
            last_index(v@.subrange(lo as int, hi as int), c) == last_index(v@.subrange(lo as int, j as int), c),
        decreases j - lo,
    {
        let ghost t = v@.subrange(lo as int, j as int);
        assert(t.last() == v@[j - 1]);
        if v[j - 1] == c {
            return Some(j - 1);
        }
        assert(t.drop_last() =~= v@.subrange(lo as int, j - 1));
        j -= 1;
    }
    None
}

/// The last component of a path, as `Path::file_name` gives it: trailing
/// slashes and `.` components are skipped, and a path that ends in `..` or
/// has no normal component has none.
pub open spec fn path_file_name(p: Seq<char>) -> Option<Seq<char>>
    decreases p.len(),
{
    if p.len() == 0 {
        None
    } else if p.last() == '/' {
        path_file_name(p.drop_last())
    } else {
        let i = last_index(p, '/');
        let comp = p.skip(i + 1);
        if comp == seq!['.'] {
            if i < 0 {
                None
            } else {
                proof {
                    lemma_last_index(p, '/');
                }
                path_file_name(p.take(i))
            }
        } else if comp == seq!['.', '.'] {
            None
        } else {
            Some(comp)
        }
    }
}

/// The last component of a path (see [`path_file_name`]).
pub fn file_name(path: &str) -> (r: Option<String>)
    ensures
        match r {
            Some(n) => path_file_name(path@) == Some(n@),
            None => path_file_name(path@) is None,
        },
{
    let v = chars_of(path);
    let mut hi = v.len();
    assert(v@.take(hi as int) =~= v@);
    loop
        invariant
            hi <= v@.len(),
            v@ == path@,
            path_file_name(path@) == path_file_name(v@.take(hi as int)),
        decreases hi,
    {
        let ghost p = v@.take(hi as int);
        if hi == 0 {
            return None;
        }
        assert(p.last() == v@[hi - 1]);
        if v[hi - 1] == '/' {
            assert(p.drop_last() =~= v@.take(hi - 1));
            hi -= 1;
        } else {
            assert(v@.subrange(0, hi as int) =~= p);
            let i = rfind_char(&v, 0, hi, '/');
            let start = match i {
                Some(k) => k + 1,
                None => 0,
            };
            assert(p.skip(last_index(p, '/') + 1) =~= v@.subrange(start as int, hi as int));
            let n = hi - start;
            if n == 1 && v[start] == '.' {
                assert(v@.subrange(start as int, hi as int) =~= seq!['.']);
                match i {
                    None => {
                        return None;
                    },
                    Some(k) => {
                        assert(p.take(k as int) =~= v@.take(k as int));
                        hi = k;
                    },
                }
            } else if n == 2 && v[start] == '.' && v[start + 1] == '.' {
                assert(v@.subrange(start as int, hi as int) =~= seq!['.', '.']);
                return None;
            } else {
                proof {
                    if n == 1 {
                        assert(v@.subrange(start as int, hi as int)[0] != seq!['.'][0]);
                    }
                    if n == 2 {
                        assert(v@.subrange(start as int, hi as int)[0] != seq!['.', '.'][0]
                            || v@.subrange(start as int, hi as int)[1] != seq!['.', '.'][1]);
                    }
                }
                return Some(string_of_range(&v, start, hi));
            }
        }
    }
}

/// The decimal digit for `d < 10`.
pub open spec fn spec_digit(d: nat) -> char {
    if d == 0 {
        '0'
    } else if d == 1 {
        '1'
    } else if d == 2 {
        '2'
    } else if d == 3 {
        '3'
    } else if d == 4 {
        '4'
    } else if d == 5 {
        '5'
    } else if d == 6 {
        '6'
    } else if d == 7 {
        '7'
    } else if d == 8 {
        '8'
    } else {
        '9'
    }
}

/// The decimal representation of `n`, as `to_string` writes an unsigned integer.
pub open spec fn decimal(n: nat) -> Seq<char>
    decreases n,
{
    if n < 10 {
        seq![spec_digit(n)]
    } else {
        decimal(n / 10).push(spec_digit(n % 10))
    }
}

fn digit_char(d: u64) -> (c: char)
    requires
        d < 10,
    ensures
        c == spec_digit(d as nat),
{
    if d == 0 {
        '0'
    } else if d == 1 {
        '1'
    } else if d == 2 {
        '2'
    } else if d == 3 {
        '3'
    } else if d == 4 {
        '4'
    } else if d == 5 {
        '5'
    } else if d == 6 {
        '6'
    } else if d == 7 {
        '7'
    } else if d == 8 {
        '8'
    } else {
        '9'
    }
}

/// Appends the decimal representation of `n`.
pub fn push_decimal(out: &mut String, n: u64)
    ensures
        final(out)@ == old(out)@ + decimal(n as nat),
{
    let ghost orig = n as nat;
    let mut m = n;
    let mut acc: Vec<char> = Vec::new();
    while m >= 10
        invariant
            decimal(orig) == decimal(m as nat) + acc@.reverse(),
        decreases m,
    {
        let d = digit_char(m % 10);
        proof {
            assert(acc@.push(d).reverse() =~= seq![d] + acc@.reverse());
            assert(decimal(m as nat) == decimal((m / 10) as nat).push(spec_digit((m % 10) as nat)));
            assert(decimal((m / 10) as nat).push(d) + acc@.reverse() =~= decimal((m / 10) as nat) + (seq![d] + acc@.reverse()));
        }
        acc.push(d);
        m = m / 10;
    }
    let ghost start = out@;
    out.push(digit_char(m));
    let mut k = acc.len();
    while k > 0
        invariant
            k <= acc@.len(),
            out@ == start + seq![spec_digit(m as nat)] + acc@.subrange(k as int, acc@.len() as int).reverse(),
        decreases k,
    {
        out.push(acc[k - 1]);
        assert(acc@.subrange(k - 1, acc@.len() as int).reverse() =~= acc@.subrange(k as int, acc@.len() as int).reverse().push(acc@[k - 1]));
        k -= 1;
    }
    assert(acc@.subrange(0, acc@.len() as int) =~= acc@);
    assert(start + seq![spec_digit(m as nat)] + acc@.reverse() =~= start + (seq![spec_digit(m as nat)] + acc@.reverse()));
}


/// What `format!("{:?}", s)` writes for a string slice: the text in double
/// quotes with Rust's escapes.
pub uninterp spec fn str_debug(s: Seq<char>) -> Seq<char>;

/// Formats a string slice with `Debug` (`format!("{:?}", s)`); the result is
/// named, not stated.
#[verifier::external_body]
pub(crate) fn debug_quote(s: &str) -> (r: String)
    ensures
        r@ == str_debug(s@),
{
    format!("{:?}", s)
}

/// The views of a sequence of strings.
pub open spec fn strings_view(v: Seq<String>) -> Seq<Seq<char>> {
    v.map_values(|s: String| s@)
}

/// Appends a string to a vector of strings.
pub fn push_string(v: &mut Vec<String>, s: String)
    ensures
        strings_view(final(v)@) == strings_view(old(v)@).push(s@),
{
    let ghost sv = s@;
    v.push(s);
    assert(strings_view(v@) =~= strings_view(old(v)@).push(sv));
}

/// A `String` holding a string slice.
pub fn owned(s: &str) -> (r: String)
    ensures
        r@ == s@,
{
    String::from_str(s)
}


/// The strings joined with `sep` between neighbours, as `[String]::join`.
pub fn join_strings(v: &Vec<String>, sep: &str) -> (r: String)
    ensures
        r@ == join(strings_view(v@), sep@),
{
    if v.len() == 0 {
        return String::new();
    }
    let mut out = v[0].clone();
    let ghost ls = strings_view(v@);
    assert(ls.take(1).drop_last() =~= ls.take(0));
    let mut i: usize = 1;
    while i < v.len()
        invariant
            1 <= i <= v@.len(),
            ls == strings_view(v@),
            out@ == join(ls.take(i as int), sep@),
        decreases v.len() - i,
    {
        push_str(&mut out, sep);
        push_str(&mut out, v[i].as_str());
        assert(ls.take(i + 1).drop_last() =~= ls.take(i as int));
        i += 1;
    }
    assert(ls.take(v@.len() as int) =~= ls);
    out
}

/// The text with whitespace removed at both ends, as `str::trim`.
pub fn trim_str(s: &str) -> (r: String)
    ensures
        r@ == trim(s@),
{
    let v = chars_of(s);
    assert(v@.subrange(0, v@.len() as int) =~= v@);
    let (a, b) = trim_range(&v, 0, v.len());
    string_of_range(&v, a, b)
}

/// Whether two string slices hold the same text.
pub fn str_eq(a: &str, b: &str) -> (r: bool)
    ensures
        r == (a@ == b@),
{
    let va = chars_of(a);
    let vb = chars_of(b);
    assert(va@.subrange(0, va@.len() as int) =~= va@);
    range_eq(&va, 0, va.len(), &vb)
}


/// Position of the first character satisfying `f`, or -1.
pub open spec fn first_where(s: Seq<char>, f: spec_fn(char) -> bool) -> int
    decreases s.len(),
{
    if s.len() == 0 {
        -1
    } else if f(s[0]) {
        0
    } else {
        let r = first_where(s.drop_first(), f);
        if r < 0 {
            -1
        } else {
            r + 1
        }
    }
}

pub proof fn lemma_first_where(s: Seq<char>, f: spec_fn(char) -> bool)
    ensures
        -1 <= first_where(s, f) < s.len(),
        first_where(s, f) >= 0 ==> f(s[first_where(s, f)]),
        forall|j: int| 0 <= j < s.len() && (first_where(s, f) < 0 || j < first_where(s, f)) ==> !f(#[trigger] s[j]),
    decreases s.len(),
{
    if s.len() > 0 && !f(s[0]) {
        lemma_first_where(s.drop_first(), f);
        assert forall|j: int| 0 <= j < s.len() && (first_where(s, f) < 0 || j < first_where(s, f)) implies !f(#[trigger] s[j]) by {
            if j > 0 {
                assert(s[j] == s.drop_first()[j - 1]);
            }
        }
    }
}

pub proof fn lemma_first_where_at(s: Seq<char>, f: spec_fn(char) -> bool, i: int)
    requires
        -1 <= i < s.len(),
        i >= 0 ==> f(s[i]),
        forall|j: int| 0 <= j < s.len() && (i < 0 || j < i) ==> !f(#[trigger] s[j]),
    ensures
        first_where(s, f) == i,
{
    lemma_first_where(s, f);
    let r = first_where(s, f);
    if r >= 0 && (i < 0 || r < i) {
        assert(!f(s[r]));
    }
    if i >= 0 && (r < 0 || i < r) {
        assert(!f(s[i]));
    }
}

pub proof fn lemma_trim_start_len(s: Seq<char>)
    ensures
        trim_start(s).len() <= s.len(),
        trim_start(s).len() > 0 ==> !is_ws(trim_start(s)[0]),
        trim_start(s) == s.skip(s.len() - trim_start(s).len()),
    decreases s.len(),
{
    if s.len() > 0 && is_ws(s[0]) {
        lemma_trim_start_len(s.drop_first());
        assert(s.drop_first().skip(s.drop_first().len() - trim_start(s).len()) =~= s.skip(s.len() - trim_start(s).len()));
    } else {
        assert(s.skip(0) =~= s);
    }
}

/// The whitespace-separated words of a text, as `str::split_whitespace`.
pub open spec fn words(s: Seq<char>) -> Seq<Seq<char>>
    decreases s.len(),
{
    let t = trim_start(s);
    if t.len() == 0 {
        seq![]
    } else {
        let i = first_where(t, |c: char| is_ws(c));
        if i < 0 {
            seq![t]
        } else {
            proof {
                lemma_trim_start_len(s);
                lemma_first_where(t, |c: char| is_ws(c));
            }
            seq![t.take(i)] + words(t.skip(i))
        }
    }
}

/// The next word of `v[lo..hi]`: `None` when only whitespace is left, else
/// its bounds.
pub fn next_word(v: &Vec<char>, lo: usize, hi: usize) -> (r: Option<(usize, usize)>)
    requires
        lo <= hi <= v@.len(),
    ensures
        match r {
            None => words(v@.subrange(lo as int, hi as int)) == Seq::<Seq<char>>::empty(),
            Some((a, b)) => lo <= a < b <= hi && words(v@.subrange(lo as int, hi as int)) == seq![
                v@.subrange(a as int, b as int),
            ] + words(v@.subrange(b as int, hi as int)),
        },
{
    let a = trim_start_range(v, lo, hi);
    let ghost t = v@.subrange(a as int, hi as int);
    if a == hi {
        return None;
    }
    let mut b = a;
    while b < hi && !is_whitespace(v[b])
        invariant
            a <= b <= hi <= v@.len(),
            forall|j: int| a <= j < b ==> !is_ws(v@[j]),
        decreases hi - b,
    {
        b += 1;
    }
    proof {
        lemma_trim_start_len(v@.subrange(lo as int, hi as int));
        assert forall|j: int| 0 <= j < t.len() && (b == hi || j < b - a) implies !(|c: char| is_ws(c))(#[trigger] t[j]) by {
            assert(t[j] == v@[a + j]);
        }
        if b < hi {
            assert(t[b - a] == v@[b as int]);
            lemma_first_where_at(t, |c: char| is_ws(c), b - a);
            assert(t.take(b - a) =~= v@.subrange(a as int, b as int));
            assert(t.skip(b - a) =~= v@.subrange(b as int, hi as int));
        } else {
            lemma_first_where_at(t, |c: char| is_ws(c), -1);
            assert(v@.subrange(b as int, hi as int) =~= Seq::<char>::empty());
            assert(trim_start(Seq::<char>::empty()) == Seq::<char>::empty());
            assert(words(Seq::<char>::empty()) == Seq::<Seq<char>>::empty());
            assert(seq![t] + Seq::<Seq<char>>::empty() =~= seq![t]);
        }
    }
    Some((a, b))
}


/// The ASCII lowercase of a character, as `char::to_ascii_lowercase`.
pub open spec fn ascii_lower(c: char) -> char {
    if 'A' <= c && c <= 'Z' {
        ((c as u32) + 32) as char
    } else {
        c
    }
}

/// The ASCII lowercase of a text, as `str::to_ascii_lowercase`.
pub open spec fn ascii_lower_str(s: Seq<char>) -> Seq<char> {
    s.map_values(|c: char| ascii_lower(c))
}

pub fn to_ascii_lower_char(c: char) -> (r: char)
    ensures
        r == ascii_lower(c),
{
    if 'A' <= c && c <= 'Z' {
        ((c as u8) + 32) as char
    } else {
        c
    }
}


pub open spec fn is_digit(c: char) -> bool {
    '0' <= c && c <= '9'
}

pub open spec fn all_digits(s: Seq<char>) -> bool {
    forall|i: int| 0 <= i < s.len() ==> is_digit(#[trigger] s[i])
}

/// The number written by decimal digits.
pub open spec fn digits_value(s: Seq<char>) -> nat
    decreases s.len(),
{
    if s.len() == 0 {
        0
    } else {
        digits_value(s.drop_last()) * 10 + ((s.last() as u32) - ('0' as u32)) as nat
    }
}

/// What `u16::from_str` accepts: an optional `+`, then at least one decimal
/// digit and nothing else, of value at most 65535.
pub open spec fn spec_parse_u16(s: Seq<char>) -> Option<u16> {
    let d = if s.len() > 0 && s[0] == '+' {
        s.drop_first()
    } else {
        s
    };
    if d.len() > 0 && all_digits(d) && digits_value(d) <= 65535 {
        Some(digits_value(d) as u16)
    } else {
        None
    }
}

proof fn lemma_digits_value_prefix(s: Seq<char>, k: int)
    requires
        0 <= k <= s.len(),
        all_digits(s),
    ensures
        digits_value(s) >= digits_value(s.take(k)),
    decreases s.len(),
{
    if k < s.len() {
        assert(s.drop_last().take(k) =~= s.take(k));
        assert(all_digits(s.drop_last())) by {
            assert forall|i: int| 0 <= i < s.drop_last().len() implies is_digit(#[trigger] s.drop_last()[i]) by {
                assert(s.drop_last()[i] == s[i]);
            }
        }
        lemma_digits_value_prefix(s.drop_last(), k);
    } else {
        assert(s.take(k) =~= s);
    }
}

/// Parses `v[lo..hi]` as a `u16` (see [`spec_parse_u16`]).
pub fn parse_u16_range(v: &Vec<char>, lo: usize, hi: usize) -> (r: Option<u16>)
    requires
        lo <= hi <= v@.len(),
    ensures
        r == spec_parse_u16(v@.subrange(lo as int, hi as int)),
{
    let ghost s = v@.subrange(lo as int, hi as int);
    let start = if lo < hi && v[lo] == '+' { lo + 1 } else { lo };
    let ghost d = if s.len() > 0 && s[0] == '+' { s.drop_first() } else { s };
    assert(d =~= v@.subrange(start as int, hi as int));
    if start == hi {
        return None;
    }
    let mut acc: u32 = 0;
    let mut i = start;
    assert(v@.subrange(start as int, start as int) =~= Seq::<char>::empty());
    while i < hi
        invariant
            start <= i <= hi <= v@.len(),
            d == v@.subrange(start as int, hi as int),
            s == v@.subrange(lo as int, hi as int),
            d == (if s.len() > 0 && s[0] == '+' { s.drop_first() } else { s }),
            acc as nat == digits_value(v@.subrange(start as int, i as int)),
            acc <= 65535,
            all_digits(v@.subrange(start as int, i as int)),
        decreases hi - i,
    {
        let c = v[i];
        assert(d[i - start] == c);
        if !('0' <= c && c <= '9') {
            assert(!is_digit(d[i - start]));
            assert(!all_digits(d));
            return None;
        }
        let ghost p = v@.subrange(start as int, i + 1);
        assert(p.drop_last() =~= v@.subrange(start as int, i as int));
        assert(all_digits(p)) by {
            assert forall|j: int| 0 <= j < p.len() implies is_digit(#[trigger] p[j]) by {
                if j < p.len() - 1 {
                    assert(p[j] == v@.subrange(start as int, i as int)[j]);
                }
            }
        }
        acc = acc * 10 + ((c as u32) - ('0' as u32));
        if acc > 65535 {
            proof {
                if all_digits(d) {
                    assert(d.take(i + 1 - start) =~= p);
                    lemma_digits_value_prefix(d, i + 1 - start);
                    assert(digits_value(p) == acc);
                    assert(digits_value(d) > 65535);
                }
            }
            return None;
        }
        assert(digits_value(p) == digits_value(p.drop_last()) * 10 + ((p.last() as u32) - ('0' as u32)) as nat);
        i += 1;
    }
    Some(acc as u16)
}


/// Whether the characters spell `b`.
pub fn chars_eq_str(a: &Vec<char>, b: &str) -> (r: bool)
    ensures
        r == (a@ == b@),
{
    let bv = chars_of(b);
    assert(a@.subrange(0, a@.len() as int) =~= a@);
    range_eq(a, 0, a.len(), &bv)
}

/// A copy of an optional string.
pub fn clone_opt_string(o: &Option<String>) -> (r: Option<String>)
    ensures
        r == *o,
{
    match o {
        Some(s) => Some(s.clone()),
        None => None,
    }
}


/// `c` is an ASCII letter or digit, as `char::is_ascii_alphanumeric`.
pub open spec fn ascii_alnum(c: char) -> bool {
    ('a' <= c && c <= 'z') || ('A' <= c && c <= 'Z') || ('0' <= c && c <= '9')
}

pub fn is_ascii_alnum(c: char) -> (b: bool)
    ensures
        b == ascii_alnum(c),
{
    ('a' <= c && c <= 'z') || ('A' <= c && c <= 'Z') || ('0' <= c && c <= '9')
}

} // verus!
