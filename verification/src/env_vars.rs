//! `.env` files: the structured view of a file's lines, and the edits that
//! set or remove one variable while leaving every other line as it was.

use vstd::prelude::*;
use vstd::utf8::encode_utf8;
use crate::codec::{b64_encode, b64_encoded};
use crate::text::{
    owned, shell_quote, spec_shell_quote, chars_of, contains, ends_with_char, find_char, push_str,
    join, lines, next_line, push_range, range_eq, split_once, str_contains, str_to_uppercase,
    string_of_range, to_uppercase, trim, trim_end, trim_end_range, trim_range, trim_start,
    trim_start_range, ends_with, first_index, is_ws, lemma_first_index_at, lemma_lines_join,
    lemma_lines_join_newline, lemma_lines_last, lemma_lines_no_newline, lemma_trim_end_append,
    lemma_trim_end_strip_cr, no_char, strip_cr, lemma_first_index, lemma_join_front, lemma_lines_cons,
};

verus! {

/// One line of an `.env` file, as the viewer shows it.
#[derive(Debug, Clone)]
pub enum EnvLine {
    Comment { text: String },
    Blank,
    Var { key: String, value: String, is_secret: bool },
    Raw { text: String },
}

/// The mathematical value of an [`EnvLine`].
pub enum EnvEntry {
    Comment { text: Seq<char> },
    Blank,
    Var { key: Seq<char>, value: Seq<char>, is_secret: bool },
    Raw { text: Seq<char> },
}

impl View for EnvLine {
    type V = EnvEntry;

    open spec fn view(&self) -> EnvEntry {
        match self {
            EnvLine::Comment { text } => EnvEntry::Comment { text: text@ },
            EnvLine::Blank => EnvEntry::Blank,
            EnvLine::Var { key, value, is_secret } => EnvEntry::Var {
                key: key@,
                value: value@,
                is_secret: *is_secret,
            },
            EnvLine::Raw { text } => EnvEntry::Raw { text: text@ },
        }
    }
}

pub open spec fn view_entries(s: Seq<EnvLine>) -> Seq<EnvEntry> {
    s.map_values(|e: EnvLine| e@)
}

/// A character allowed in a variable name: `A`-`Z`, `0`-`9` or `_`.
pub open spec fn key_char(c: char) -> bool {
    ('A' <= c && c <= 'Z') || ('0' <= c && c <= '9') || c == '_'
}

/// A non-empty name made of [`key_char`]s.
pub open spec fn valid_key(s: Seq<char>) -> bool {
    s.len() > 0 && forall|i: int| 0 <= i < s.len() ==> key_char(#[trigger] s[i])
}

/// A key is secret when its uppercase form mentions SECRET, PASSWORD, KEY or TOKEN.
pub open spec fn spec_is_secret(k: Seq<char>) -> bool {
    let u = str_to_uppercase(k);
    contains(u, "SECRET"@) || contains(u, "PASSWORD"@) || contains(u, "KEY"@) || contains(u, "TOKEN"@)
}

/// How the viewer classifies one line.
pub open spec fn spec_parse_line(line: Seq<char>) -> EnvEntry {
    let t = trim_end(line);
    if t.len() == 0 {
        EnvEntry::Blank
    } else if t[0] == '#' {
        EnvEntry::Comment { text: t }
    } else {
        match split_once(t, '=') {
            Some((k, v)) => if valid_key(trim(k)) {
                EnvEntry::Var { key: trim(k), value: v, is_secret: spec_is_secret(trim(k)) }
            } else {
                EnvEntry::Raw { text: t }
            },
            None => EnvEntry::Raw { text: t },
        }
    }
}

/// The structured view of a whole file: one entry per line.
pub open spec fn spec_parse_env(content: Seq<char>) -> Seq<EnvEntry> {
    lines(content).map_values(|l: Seq<char>| spec_parse_line(l))
}

/// The variable a line assigns, as the editor recognises it.
pub open spec fn spec_line_key(line: Seq<char>) -> Option<Seq<char>> {
    let t = trim_start(line);
    if t.len() > 0 && t[0] == '#' {
        None
    } else {
        match split_once(t, '=') {
            Some((k, _)) => if valid_key(trim(k)) {
                Some(trim(k))
            } else {
                None
            },
            None => None,
        }
    }
}

pub fn is_key_char(c: char) -> (b: bool)
    ensures
        b == key_char(c),
{
    ('A' <= c && c <= 'Z') || ('0' <= c && c <= '9') || c == '_'
}

/// Whether `v[lo..hi]` is a valid key.
pub fn range_valid_key(v: &Vec<char>, lo: usize, hi: usize) -> (b: bool)
    requires
        lo <= hi <= v@.len(),
    ensures
        b == valid_key(v@.subrange(lo as int, hi as int)),
{
    if lo == hi {
        return false;
    }
    let mut i = lo;
    while i < hi
        invariant
            lo <= i <= hi <= v@.len(),
            forall|j: int| lo <= j < i ==> key_char(v@[j]),
        decreases hi - i,
    {
        if !is_key_char(v[i]) {
            assert(!key_char(v@.subrange(lo as int, hi as int)[i - lo]));
            return false;
        }
        i += 1;
    }
    assert forall|j: int| 0 <= j < hi - lo implies key_char(#[trigger] v@.subrange(lo as int, hi as int)[j]) by {
        assert(v@.subrange(lo as int, hi as int)[j] == v@[lo + j]);
    }
    true
}

/// Whether `k` is a non-empty name of uppercase letters, digits and underscores.
pub fn is_valid_key(k: &str) -> (b: bool)
    ensures
        b == valid_key(k@),
{
    let v = chars_of(k);
    assert(v@.subrange(0, v@.len() as int) =~= v@);
    range_valid_key(&v, 0, v.len())
}

/// Whether a key names a secret (SECRET, PASSWORD, KEY or TOKEN in its uppercase form).
pub fn is_secret_key(k: &str) -> (b: bool)
    ensures
        b == spec_is_secret(k@),
{
    let u = to_uppercase(k);
    let u = u.as_str();
    str_contains(u, "SECRET") || str_contains(u, "PASSWORD") || str_contains(u, "KEY")
        || str_contains(u, "TOKEN")
}

/// Why a key is refused by [`validate_key`], or `None` when it is accepted.
pub open spec fn spec_key_error(k: Seq<char>) -> Option<Seq<char>> {
    if k.len() == 0 {
        Some("key is empty"@)
    } else if '0' <= k[0] && k[0] <= '9' {
        Some("key must not start with a digit"@)
    } else if !valid_key(k) {
        Some("key must be uppercase letters, digits, or underscores"@)
    } else {
        None
    }
}

/// Checks a key before it is written: non-empty, not starting with a digit,
/// and made of uppercase letters, digits and underscores only.
pub fn validate_key(key: &str) -> (r: Result<(), String>)
    ensures
        match r {
            Ok(()) => spec_key_error(key@) is None,
            Err(e) => spec_key_error(key@) == Some(e@),
        },
{
    let v = chars_of(key);
    if v.len() == 0 {
        return Err(String::from_str("key is empty"));
    }
    if '0' <= v[0] && v[0] <= '9' {
        return Err(String::from_str("key must not start with a digit"));
    }
    assert(v@.subrange(0, v@.len() as int) =~= v@);
    if !range_valid_key(&v, 0, v.len()) {
        return Err(String::from_str("key must be uppercase letters, digits, or underscores"));
    }
    Ok(())
}

/// The classification of the line `v[lo..hi]`.
fn parse_line_range(v: &Vec<char>, lo: usize, hi: usize) -> (r: EnvLine)
    requires
        lo <= hi <= v@.len(),
    ensures
        r@ == spec_parse_line(v@.subrange(lo as int, hi as int)),
{
    let ghost line = v@.subrange(lo as int, hi as int);
    let e = trim_end_range(v, lo, hi);
    let ghost t = v@.subrange(lo as int, e as int);
    if e == lo {
        return EnvLine::Blank;
    }
    assert(t[0] == v@[lo as int]);
    if v[lo] == '#' {
        return EnvLine::Comment { text: string_of_range(v, lo, e) };
    }
    let p = find_char(v, lo, e, '=');
    if p < e {
        assert(t.take(p - lo) =~= v@.subrange(lo as int, p as int));
        assert(t.skip(p - lo + 1) =~= v@.subrange(p + 1, e as int));
        let (a, b) = trim_range(v, lo, p);
        if range_valid_key(v, a, b) {
            let key = string_of_range(v, a, b);
            let value = string_of_range(v, p + 1, e);
            let is_secret = is_secret_key(key.as_str());
            return EnvLine::Var { key, value, is_secret };
        }
    }
    EnvLine::Raw { text: string_of_range(v, lo, e) }
}

/// Parses `.env` content into one entry per line: blank lines, `#` comments,
/// `KEY=value` assignments (flagged when the key looks secret), and anything
/// else kept raw.
pub fn parse_env(content: &str) -> (r: Vec<EnvLine>)
    ensures
        view_entries(r@) == spec_parse_env(content@),
{
    let v = chars_of(content);
    let mut out: Vec<EnvLine> = Vec::new();
    let mut start: usize = 0;
    let ghost mut done: Seq<Seq<char>> = seq![];
    assert(v@.skip(0) =~= v@);
    while start < v.len()
        invariant
            start <= v@.len(),
            v@ == content@,
            lines(v@) == done + lines(v@.skip(start as int)),
            view_entries(out@) == done.map_values(|l: Seq<char>| spec_parse_line(l)),
        decreases v.len() - start,
    {
        let (e, nx) = next_line(&v, start);
        let item = parse_line_range(&v, start, e);
        let ghost prev = out@;
        let ghost iv = item@;
        out.push(item);
        proof {
            let l = v@.subrange(start as int, e as int);
            assert(done.push(l) + lines(v@.skip(nx as int)) =~= done + (seq![l] + lines(v@.skip(nx as int))));
            assert(done.push(l).map_values(|l: Seq<char>| spec_parse_line(l)) =~= done.map_values(|l: Seq<char>| spec_parse_line(l)).push(spec_parse_line(l)));
            assert(view_entries(out@) =~= view_entries(prev).push(iv)) by {
                assert(view_entries(out@).len() == out@.len());
            }
            done = done.push(l);
        }
        start = nx;
    }
    proof {
        assert(v@.skip(v@.len() as int) =~= Seq::<char>::empty());
        assert(done + Seq::<Seq<char>>::empty() =~= done);
    }
    out
}


/// The key assigned on the line `v[lo..hi]`, as bounds into `v`.
fn line_key_range(v: &Vec<char>, lo: usize, hi: usize) -> (r: Option<(usize, usize)>)
    requires
        lo <= hi <= v@.len(),
    ensures
        match r {
            Some((a, b)) => a <= b <= v@.len() && spec_line_key(v@.subrange(lo as int, hi as int))
                == Some(v@.subrange(a as int, b as int)),
            None => spec_line_key(v@.subrange(lo as int, hi as int)) is None,
        },
{
    let t0 = trim_start_range(v, lo, hi);
    let ghost t = v@.subrange(t0 as int, hi as int);
    if t0 < hi && v[t0] == '#' {
        assert(t[0] == v@[t0 as int]);
        return None;
    }
    let p = find_char(v, t0, hi, '=');
    if p == hi {
        return None;
    }
    assert(t.take(p - t0) =~= v@.subrange(t0 as int, p as int));
    let (a, b) = trim_range(v, t0, p);
    if range_valid_key(v, a, b) {
        Some((a, b))
    } else {
        None
    }
}

/// The key a line assigns, if it is a `KEY=value` line with a valid key
/// (comments never assign).
pub fn line_key(line: &str) -> (r: Option<String>)
    ensures
        match r {
            Some(k) => spec_line_key(line@) == Some(k@),
            None => spec_line_key(line@) is None,
        },
{
    let v = chars_of(line);
    assert(v@.subrange(0, v@.len() as int) =~= v@);
    match line_key_range(&v, 0, v.len()) {
        Some((a, b)) => Some(string_of_range(&v, a, b)),
        None => None,
    }
}

/// Index of the first line that assigns `key`, or -1.
pub open spec fn first_key_line(ls: Seq<Seq<char>>, key: Seq<char>) -> int
    decreases ls.len(),
{
    if ls.len() == 0 {
        -1
    } else if spec_line_key(ls[0]) == Some(key) {
        0
    } else {
        let r = first_key_line(ls.drop_first(), key);
        if r < 0 {
            -1
        } else {
            r + 1
        }
    }
}

pub proof fn lemma_first_key_line(ls: Seq<Seq<char>>, key: Seq<char>)
    ensures
        -1 <= first_key_line(ls, key) < ls.len(),
        first_key_line(ls, key) >= 0 ==> spec_line_key(ls[first_key_line(ls, key)]) == Some(key),
        forall|j: int|
            0 <= j < ls.len() && (first_key_line(ls, key) < 0 || j < first_key_line(ls, key))
                ==> spec_line_key(#[trigger] ls[j]) != Some(key),
    decreases ls.len(),
{
    if ls.len() > 0 && spec_line_key(ls[0]) != Some(key) {
        lemma_first_key_line(ls.drop_first(), key);
        assert forall|j: int|
            0 <= j < ls.len() && (first_key_line(ls, key) < 0 || j < first_key_line(ls, key))
                implies spec_line_key(#[trigger] ls[j]) != Some(key) by {
            if j > 0 {
                assert(ls[j] == ls.drop_first()[j - 1]);
            }
        }
    }
}

pub proof fn lemma_first_key_line_at(ls: Seq<Seq<char>>, key: Seq<char>, i: int)
    requires
        -1 <= i < ls.len(),
        i >= 0 ==> spec_line_key(ls[i]) == Some(key),
        forall|j: int| 0 <= j < ls.len() && (i < 0 || j < i) ==> spec_line_key(#[trigger] ls[j]) != Some(key),
    ensures
        first_key_line(ls, key) == i,
{
    lemma_first_key_line(ls, key);
    let r = first_key_line(ls, key);
    if r >= 0 && (i < 0 || r < i) {
        assert(spec_line_key(ls[r]) != Some(key));
    }
    if i >= 0 && (r < 0 || i < r) {
        assert(spec_line_key(ls[i]) != Some(key));
    }
}

pub proof fn lemma_join_push(ls: Seq<Seq<char>>, x: Seq<char>, sep: Seq<char>)
    ensures
        join(ls.push(x), sep) == (if ls.len() == 0 { x } else { join(ls, sep) + sep + x }),
{
    assert(ls.push(x).drop_last() =~= ls);
}

/// The line that sets `key` to `value`.
pub open spec fn assignment(key: Seq<char>, value: Seq<char>) -> Seq<char> {
    key + seq!['='] + value
}

/// The file with `key` set to `value`: the first line that assigns `key` is
/// replaced, every other line is kept as it was; when no line assigns it, the
/// assignment is appended as a new last line.
pub open spec fn spec_upsert(content: Seq<char>, key: Seq<char>, value: Seq<char>) -> Seq<char> {
    let ls = lines(content);
    let i = first_key_line(ls, key);
    if i >= 0 {
        let o = join(ls.update(i, assignment(key, value)), seq!['\n']);
        if ends_with(content, seq!['\n']) {
            o.push('\n')
        } else {
            o
        }
    } else {
        let o = join(ls, seq!['\n']);
        (if o.len() > 0 {
            o.push('\n')
        } else {
            o
        }) + assignment(key, value) + seq!['\n']
    }
}

/// Sets `key` to `value` in `.env` content, replacing the first assignment
/// of that key or appending one; comments, blank lines and other variables
/// are kept in place.
pub fn upsert_line(content: &str, key: &str, value: &str) -> (r: String)
    ensures
        r@ == spec_upsert(content@, key@, value@),
{
    let v = chars_of(content);
    let kv = chars_of(key);
    let had_trailing_newline = ends_with_char(&v, '\n');
    let ghost line_kv = assignment(key@, value@);
    let mut out = String::new();
    let mut found = false;
    let mut idx: usize = 0;
    let mut start: usize = 0;
    let ghost mut done: Seq<Seq<char>> = seq![];
    let ghost mut f: int = -1;
    assert(v@.skip(0) =~= v@);
    while start < v.len()
        invariant
            start <= v@.len(),
            v@ == content@,
            kv@ == key@,
            line_kv == assignment(key@, value@),
            idx <= start,
            done.len() == idx,
            lines(v@) == done + lines(v@.skip(start as int)),
            found <==> f >= 0,
            f >= -1,
            f >= 0 ==> f < idx && spec_line_key(done[f]) == Some(key@),
            forall|j: int| 0 <= j < idx && (f < 0 || j < f) ==> spec_line_key(#[trigger] done[j]) != Some(key@),
            out@ == join(
                if found {
                    done.update(f, line_kv)
                } else {
                    done
                },
                seq!['\n'],
            ),
        decreases v.len() - start,
    {
        let (e, nx) = next_line(&v, start);
        let ghost l = v@.subrange(start as int, e as int);
        let ghost prev = if found { done.update(f, line_kv) } else { done };
        if idx > 0 {
            out.push('\n');
        }
        let is_key = if found {
            false
        } else {
            match line_key_range(&v, start, e) {
                Some((a, b)) => range_eq(&v, a, b, &kv),
                None => false,
            }
        };
        if is_key {
            push_str(&mut out, key);
            out.push('=');
            push_str(&mut out, value);
            proof {
                lemma_join_push(done, line_kv, seq!['\n']);
                assert(done.push(l).update(idx as int, line_kv) =~= done.push(line_kv));
                f = idx as int;
            }
            found = true;
        } else {
            push_range(&mut out, &v, start, e);
            proof {
                lemma_join_push(prev, l, seq!['\n']);
                if found {
                    assert(done.push(l).update(f, line_kv) =~= prev.push(l));
                }
            }
        }
        proof {
            assert(done.push(l) + lines(v@.skip(nx as int)) =~= done + (seq![l] + lines(v@.skip(nx as int))));
            done = done.push(l);
        }
        idx += 1;
        start = nx;
    }
    proof {
        assert(v@.skip(v@.len() as int) =~= Seq::<char>::empty());
        assert(done + Seq::<Seq<char>>::empty() =~= done);
        lemma_first_key_line_at(done, key@, f);
    }
    if !found {
        if !out.as_str().is_empty() {
            out.push('\n');
        }
        push_str(&mut out, key);
        out.push('=');
        push_str(&mut out, value);
        out.push('\n');
    } else if had_trailing_newline {
        out.push('\n');
    }
    out
}

/// The lines that do not assign `key`, in order.
pub open spec fn kept_lines(ls: Seq<Seq<char>>, key: Seq<char>) -> Seq<Seq<char>>
    decreases ls.len(),
{
    if ls.len() == 0 {
        seq![]
    } else {
        let k = kept_lines(ls.drop_last(), key);
        if spec_line_key(ls.last()) == Some(key) {
            k
        } else {
            k.push(ls.last())
        }
    }
}

/// The file without any line that assigns `key`; a final newline is kept
/// when the file had one and something is left.
pub open spec fn spec_delete(content: Seq<char>, key: Seq<char>) -> Seq<char> {
    let o = join(kept_lines(lines(content), key), seq!['\n']);
    if ends_with(content, seq!['\n']) && o.len() > 0 {
        o.push('\n')
    } else {
        o
    }
}

/// Removes every line that assigns `key` from `.env` content.
pub fn delete_line(content: &str, key: &str) -> (r: String)
    ensures
        r@ == spec_delete(content@, key@),
{
    let v = chars_of(content);
    let kv = chars_of(key);
    let had_trailing_newline = ends_with_char(&v, '\n');
    let mut out = String::new();
    let mut first = true;
    let mut start: usize = 0;
    let ghost mut done: Seq<Seq<char>> = seq![];
    assert(v@.skip(0) =~= v@);
    while start < v.len()
        invariant
            start <= v@.len(),
            v@ == content@,
            kv@ == key@,
            lines(v@) == done + lines(v@.skip(start as int)),
            first <==> kept_lines(done, key@).len() == 0,
            out@ == join(kept_lines(done, key@), seq!['\n']),
        decreases v.len() - start,
    {
        let (e, nx) = next_line(&v, start);
        let ghost l = v@.subrange(start as int, e as int);
        let is_key = match line_key_range(&v, start, e) {
            Some((a, b)) => range_eq(&v, a, b, &kv),
            None => false,
        };
        proof {
            assert(done.push(l).drop_last() =~= done);
        }
        if !is_key {
            if !first {
                out.push('\n');
            }
            push_range(&mut out, &v, start, e);
            first = false;
            proof {
                lemma_join_push(kept_lines(done, key@), l, seq!['\n']);
            }
        }
        proof {
            assert(done.push(l) + lines(v@.skip(nx as int)) =~= done + (seq![l] + lines(v@.skip(nx as int))));
            done = done.push(l);
        }
        start = nx;
    }
    proof {
        assert(v@.skip(v@.len() as int) =~= Seq::<char>::empty());
        assert(done + Seq::<Seq<char>>::empty() =~= done);
    }
    if had_trailing_newline && !out.as_str().is_empty() {
        out.push('\n');
    }
    out
}


proof fn lemma_key_char(c: char)
    requires
        key_char(c),
    ensures
        !is_ws(c),
        c != '=',
        c != '#',
        c != '\n',
{
}

/// A line reads the same to the viewer with or without a `\r` at its end.
pub proof fn lemma_parse_strip_cr(l: Seq<char>)
    ensures
        spec_parse_line(strip_cr(l)) == spec_parse_line(l),
{
    lemma_trim_end_strip_cr(l);
}

/// The line `KEY=value` reads as the variable `KEY` with `value` less its
/// trailing whitespace.
pub proof fn lemma_parse_assignment(k: Seq<char>, v: Seq<char>)
    requires
        valid_key(k),
    ensures
        spec_parse_line(assignment(k, v)) == (EnvEntry::Var {
            key: k,
            value: trim_end(v),
            is_secret: spec_is_secret(k),
        }),
{
    let a = k + seq!['='];
    assert(assignment(k, v) =~= a + v);
    assert(a.last() == '=');
    lemma_trim_end_append(a, v);
    let t = a + trim_end(v);
    assert(key_char(k[0]));
    lemma_key_char(k[0]);
    assert(t[0] == k[0]);
    assert(t[k.len() as int] == '=');
    assert forall|j: int| 0 <= j < t.len() && j < k.len() implies t[j] != '=' by {
        assert(t[j] == k[j]);
        assert(key_char(k[j]));
        lemma_key_char(k[j]);
    }
    lemma_first_index_at(t, '=', k.len() as int);
    assert(t.take(k.len() as int) =~= k);
    assert(t.skip(k.len() as int + 1) =~= trim_end(v));
    assert(key_char(k.last()));
    lemma_key_char(k.last());
    assert(trim_start(k) == k);
    assert(trim_end(k) == k);
}

/// The viewer's entry for the line that [`upsert_line`] writes.
pub open spec fn set_entry(key: Seq<char>, value: Seq<char>) -> EnvEntry {
    EnvEntry::Var { key: key, value: trim_end(value), is_secret: spec_is_secret(key) }
}

/// Setting a variable, as the viewer sees it: the entry of the first line
/// that assigned the key now holds the new value (less trailing whitespace),
/// or, when no line assigned it, one entry for it is added at the end; every
/// other entry is unchanged.
///
/// Holds for a valid key and a one-line value, on every content but a lone
/// empty line (`"\n"`), whose blank line the edit drops.
pub proof fn law_upsert_view(c: Seq<char>, k: Seq<char>, v: Seq<char>)
    requires
        valid_key(k),
        no_char(v, '\n'),
        lines(c) != seq![Seq::<char>::empty()],
    ensures
        spec_parse_env(spec_upsert(c, k, v)) == ({
            let es = spec_parse_env(c);
            let i = first_key_line(lines(c), k);
            if i >= 0 {
                es.update(i, set_entry(k, v))
            } else {
                es.push(set_entry(k, v))
            }
        }),
{
    let ls = lines(c);
    let kv = assignment(k, v);
    let es = spec_parse_env(c);
    let i = first_key_line(ls, k);
    lemma_first_key_line(ls, k);
    lemma_lines_no_newline(c);
    lemma_lines_last(c);
    lemma_parse_assignment(k, v);
    assert(no_char(kv, '\n')) by {
        assert forall|j: int| 0 <= j < kv.len() implies kv[j] != '\n' by {
            if j < k.len() {
                assert(key_char(k[j]));
                lemma_key_char(k[j]);
            } else if j > k.len() {
                assert(kv[j] == v[j - k.len() - 1]);
            }
        }
    }
    let r = spec_upsert(c, k, v);
    if i >= 0 {
        let ls2 = ls.update(i, kv);
        assert forall|j: int| 0 <= j < ls2.len() implies no_char(#[trigger] ls2[j], '\n') by {
            if j != i {
                assert(ls2[j] == ls[j]);
            }
        }
        if ends_with(c, seq!['\n']) {
            lemma_lines_join_newline(ls2);
            assert(r == join(ls2, seq!['\n']) + seq!['\n']);
        } else {
            assert(ls2.last().len() > 0) by {
                if i == ls.len() - 1 {
                    assert(ls2.last() == kv);
                } else {
                    assert(ls2.last() == ls.last());
                }
            }
            lemma_lines_join(ls2);
        }
        assert forall|j: int| 0 <= j < ls2.len() implies spec_parse_line(#[trigger] lines(r)[j]) == (
        if j == i { set_entry(k, v) } else { es[j] }) by {
            lemma_parse_strip_cr(ls2[j]);
        }
        assert(spec_parse_env(r) =~= es.update(i, set_entry(k, v)));
    } else {
        let o = join(ls, seq!['\n']);
        let ls2 = ls.push(kv);
        assert forall|j: int| 0 <= j < ls2.len() implies no_char(#[trigger] ls2[j], '\n') by {
            if j < ls.len() {
                assert(ls2[j] == ls[j]);
            }
        }
        lemma_join_push(ls, kv, seq!['\n']);
        if o.len() > 0 {
            assert(ls.len() > 0);
            assert(r =~= join(ls2, seq!['\n']) + seq!['\n']);
        } else {
            assert(ls.len() == 0) by {
                if ls.len() == 1 {
                    assert(join(ls, seq!['\n']) == ls[0]);
                    assert(ls[0] =~= Seq::<char>::empty());
                    assert(ls =~= seq![Seq::<char>::empty()]);
                } else if ls.len() >= 2 {
                    lemma_join_push(ls.drop_last(), ls.last(), seq!['\n']);
                    assert(ls.drop_last().push(ls.last()) =~= ls);
                }
            }
            assert(r =~= join(ls2, seq!['\n']) + seq!['\n']);
        }
        lemma_lines_join_newline(ls2);
        assert forall|j: int| 0 <= j < ls2.len() implies spec_parse_line(#[trigger] lines(r)[j]) == (
        if j == ls.len() { set_entry(k, v) } else { es[j] }) by {
            lemma_parse_strip_cr(ls2[j]);
        }
        assert(spec_parse_env(r) =~= es.push(set_entry(k, v)));
    }
}


proof fn lemma_trim_start_append(m: Seq<char>, x: Seq<char>)
    ensures
        trim_start(m).len() > 0 ==> trim_start(m + x) == trim_start(m) + x,
        trim_start(m).len() == 0 ==> trim_start(m + x) == trim_start(x),
    decreases m.len(),
{
    if m.len() == 0 {
        assert(m + x =~= x);
    } else {
        assert((m + x)[0] == m[0]);
        if is_ws(m[0]) {
            assert((m + x).drop_first() =~= m.drop_first() + x);
            lemma_trim_start_append(m.drop_first(), x);
        }
    }
}

/// A line assigns the same key with or without a `\r` at its end.
pub proof fn lemma_line_key_strip_cr(l: Seq<char>)
    ensures
        spec_line_key(strip_cr(l)) == spec_line_key(l),
{
    if l.len() > 0 && l.last() == '\r' {
        let m = l.drop_last();
        assert(m + seq!['\r'] =~= l);
        lemma_trim_start_append(m, seq!['\r']);
        assert(is_ws('\r'));
        let t = trim_start(m);
        if t.len() == 0 {
            assert(seq!['\r'].drop_first() =~= Seq::<char>::empty());
            assert(trim_start(seq!['\r']) == trim_start(Seq::<char>::empty()));
            crate::text::lemma_first_index(t, '=');
        } else {
            let t2 = t + seq!['\r'];
            assert(t2[0] == t[0]);
            crate::text::lemma_first_index(t, '=');
            let i = first_index(t, '=');
            if i >= 0 {
                assert forall|j: int| 0 <= j < t2.len() && j < i implies t2[j] != '=' by {
                    assert(t2[j] == t[j]);
                }
                lemma_first_index_at(t2, '=', i);
                assert(t2.take(i) =~= t.take(i));
            } else {
                assert forall|j: int| 0 <= j < t2.len() implies t2[j] != '=' by {
                    if j < t.len() {
                        assert(t2[j] == t[j]);
                    }
                }
                lemma_first_index_at(t2, '=', -1);
            }
        }
    }
}

proof fn lemma_kept_lines(ls: Seq<Seq<char>>, key: Seq<char>)
    ensures
        forall|j: int| 0 <= j < kept_lines(ls, key).len() ==> spec_line_key(#[trigger] kept_lines(ls, key)[j]) != Some(key),
        (forall|i: int| 0 <= i < ls.len() ==> no_char(#[trigger] ls[i], '\n')) ==> (forall|j: int|
            0 <= j < kept_lines(ls, key).len() ==> no_char(#[trigger] kept_lines(ls, key)[j], '\n')),
    decreases ls.len(),
{
    if ls.len() > 0 {
        lemma_kept_lines(ls.drop_last(), key);
        if (forall|i: int| 0 <= i < ls.len() ==> no_char(#[trigger] ls[i], '\n')) {
            assert forall|i: int| 0 <= i < ls.drop_last().len() implies no_char(#[trigger] ls.drop_last()[i], '\n') by {
                assert(ls.drop_last()[i] == ls[i]);
            }
        }
    }
}

/// Removing a variable, as the viewer sees it: the entries are those of the
/// lines that did not assign the key, in order, and no line of the result
/// assigns the key.
///
/// Holds on every content but those where the kept lines end with an empty
/// line that the edit cannot keep: a last empty kept line when the content
/// had no final newline, or a single empty kept line.
pub proof fn law_delete_view(c: Seq<char>, k: Seq<char>)
    requires
        ({
            let kept = kept_lines(lines(c), k);
            !(kept.len() > 0 && kept.last().len() == 0 && (!ends_with(c, seq!['\n']) || kept.len() == 1))
        }),
    ensures
        spec_parse_env(spec_delete(c, k)) == kept_lines(lines(c), k).map_values(|l: Seq<char>| spec_parse_line(l)),
        forall|j: int| 0 <= j < lines(spec_delete(c, k)).len() ==> spec_line_key(#[trigger] lines(spec_delete(c, k))[j]) != Some(k),
{
    let ls = lines(c);
    let kept = kept_lines(ls, k);
    let o = join(kept, seq!['\n']);
    let r = spec_delete(c, k);
    lemma_lines_no_newline(c);
    lemma_kept_lines(ls, k);
    if kept.len() == 0 {
        assert(o.len() == 0);
        assert(r =~= Seq::<char>::empty());
        assert(lines(r) == Seq::<Seq<char>>::empty());
        assert(spec_parse_env(r) =~= kept.map_values(|l: Seq<char>| spec_parse_line(l)));
    } else {
        if ends_with(c, seq!['\n']) && o.len() > 0 {
            lemma_lines_join_newline(kept);
            assert(r == o + seq!['\n']);
        } else {
            if ends_with(c, seq!['\n']) {
                assert(kept.len() >= 2 || kept.last().len() > 0);
                if kept.len() >= 2 {
                    lemma_join_push(kept.drop_last(), kept.last(), seq!['\n']);
                    assert(kept.drop_last().push(kept.last()) =~= kept);
                }
                assert(kept.len() == 1 ==> o == kept[0]);
                assert(false);
            }
            assert(kept.last().len() > 0);
            lemma_lines_join(kept);
            assert(r == o);
        }
        assert forall|j: int| 0 <= j < kept.len() implies spec_parse_line(#[trigger] lines(r)[j]) == spec_parse_line(kept[j])
            && spec_line_key(lines(r)[j]) != Some(k) by {
            lemma_parse_strip_cr(kept[j]);
            lemma_line_key_strip_cr(kept[j]);
        }
        assert(spec_parse_env(r) =~= kept.map_values(|l: Seq<char>| spec_parse_line(l)));
    }
}


/// The line `KEY=value` assigns `KEY`.
proof fn lemma_line_key_assignment(k: Seq<char>, v: Seq<char>)
    requires
        valid_key(k),
    ensures
        spec_line_key(assignment(k, v)) == Some(k),
{
    let a = assignment(k, v);
    assert(key_char(k[0]));
    lemma_key_char(k[0]);
    assert(a[0] == k[0]);
    assert(trim_start(a) == a);
    assert(a[k.len() as int] == '=');
    assert forall|j: int| 0 <= j < a.len() && j < k.len() implies a[j] != '=' by {
        assert(a[j] == k[j]);
        assert(key_char(k[j]));
        lemma_key_char(k[j]);
    }
    lemma_first_index_at(a, '=', k.len() as int);
    assert(a.take(k.len() as int) =~= k);
    assert(key_char(k.last()));
    lemma_key_char(k.last());
    assert(trim_start(k) == k);
    assert(trim_end(k) == k);
}

/// After a newline, the lines of what follows are simply appended.
proof fn lemma_lines_append(c: Seq<char>, x: Seq<char>)
    requires
        ends_with(c, seq!['\n']),
    ensures
        lines(c + x) == lines(c) + lines(x),
    decreases c.len(),
{
    let s = c + x;
    lemma_first_index(c, '\n');
    assert(c[c.len() - 1] == '\n') by {
        assert(c.skip(c.len() - 1)[0] == c[c.len() - 1]);
    }
    let i = first_index(c, '\n');
    assert(i >= 0);
    assert forall|j: int| 0 <= j < s.len() && j < i implies s[j] != '\n' by {
        assert(s[j] == c[j]);
    }
    assert(s[i] == '\n');
    lemma_first_index_at(s, '\n', i);
    assert(s.take(i) =~= c.take(i));
    let rest = c.skip(i + 1);
    assert(s.skip(i + 1) =~= rest + x);
    if rest.len() == 0 {
        assert(rest + x =~= x);
        assert(lines(rest) == Seq::<Seq<char>>::empty());
        assert(lines(c) =~= seq![strip_cr(c.take(i))]);
    } else {
        assert(ends_with(rest, seq!['\n'])) by {
            assert(rest.skip(rest.len() - 1) =~= c.skip(c.len() - 1));
        }
        lemma_lines_append(rest, x);
        assert(seq![strip_cr(c.take(i))] + (lines(rest) + lines(x))
            =~= (seq![strip_cr(c.take(i))] + lines(rest)) + lines(x));
    }
}

/// A text without `\r` that ends with a newline is its lines joined by
/// newlines, then a newline.
proof fn lemma_lines_rebuild(c: Seq<char>)
    requires
        c.len() > 0,
        ends_with(c, seq!['\n']),
        no_char(c, '\r'),
    ensures
        join(lines(c), seq!['\n']) + seq!['\n'] == c,
        lines(c).len() >= 1,
    decreases c.len(),
{
    lemma_first_index(c, '\n');
    assert(c[c.len() - 1] == '\n') by {
        assert(c.skip(c.len() - 1)[0] == c[c.len() - 1]);
    }
    let i = first_index(c, '\n');
    let h = c.take(i);
    if h.len() > 0 {
        assert(h.last() == c[i - 1]);
    }
    assert(strip_cr(h) == h);
    let rest = c.skip(i + 1);
    if rest.len() == 0 {
        assert(lines(rest) == Seq::<Seq<char>>::empty());
        assert(lines(c) =~= seq![h]);
        assert(h + seq!['\n'] =~= c);
    } else {
        assert(ends_with(rest, seq!['\n'])) by {
            assert(rest.skip(rest.len() - 1) =~= c.skip(c.len() - 1));
        }
        assert forall|j: int| 0 <= j < rest.len() implies rest[j] != '\r' by {
            assert(rest[j] == c[i + 1 + j]);
        }
        lemma_lines_rebuild(rest);
        let ls = lines(c);
        assert(ls =~= seq![h] + lines(rest));
        lemma_join_front(ls, seq!['\n']);
        assert(ls.drop_first() =~= lines(rest));
        assert(h + seq!['\n'] + rest =~= c);
        assert(join(ls, seq!['\n']) + seq!['\n'] =~= h + seq!['\n'] + (join(lines(rest), seq!['\n']) + seq!['\n']));
    }
}

/// Lines of which none assigns `key` are all kept.
proof fn lemma_kept_all(ls: Seq<Seq<char>>, key: Seq<char>)
    requires
        forall|j: int| 0 <= j < ls.len() ==> spec_line_key(#[trigger] ls[j]) != Some(key),
    ensures
        kept_lines(ls, key) == ls,
    decreases ls.len(),
{
    if ls.len() > 0 {
        lemma_kept_all(ls.drop_last(), key);
        assert(ls.drop_last().push(ls.last()) =~= ls);
    }
}

/// Setting a variable that no line assigns and then deleting it gives the
/// file back byte for byte. Holds for a valid key, a one-line value, and a
/// file without `\r` that is empty or ends with a newline, other than a lone
/// newline (whose blank line the setting drops).
pub proof fn law_delete_undoes_append(c: Seq<char>, k: Seq<char>, v: Seq<char>)
    requires
        valid_key(k),
        no_char(v, '\n'),
        no_char(c, '\r'),
        c.len() == 0 || (ends_with(c, seq!['\n']) && c != seq!['\n']),
        forall|j: int| 0 <= j < lines(c).len() ==> spec_line_key(#[trigger] lines(c)[j]) != Some(k),
    ensures
        spec_delete(spec_upsert(c, k, v), k) == c,
{
    let ls = lines(c);
    let a = assignment(k, v);
    lemma_first_key_line_at(ls, k, -1);
    lemma_line_key_assignment(k, v);
    lemma_line_key_strip_cr(a);
    assert(no_char(a, '\n')) by {
        assert forall|j: int| 0 <= j < a.len() implies a[j] != '\n' by {
            if j < k.len() {
                assert(key_char(k[j]));
                lemma_key_char(k[j]);
            } else if j > k.len() {
                assert(a[j] == v[j - k.len() - 1]);
            }
        }
    }
    lemma_lines_cons(a, Seq::<char>::empty());
    assert(a + seq!['\n'] + Seq::<char>::empty() =~= a + seq!['\n']);
    assert(lines(Seq::<char>::empty()) == Seq::<Seq<char>>::empty());
    assert(lines(a + seq!['\n']) =~= seq![strip_cr(a)]);
    let u = spec_upsert(c, k, v);
    if c.len() == 0 {
        assert(ls == Seq::<Seq<char>>::empty());
        assert(join(ls, seq!['\n']) == Seq::<char>::empty());
        assert(u =~= a + seq!['\n']);
        let lu = lines(u);
        assert(lu == seq![strip_cr(a)]);
        assert(lu.last() == strip_cr(a));
        assert(spec_line_key(lu.last()) == Some(k));
        assert(lu.drop_last() =~= Seq::<Seq<char>>::empty());
        assert(kept_lines(Seq::<Seq<char>>::empty(), k) == Seq::<Seq<char>>::empty());
        assert(kept_lines(lu, k) == kept_lines(lu.drop_last(), k));
        assert(kept_lines(lu, k) =~= Seq::<Seq<char>>::empty());
        assert(join(Seq::<Seq<char>>::empty(), seq!['\n']) == Seq::<char>::empty());
    } else {
        lemma_lines_rebuild(c);
        let o = join(ls, seq!['\n']);
        if o.len() == 0 {
            assert(c =~= seq!['\n']);
        }
        assert(u =~= c + (a + seq!['\n']));
        lemma_lines_append(c, a + seq!['\n']);
        let lu = lines(u);
        assert(lu =~= ls.push(strip_cr(a)));
        assert(lu.drop_last() =~= ls);
        lemma_kept_all(ls, k);
        assert(kept_lines(lu, k) == ls);
        assert(ends_with(u, seq!['\n'])) by {
            assert(u.skip(u.len() - 1) =~= seq!['\n']);
        }
        assert(o.push('\n') =~= o + seq!['\n']);
    }
}

/// The remote command that prints an app's `.env`.
pub open spec fn spec_env_cat_command(app_dir: Seq<char>) -> Seq<char> {
    "cat "@ + spec_shell_quote(app_dir) + "/.env"@
}

/// The remote command that prints `<app_dir>/.env`.
pub fn env_cat_command(app_dir: &str) -> (r: String)
    ensures
        r@ == spec_env_cat_command(app_dir@),
{
    let mut cmd = owned("cat ");
    push_str(&mut cmd, shell_quote(app_dir).as_str());
    push_str(&mut cmd, "/.env");
    cmd
}

/// The remote command that replaces an app's `.env` with the content whose
/// base64 text is `encoded`: decoded into a temporary file, then moved over.
pub open spec fn spec_env_write_command(app_dir: Seq<char>, encoded: Seq<char>) -> Seq<char> {
    let dir = spec_shell_quote(app_dir);
    "printf '%s' "@ + spec_shell_quote(encoded) + " | base64 -d > "@ + dir + "/.env.tmp && mv "@
        + dir + "/.env.tmp "@ + dir + "/.env"@
}

/// The remote command that writes the base64 text `encoded`, decoded, to
/// `<app_dir>/.env`; shell quoting never sees the content itself.
pub fn env_write_command_encoded(app_dir: &str, encoded: &str) -> (r: String)
    ensures
        r@ == spec_env_write_command(app_dir@, encoded@),
{
    let dir = shell_quote(app_dir);
    let mut cmd = owned("printf '%s' ");
    push_str(&mut cmd, shell_quote(encoded).as_str());
    push_str(&mut cmd, " | base64 -d > ");
    push_str(&mut cmd, dir.as_str());
    push_str(&mut cmd, "/.env.tmp && mv ");
    push_str(&mut cmd, dir.as_str());
    push_str(&mut cmd, "/.env.tmp ");
    push_str(&mut cmd, dir.as_str());
    push_str(&mut cmd, "/.env");
    cmd
}

/// The remote command that overwrites `<app_dir>/.env` with `content`,
/// sent as the base64 text of its UTF-8 bytes.
pub fn env_write_command(app_dir: &str, content: &str) -> (r: String)
    ensures
        r@ == spec_env_write_command(app_dir@, b64_encoded(encode_utf8(content@))),
{
    let encoded = b64_encode(content.as_bytes());
    env_write_command_encoded(app_dir, encoded.as_str())
}

/// The words that make a key secret, looked for in its uppercase form.
pub open spec fn names_secret_word(u: Seq<char>) -> bool {
    ||| contains(u, "SECRET"@)
    ||| contains(u, "PASSWORD"@)
    ||| contains(u, "KEY"@)
    ||| contains(u, "TOKEN"@)
}

/// A key is flagged secret exactly when its uppercase form contains
/// SECRET, PASSWORD, KEY or TOKEN, and each of the four words alone is
/// enough; every variable the viewer parses carries that flag.
pub proof fn law_secret_words(k: Seq<char>, line: Seq<char>)
    ensures
        contains(str_to_uppercase(k), "SECRET"@) ==> spec_is_secret(k),
        contains(str_to_uppercase(k), "PASSWORD"@) ==> spec_is_secret(k),
        contains(str_to_uppercase(k), "KEY"@) ==> spec_is_secret(k),
        contains(str_to_uppercase(k), "TOKEN"@) ==> spec_is_secret(k),
        spec_is_secret(k) ==> names_secret_word(str_to_uppercase(k)),
        spec_parse_line(line) matches EnvEntry::Var { key, is_secret, .. }
            ==> (is_secret <==> names_secret_word(str_to_uppercase(key))),
{
}

} // verus!
