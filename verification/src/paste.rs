//! Dropped or pasted files in a terminal: the payload check, the stored
//! file name, and the upload command for remote tabs.

use vstd::prelude::*;
use crate::codec::{decode_payload, spec_decode_payload};
use crate::text::{
    ascii_alnum, chars_of, decimal, file_name, is_ascii_alnum, owned,
    path_file_name, push_decimal, push_str, shell_quote, spec_digit, spec_shell_quote,
    string_of_range,
};

verus! {

/// 200 MB hard cap; larger files should be copied with scp directly.
pub const MAX_BYTES: usize = 209715200;

/// Where pasted files go on a remote host.
pub const REMOTE_DIR: &'static str = "/tmp/bishop-pasted";

/// A size in MB (of 1 048 576 bytes) with one decimal, rounded to nearest
/// with ties to even, as `{:.1}` prints `len as f64 / 1048576.0`.
pub open spec fn spec_megabytes(len: nat) -> Seq<char> {
    let q = (len * 10) / 1048576;
    let r = (len * 10) % 1048576;
    let t = if 2 * r > 1048576 || (2 * r == 1048576 && q % 2 == 1) { q + 1 } else { q };
    decimal(t / 10) + seq!['.', spec_digit(t % 10)]
}

/// The refusal of a payload of `len` bytes.
pub open spec fn oversize_message(len: nat) -> Seq<char> {
    "file is "@ + spec_megabytes(len) + " MB \u{2014} limit is 200 MB. Transfer it directly with scp instead."@
}

/// The bytes of a payload, or why it is refused: not base64, or over the cap.
pub open spec fn spec_decode_and_check(data: Seq<char>) -> Result<Seq<u8>, Seq<char>> {
    match spec_decode_payload(data) {
        Err(e) => Err(e),
        Ok(b) => if b.len() > MAX_BYTES {
            Err(oversize_message(b.len()))
        } else {
            Ok(b)
        },
    }
}

fn push_megabytes(out: &mut String, len: usize)
    ensures
        final(out)@ == old(out)@ + spec_megabytes(len as nat),
{
    let l = len as u128;
    let q = (l * 10) / 1048576;
    let r = (l * 10) % 1048576;
    let t = if 2 * r > 1048576 || (2 * r == 1048576 && q % 2 == 1) { q + 1 } else { q };
    assert(t / 10 <= u64::MAX) by (nonlinear_arith)
        requires
            l <= usize::MAX,
            usize::MAX <= u64::MAX,
            q == (l * 10) / 1048576,
            t <= q + 1,
    ;
    push_decimal(out, (t / 10) as u64);
    out.push('.');
    let d = (t % 10) as u64;
    let mut one = String::new();
    push_decimal(&mut one, d);
    assert(decimal(d as nat) == seq![spec_digit(d as nat)]);
    push_str(out, one.as_str());
    assert(seq!['.'] + seq![spec_digit(d as nat)] =~= seq!['.', spec_digit(d as nat)]);
}

/// Decodes a base64 payload and enforces the 200 MB cap.
pub fn decode_and_check(data_b64: &str) -> (r: Result<Vec<u8>, String>)
    ensures
        match r {
            Ok(v) => spec_decode_and_check(data_b64@) == Ok::<Seq<u8>, Seq<char>>(v@),
            Err(e) => spec_decode_and_check(data_b64@) == Err::<Seq<u8>, Seq<char>>(e@),
        },
{
    let bytes = decode_payload(data_b64)?;
    if bytes.len() > MAX_BYTES {
        let mut msg = owned("file is ");
        push_megabytes(&mut msg, bytes.len());
        push_str(&mut msg, " MB \u{2014} limit is 200 MB. Transfer it directly with scp instead.");
        return Err(msg);
    }
    Ok(bytes)
}

/// A character kept in a stored file name.
pub open spec fn safe_file_char(c: char) -> bool {
    ascii_alnum(c) || c == '.' || c == '_' || c == '-'
}

/// The text without its leading run of dots and underscores.
pub open spec fn trim_dots_underscores(s: Seq<char>) -> Seq<char>
    decreases s.len(),
{
    if s.len() > 0 && (s[0] == '.' || s[0] == '_') {
        trim_dots_underscores(s.drop_first())
    } else {
        s
    }
}

/// `trim_dots_underscores` drops a prefix, after which neither a dot nor an
/// underscore leads.
pub proof fn lemma_trim_dots_underscores(s: Seq<char>)
    ensures
        trim_dots_underscores(s).len() <= s.len(),
        trim_dots_underscores(s) == s.skip(s.len() - trim_dots_underscores(s).len()),
        trim_dots_underscores(s).len() > 0 ==> trim_dots_underscores(s)[0] != '.'
            && trim_dots_underscores(s)[0] != '_',
    decreases s.len(),
{
    if s.len() > 0 && (s[0] == '.' || s[0] == '_') {
        lemma_trim_dots_underscores(s.drop_first());
        let t = trim_dots_underscores(s);
        assert(s.drop_first().skip(s.drop_first().len() - t.len()) =~= s.skip(s.len() - t.len()));
    } else {
        assert(s.skip(0) =~= s);
    }
}

/// The stored name of a pasted file: the last path component (or `pasted`),
/// every other character than `[A-Za-z0-9._-]` made `_`, the leading run of
/// dots and underscores removed so no hidden file is made (`pasted` if
/// nothing is left), at most 96 characters.
pub open spec fn spec_clean_file_name(raw: Seq<char>) -> Seq<char> {
    let t = trim_dots_underscores(cleaned_base(raw));
    let f = if t.len() == 0 { "pasted"@ } else { t };
    if f.len() > 96 { f.take(96) } else { f }
}

/// The last path component (or `pasted`) with every character outside
/// `[A-Za-z0-9._-]` made `_`.
pub open spec fn cleaned_base(raw: Seq<char>) -> Seq<char> {
    let base = match path_file_name(raw) {
        Some(n) => n,
        None => "pasted"@,
    };
    base.map_values(|c: char| if safe_file_char(c) { c } else { '_' })
}

/// The file name stamped with a Unix time, so simultaneous pastes differ.
pub open spec fn spec_stamped_filename(ts: u64, raw: Seq<char>) -> Seq<char> {
    decimal(ts as nat) + seq!['-'] + spec_clean_file_name(raw)
}

/// The cleaned name of a pasted file (see [`spec_clean_file_name`]).
pub fn clean_file_name(raw: &str) -> (r: String)
    ensures
        r@ == spec_clean_file_name(raw@),
{
    let base = match file_name(raw) {
        Some(n) => n,
        None => owned("pasted"),
    };
    let bv = chars_of(base.as_str());
    let mut cleaned: Vec<char> = Vec::new();
    let mut i: usize = 0;
    while i < bv.len()
        invariant
            i <= bv@.len(),
            cleaned@ == bv@.take(i as int).map_values(|c: char| if safe_file_char(c) { c } else { '_' }),
        decreases bv.len() - i,
    {
        let c = bv[i];
        let keep = is_ascii_alnum(c) || c == '.' || c == '_' || c == '-';
        cleaned.push(if keep { c } else { '_' });
        assert(bv@.take(i + 1).map_values(|c: char| if safe_file_char(c) { c } else { '_' }) =~= bv@.take(i as int).map_values(|c: char| if safe_file_char(c) { c } else { '_' }).push(if keep { c } else { '_' }));
        i += 1;
    }
    assert(bv@.take(bv@.len() as int) =~= bv@);
    let n = cleaned.len();
    assert(cleaned@.subrange(0, n as int) =~= cleaned@);
    let mut b: usize = 0;
    while b < n && (cleaned[b] == '.' || cleaned[b] == '_')
        invariant
            b <= n == cleaned@.len(),
            trim_dots_underscores(cleaned@) == trim_dots_underscores(cleaned@.subrange(b as int, n as int)),
        decreases n - b,
    {
        assert(cleaned@.subrange(b as int, n as int).drop_first() =~= cleaned@.subrange(b + 1, n as int));
        b += 1;
    }
    let mut out = if b == n {
        owned("pasted")
    } else {
        string_of_range(&cleaned, b, n)
    };
    proof {
        reveal_strlit("pasted");
    }
    if n - b > 96 {
        out = string_of_range(&cleaned, b, b + 96);
        assert(cleaned@.subrange(b as int, n as int).take(96) =~= cleaned@.subrange(b as int, b + 96));
    }
    out
}

/// The stored name for a pasted file at Unix time `ts`.
pub fn stamped_filename(ts: u64, raw: &str) -> (r: String)
    ensures
        r@ == spec_stamped_filename(ts, raw@),
{
    let mut out = String::new();
    push_decimal(&mut out, ts);
    out.push('-');
    let name = clean_file_name(raw);
    push_str(&mut out, name.as_str());
    out
}

/// Whole seconds since the Unix epoch, from `UNIX_EPOCH.elapsed()`; `None`
/// when the clock is set before the epoch. The value depends on the clock
/// and nothing is stated of it.
#[verifier::external_body]
fn secs_since_epoch() -> (r: Option<u64>) {
    match std::time::UNIX_EPOCH.elapsed() {
        Ok(d) => Some(d.as_secs()),
        Err(_) => None,
    }
}

/// Sanitizes a pasted file's name and stamps it with the current Unix time.
pub fn sanitize_filename(raw: &str) -> (r: String)
    ensures
        exists|ts: u64| r@ == spec_stamped_filename(ts, raw@),
{
    let ts = match secs_since_epoch() {
        Some(t) => t,
        None => 0,
    };
    stamped_filename(ts, raw)
}

/// Where a pasted file goes on a remote host, and the shell command that
/// writes its bytes there from standard input.
pub open spec fn spec_remote_paste(sanitized: Seq<char>) -> (Seq<char>, Seq<char>) {
    let path = REMOTE_DIR@ + seq!['/'] + sanitized;
    (path, "mkdir -p "@ + spec_shell_quote(REMOTE_DIR@) + " && cat > "@ + spec_shell_quote(path))
}

/// The remote path and upload command for a sanitized file name.
pub fn remote_paste_command(sanitized: &str) -> (r: (String, String))
    ensures
        (r.0@, r.1@) == spec_remote_paste(sanitized@),
{
    let mut path = owned(REMOTE_DIR);
    path.push('/');
    push_str(&mut path, sanitized);
    let mut cmd = owned("mkdir -p ");
    push_str(&mut cmd, shell_quote(REMOTE_DIR).as_str());
    push_str(&mut cmd, " && cat > ");
    push_str(&mut cmd, shell_quote(path.as_str()).as_str());
    (path, cmd)
}


/// A stored file name is never empty, at most 96 characters long, and made
/// only of `[A-Za-z0-9._-]`: no path separator or shell character survives.
pub proof fn law_clean_file_name(raw: Seq<char>)
    ensures
        1 <= spec_clean_file_name(raw).len() <= 96,
        forall|i: int| 0 <= i < spec_clean_file_name(raw).len()
            ==> safe_file_char(#[trigger] spec_clean_file_name(raw)[i]),
{
    reveal_strlit("pasted");
    let cleaned = cleaned_base(raw);
    assert forall|i: int| 0 <= i < cleaned.len() implies safe_file_char(#[trigger] cleaned[i]) by {}
    let t = trim_dots_underscores(cleaned);
    lemma_trim_dots_underscores(cleaned);
    assert forall|i: int| 0 <= i < t.len() implies safe_file_char(#[trigger] t[i]) by {
        assert(t[i] == cleaned[cleaned.len() - t.len() + i]);
    }
    let f = if t.len() == 0 { "pasted"@ } else { t };
    assert forall|i: int| 0 <= i < f.len() implies safe_file_char(#[trigger] f[i]) by {
        if t.len() == 0 {
            assert(ascii_alnum(f[i]));
        }
    }
}

/// Leading dots are trimmed so no hidden file is created: a stored name
/// never starts with a dot.
pub proof fn law_clean_file_name_not_hidden(raw: Seq<char>)
    ensures
        spec_clean_file_name(raw)[0] != '.',
{
    reveal_strlit("pasted");
    let t = trim_dots_underscores(cleaned_base(raw));
    lemma_trim_dots_underscores(cleaned_base(raw));
}

} // verus!
