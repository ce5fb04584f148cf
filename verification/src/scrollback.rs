//! Per-host scrollback persistence: the file name for a host key and the
//! payload handed to the frontend.

use vstd::prelude::*;
use crate::codec::{b64_encode, b64_encoded};
use crate::text::{
    ascii_alnum, ascii_lower, to_ascii_lower_char, chars_of, is_ascii_alnum, push_str, string_of,
};

verus! {

/// A saved scrollback for the frontend.
#[derive(Debug)]
pub struct Scrollback {
    /// Raw bytes of the scrollback, base64-encoded; empty if none.
    pub data: String,
    /// Unix seconds of the last save, or 0 if there was no prior session.
    pub saved_at: u64,
}

/// A character kept in a session file name.
pub open spec fn session_char(c: char) -> bool {
    ascii_alnum(c) || c == '-' || c == '_' || c == '.' || c == '@'
}

/// A host key's character in its file name: kept characters in ASCII
/// lowercase, every other character `_`.
pub open spec fn session_file_char(c: char) -> char {
    if session_char(c) { ascii_lower(c) } else { '_' }
}

/// A host key made safe as a file name: lowercase, alphanumerics and
/// `-_.@` kept, other characters made `_`, at most 160 characters.
pub open spec fn spec_sanitize(key: Seq<char>) -> Seq<char> {
    let m = key.map_values(|c: char| session_file_char(c));
    if m.len() > 160 { m.take(160) } else { m }
}

/// Keeps file names safe: lowercase, alphanumerics and `-_.@` only, at most
/// 160 characters.
pub fn sanitize(key: &str) -> (r: String)
    ensures
        r@ == spec_sanitize(key@),
{
    let v = chars_of(key);
    let mut out: Vec<char> = Vec::new();
    let mut i: usize = 0;
    while i < v.len() && i < 160
        invariant
            i <= v@.len(),
            i <= 160,
            v@ == key@,
            out@ == v@.take(i as int).map_values(|c: char| session_file_char(c)),
        decreases v.len() - i,
    {
        let c = v[i];
        let keep = is_ascii_alnum(c) || c == '-' || c == '_' || c == '.' || c == '@';
        let d = if keep { to_ascii_lower_char(c) } else { '_' };
        out.push(d);
        assert(v@.take(i + 1).map_values(|c: char| session_file_char(c)) =~= v@.take(i as int).map_values(|c: char| session_file_char(c)).push(d));
        i += 1;
    }
    assert(spec_sanitize(key@) =~= v@.take(i as int).map_values(|c: char| session_file_char(c)));
    string_of(out.as_slice())
}

/// The file that holds the scrollback of a host key.
pub open spec fn spec_session_file_name(key: Seq<char>) -> Seq<char> {
    spec_sanitize(key) + ".txt"@
}

/// The file name (in the sessions directory) for a host key.
pub fn session_file_name(key: &str) -> (r: String)
    ensures
        r@ == spec_session_file_name(key@),
{
    let mut s = sanitize(key);
    push_str(&mut s, ".txt");
    s
}

/// The scrollback for the frontend: empty and 0 when no file was saved,
/// else the file's bytes base64-encoded with its save time.
pub fn scrollback_from_file(contents: Option<Vec<u8>>, saved_at: u64) -> (r: Scrollback)
    ensures
        match contents {
            None => r.data@.len() == 0 && r.saved_at == 0,
            Some(b) => r.data@ == b64_encoded(b@) && r.saved_at == saved_at,
        },
{
    match contents {
        None => Scrollback { data: String::new(), saved_at: 0 },
        Some(b) => Scrollback { data: b64_encode(b.as_slice()), saved_at },
    }
}


/// A session file name stem is at most 160 characters of `[a-z0-9._@-]`:
/// no path separator, and no uppercase letter.
pub proof fn law_sanitize(key: Seq<char>)
    ensures
        spec_sanitize(key).len() <= 160,
        forall|i: int| 0 <= i < spec_sanitize(key).len() ==> {
            let c = #[trigger] spec_sanitize(key)[i];
            session_char(c) && !('A' <= c && c <= 'Z')
        },
{
    let m = key.map_values(|c: char| session_file_char(c));
    assert forall|i: int| 0 <= i < m.len() implies ({
        let c = #[trigger] m[i];
        session_char(c) && !('A' <= c && c <= 'Z')
    }) by {
        let k = key[i];
        if session_char(k) && 'A' <= k && k <= 'Z' {
            assert(ascii_lower(k) == ((k as u32) + 32) as char);
            assert('a' <= ascii_lower(k) && ascii_lower(k) <= 'z');
        }
    }
}

} // verus!
