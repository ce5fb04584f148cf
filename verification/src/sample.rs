//! The "use a sample app" helper of the onboarding wizard: the folder name
//! check, the `git clone` arguments, and the messages of a failed clone.

use vstd::prelude::*;
use crate::text::{
    chars_of, join, join_strings, owned, push_str, push_string, starts_with, str_starts_with,
    strings_view, trim, trim_str,
};

verus! {

/// The curated starter project, cloneable over HTTPS without credentials.
pub const STARTER_URL: &'static str = "https://github.com/panda-zw/bishop-starter-nextjs.git";

/// Whether `c` occurs in the text.
pub open spec fn has_char(s: Seq<char>, c: char) -> bool {
    exists|i: int| 0 <= i < s.len() && s[i] == c
}

/// Why a folder name is refused, if it is: it must hold something besides
/// whitespace, and be a plain file name (no slash, backslash or leading dot).
pub open spec fn spec_folder_name_error(name: Seq<char>) -> Option<Seq<char>> {
    if trim(name).len() == 0 {
        Some("folder name is required"@)
    } else if has_char(name, '/') || has_char(name, '\\') || starts_with(name, "."@) {
        Some("folder name must be a simple filename (no slashes or leading dot)"@)
    } else {
        None
    }
}

/// Checks the folder name that the clone is written to.
pub fn validate_folder_name(name: &str) -> (r: Result<(), String>)
    ensures
        match r {
            Ok(()) => spec_folder_name_error(name@) is None,
            Err(e) => spec_folder_name_error(name@) == Some(e@),
        },
{
    let t = trim_str(name);
    if chars_of(t.as_str()).len() == 0 {
        return Err(owned("folder name is required"));
    }
    let v = chars_of(name);
    let mut i: usize = 0;
    while i < v.len()
        invariant
            v@ == name@,
            trim(name@).len() != 0,
            i <= v@.len(),
            forall|j: int| 0 <= j < i ==> v@[j] != '/' && v@[j] != '\\',
        decreases v.len() - i,
    {
        if v[i] == '/' || v[i] == '\\' {
            assert(has_char(name@, '/') || has_char(name@, '\\')) by {
                assert(name@[i as int] == v@[i as int]);
            }
            return Err(owned("folder name must be a simple filename (no slashes or leading dot)"));
        }
        i += 1;
    }
    if str_starts_with(name, ".") {
        return Err(owned("folder name must be a simple filename (no slashes or leading dot)"));
    }
    Ok(())
}

/// The arguments of the shallow clone of the starter into `dest`.
pub open spec fn spec_clone_args(dest: Seq<char>) -> Seq<Seq<char>> {
    seq!["clone"@, "--depth"@, "1"@, STARTER_URL@, dest]
}

/// The `git` arguments that clone the starter into `dest`.
pub fn clone_args(dest: &str) -> (r: Vec<String>)
    ensures
        strings_view(r@) == spec_clone_args(dest@),
{
    let mut a: Vec<String> = Vec::new();
    push_string(&mut a, owned("clone"));
    push_string(&mut a, owned("--depth"));
    push_string(&mut a, owned("1"));
    push_string(&mut a, owned(STARTER_URL));
    push_string(&mut a, owned(dest));
    assert(strings_view(a@) =~= spec_clone_args(dest@));
    a
}

/// The message of a failed `git` run: its arguments and trimmed stderr.
pub open spec fn spec_git_error(args: Seq<Seq<char>>, stderr: Seq<char>) -> Seq<char> {
    "git "@ + join(args, " "@) + ": "@ + trim(stderr)
}

/// Reports a `git` run that exited with failure.
pub fn git_error(args: &Vec<String>, stderr: &str) -> (r: String)
    ensures
        r@ == spec_git_error(strings_view(args@), stderr@),
{
    let mut m = owned("git ");
    push_str(&mut m, join_strings(args, " ").as_str());
    push_str(&mut m, ": ");
    push_str(&mut m, trim_str(stderr).as_str());
    m
}

/// The refusal to clone over something that already exists.
pub open spec fn spec_exists_message(dest: Seq<char>) -> Seq<char> {
    dest + " already exists \u{2014} pick a different folder name or remove the existing one"@
}

/// Reports that the clone destination is taken.
pub fn exists_message(dest: &str) -> (r: String)
    ensures
        r@ == spec_exists_message(dest@),
{
    let mut m = owned(dest);
    push_str(&mut m, " already exists \u{2014} pick a different folder name or remove the existing one");
    m
}

} // verus!
