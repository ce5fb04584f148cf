//! 1Password through the local `op` CLI: the probe results, the check of a
//! secret reference, and the value read for it. Credentials are never stored.

use vstd::prelude::*;
use crate::text::{chars_of, owned, starts_with, str_starts_with, string_of_range, trim, trim_str};

verus! {

/// Whether the `op` CLI is installed and has an active session.
#[derive(Debug, Clone, Copy)]
pub struct OpStatus {
    pub installed: bool,
    pub signed_in: bool,
}

impl OpStatus {
    /// The status from the probes: `op --version` succeeded, and `op whoami`
    /// succeeded (it is only asked once the CLI is known to be installed).
    pub fn from_probes(installed: bool, whoami_ok: bool) -> (r: OpStatus)
        ensures
            r.installed == installed,
            r.signed_in == (installed && whoami_ok),
    {
        if !installed {
            return OpStatus { installed: false, signed_in: false };
        }
        OpStatus { installed, signed_in: whoami_ok }
    }
}

/// A secret reference names a vault item field: `op://Vault/Item/field`.
pub open spec fn valid_op_reference(reference: Seq<char>) -> bool {
    starts_with(reference, "op://"@)
}

/// Refuses what is not an `op://` reference before `op read` is run.
pub fn check_op_reference(reference: &str) -> (r: Result<(), String>)
    ensures
        r is Ok <==> valid_op_reference(reference@),
        r matches Err(e) ==> e@ == "reference must start with op://"@,
{
    if str_starts_with(reference, "op://") {
        Ok(())
    } else {
        Err(owned("reference must start with op://"))
    }
}

/// The text without the `\n` and `\r` characters at its end.
pub open spec fn trim_end_newlines(s: Seq<char>) -> Seq<char>
    decreases s.len(),
{
    if s.len() > 0 && (s.last() == '\n' || s.last() == '\r') {
        trim_end_newlines(s.drop_last())
    } else {
        s
    }
}

/// The secret that `op read` printed, or its trimmed complaint on failure.
pub open spec fn spec_op_read_result(success: bool, stdout: Seq<char>, stderr: Seq<char>) -> Result<Seq<char>, Seq<char>> {
    if success {
        Ok(trim_end_newlines(stdout))
    } else {
        Err(trim(stderr))
    }
}

/// The outcome of `op read`: the value without the newline `op` appends,
/// or the error it printed.
pub fn op_read_result(success: bool, stdout: &str, stderr: &str) -> (r: Result<String, String>)
    ensures
        match r {
            Ok(v) => spec_op_read_result(success, stdout@, stderr@) == Ok::<Seq<char>, Seq<char>>(v@),
            Err(e) => spec_op_read_result(success, stdout@, stderr@) == Err::<Seq<char>, Seq<char>>(e@),
        },
{
    if !success {
        return Err(trim_str(stderr));
    }
    let v = chars_of(stdout);
    let mut n = v.len();
    assert(v@.take(n as int) =~= v@);
    while n > 0 && (v[n - 1] == '\n' || v[n - 1] == '\r')
        invariant
            n <= v@.len(),
            trim_end_newlines(v@) == trim_end_newlines(v@.take(n as int)),
        decreases n,
    {
        assert(v@.take(n as int).drop_last() =~= v@.take(n - 1));
        n -= 1;
    }
    Ok(string_of_range(&v, 0, n))
}

} // verus!
