//! The ssh connectivity probe of the onboarding wizard: `uname -a` on the
//! host, and its outcome in the shape the frontend renders.

use vstd::prelude::*;
use crate::errors::{first_match, match_error, spec_catalog, spec_to_bishop, string_opt_view, BishopError};
use crate::text::{trim, trim_str};

verus! {

/// The remote command of the probe: cheap, everywhere, and its output
/// tells the user which machine answered.
pub const PROBE_COMMAND: &'static str = "uname -a";

/// The outcome of the probe. On success `message` holds what the host
/// printed; on failure `raw` holds the error text and `error` its catalog
/// entry when the text is recognized.
#[derive(Debug, Clone)]
pub struct SshTestResult {
    pub ok: bool,
    pub message: Option<String>,
    pub error: Option<BishopError>,
    pub raw: Option<String>,
}

/// The probe's result from the ssh run's output or error text.
pub fn ssh_test_result(outcome: Result<String, String>) -> (r: SshTestResult)
    ensures
        match outcome {
            Ok(out) => r.ok && string_opt_view(r.message) == Some(trim(out@)) && r.error is None
                && r.raw is None,
            Err(raw) => !r.ok && r.message is None && string_opt_view(r.raw) == Some(raw@)
                && match r.error {
                    Some(e) => first_match(spec_catalog(), raw@) matches Some(c) && e@ == spec_to_bishop(c, raw@),
                    None => first_match(spec_catalog(), raw@) is None,
                },
        },
{
    match outcome {
        Ok(out) => SshTestResult {
            ok: true,
            message: Some(trim_str(out.as_str())),
            error: None,
            raw: None,
        },
        Err(raw) => {
            let error = match_error(raw.as_str());
            SshTestResult { ok: false, message: None, error, raw: Some(raw) }
        },
    }
}

} // verus!
