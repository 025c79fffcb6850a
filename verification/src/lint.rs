use vstd::prelude::*;

use crate::diag::Severity;

verus! {

/// The label the linter prints for a severity.
pub fn severity_label(sev: Severity) -> (r: &'static str)
    ensures
        sev is Error ==> r@ == "Error"@,
        sev is Warning ==> r@ == "Warning"@,
        sev is Information ==> r@ == "Info"@,
        sev is Hint ==> r@ == "Hint"@,
{
    match sev {
        Severity::Error => "Error",
        Severity::Warning => "Warning",
        Severity::Information => "Info",
        Severity::Hint => "Hint",
    }
}

/// The linter's process exit code: zero exactly when every file could
/// be read and no file produced a diagnostic.
pub fn lint_exit_code(any_read_failure: bool, any_diagnostic: bool) -> (code: i32)
    ensures
        (code == 1i32) <==> (any_read_failure || any_diagnostic),
        code == 0i32 || code == 1i32,
{
    if any_read_failure || any_diagnostic {
        1
    } else {
        0
    }
}

} // verus!
