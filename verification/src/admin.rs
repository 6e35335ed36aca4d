//! Privilege elevation: what a relaunch request answers.
//!
//! Checking the process token and asking the shell to start an elevated
//! copy are done by the application.

use vstd::prelude::*;

use crate::text::{concat2, signed_decimal, signed_decimal_string};

verus! {

/// Relaunching elevated is only implemented on Windows; elsewhere the
/// request fails with this message.
pub fn relaunch_as_admin() -> (res: Result<bool, String>)
    ensures
        res matches Err(e) && e@ == "elevated relaunch is only implemented on Windows"@,
{
    Err(String::from_str("elevated relaunch is only implemented on Windows"))
}

/// The answer to a relaunch from the code that `ShellExecuteW` returned:
/// above 32 the elevated copy is starting; 5 (access denied) means the
/// user declined the prompt; anything else is an error.
pub fn shell_execute_outcome(code: i64) -> (res: Result<bool, String>)
    ensures
        code > 32 ==> res == Ok::<bool, String>(true),
        code == 5 ==> res == Ok::<bool, String>(false),
        code <= 32 && code != 5 ==> (res matches Err(e) && e@ == "ShellExecuteW returned "@
            + signed_decimal(code as int)),
{
    if code > 32 {
        Ok(true)
    } else if code == 5 {
        Ok(false)
    } else {
        let n = signed_decimal_string(code);
        Err(concat2("ShellExecuteW returned ", n.as_str()))
    }
}

} // verus!
