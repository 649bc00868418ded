//! Shell scripts that run before and after a registration, and how their
//! outcome is judged.
use vstd::prelude::*;

use crate::text::concat;

verus! {

/// The scripts to run around a registration; an empty script is not run.
pub struct RegistrationHooks {
    pub pre_register: String,
    pub post_register: String,
}

impl RegistrationHooks {
    /// Hooks that run nothing.
    pub fn new() -> (res: RegistrationHooks)
        ensures
            res.pre_register@ == Seq::<char>::empty(),
            res.post_register@ == Seq::<char>::empty(),
    {
        RegistrationHooks { pre_register: String::new(), post_register: String::new() }
    }
}

/// What a finished script left behind.
pub struct ProcessOutput {
    /// Whether it exited successfully.
    pub success: bool,
    /// Its standard output.
    pub stdout: String,
    /// Its standard error.
    pub stderr: String,
    /// Its exit status, as text.
    pub status: String,
}

/// A script that did not exit successfully.
pub struct HookError {
    /// The script's standard error followed by its standard output.
    pub output: String,
    /// The script's exit status, as text.
    pub exit_code: String,
}

impl HookError {
    /// The error's message: the exit status, a space and the output.
    pub fn message(&self) -> (res: String)
        ensures
            res@ == self.exit_code@ + seq![' '] + self.output@,
    {
        let mut s = concat(self.exit_code.as_str(), " ");
        s.append(self.output.as_str());
        proof {
            reveal_strlit(" ");
        }
        s
    }
}

/// Whether a hook has a script to run: a hook without one succeeds with an
/// empty output.
pub fn hook_command_is_set(command: &str) -> (res: bool)
    ensures
        res == (command@.len() > 0),
{
    !command.is_empty()
}

/// The outcome of a hook whose script ran: its standard output where it
/// succeeded, else an error that holds its standard error followed by its
/// standard output, and its exit status.
pub fn hook_result(output: ProcessOutput) -> (res: Result<String, HookError>)
    ensures
        match res {
            Ok(s) => output.success && s@ == output.stdout@,
            Err(e) => !output.success && e.output@ == output.stderr@ + output.stdout@
                && e.exit_code@ == output.status@,
        },
{
    if output.success {
        Ok(output.stdout)
    } else {
        let text = concat(output.stderr.as_str(), output.stdout.as_str());
        Err(HookError { output: text, exit_code: output.status })
    }
}

} // verus!
