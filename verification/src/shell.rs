//! Trusted boundary to the `subprocess` crate, for the optional vars
//! command a request may name.
use vstd::prelude::*;

verus! {

/// Relies on `subprocess::Exec`: run `cmd` as a program, feed
/// `stdin_text` on its standard input, and collect its standard output;
/// `None` when the program cannot be started or its output cannot be
/// read.  What comes back depends on the outside program, so nothing is
/// promised of it.
#[verifier::external_body]
pub fn run_command_capture(cmd: &str, stdin_text: &str) -> (r: Option<String>) {
    let run = subprocess::Exec::cmd(cmd).stdin(stdin_text.to_owned()).stdout(
        subprocess::Redirection::Pipe,
    ).capture();
    match run {
        Ok(c) => Some(c.stdout_str()),
        Err(_) => None,
    }
}

} // verus!
