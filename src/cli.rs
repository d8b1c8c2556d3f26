//! The command line of the agent, as plain values.
use crate::text::{trim, trim_str};
use vstd::prelude::*;
use vstd::string::*;

verus! {

/// The arguments of one invocation.
#[derive(Debug, Clone)]
pub struct Cli {
    pub task: String,
    pub config: String,
    pub dry_run: bool,
    pub verbose: u8,
}

/// The log filter for a verbosity count.
pub open spec fn log_level_spec(verbose: u8) -> Seq<char> {
    if verbose == 0 {
        "warn"@
    } else if verbose == 1 {
        "info"@
    } else if verbose == 2 {
        "debug"@
    } else {
        "trace"@
    }
}

impl Cli {
    /// `warn`, `info`, `debug`, then `trace` for three or more `-v`.
    pub fn log_level(&self) -> (r: &'static str)
        ensures
            r@ == log_level_spec(self.verbose),
    {
        match self.verbose {
            0 => "warn",
            1 => "info",
            2 => "debug",
            _ => "trace",
        }
    }
}

/// A task description: trimmed, and refused where nothing is left.
pub fn validate_task(s: &str) -> (r: Result<String, String>)
    ensures
        match r {
            Ok(t) => trim(s@).len() > 0 && t@ == trim(s@),
            Err(m) => trim(s@).len() == 0 && m@ == "task description cannot be empty"@,
        },
{
    let t = trim_str(s);
    if t.as_str().unicode_len() == 0 {
        Err(String::from_str("task description cannot be empty"))
    } else {
        Ok(t)
    }
}

/// The API key the environment gives: an empty value counts as none.
pub fn api_key_from_env(value: Option<String>) -> (r: Option<String>)
    ensures
        r == match value {
            Some(v) => if v@.len() == 0 {
                None
            } else {
                Some(v)
            },
            None => None,
        },
{
    match value {
        Some(v) => if v.as_str().unicode_len() == 0 {
            None
        } else {
            Some(v)
        },
        None => None,
    }
}

} // verus!
