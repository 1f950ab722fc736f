//! The commands that run on the remote host when the tunnel comes up and
//! before it goes down, one after another.

use vstd::prelude::*;
use crate::config::VpnConfig;
use crate::transport::{ExecResult, Failure, TransportError};

verus! {

/// What the runner of the `post_up` commands does next.
#[derive(Debug)]
pub enum PostUpStep {
    /// Run the command at `index`.
    Run { index: usize, command: String },
    /// Every command ran and ended with status zero.
    Finished,
    /// A command failed: the startup is over, with this error.
    Failed(TransportError),
}

/// How a command that was run has failed, if it has: it could not be run,
/// or it ended with a status other than zero.
pub open spec fn hook_failure(last: Option<Result<ExecResult, TransportError>>) -> Option<Failure> {
    match last {
        Some(Err(e)) => Some(e@),
        Some(Ok(result)) => if result.exit_code != 0 {
            Some(Failure::CommandFailed { exit_code: result.exit_code })
        } else {
            None
        },
        None => None,
    }
}

/// Decides the next step of the `post_up` commands. `completed` counts the
/// commands that were run, and `last` is the outcome of the one run last,
/// `None` before the first. The first command that fails ends the run; the
/// commands after it are not run.
pub fn run_post_up(
    config: &VpnConfig,
    completed: usize,
    last: Option<Result<ExecResult, TransportError>>,
) -> (step: PostUpStep)
    ensures
        match step {
            PostUpStep::Failed(e) => hook_failure(last) == Some(e@),
            PostUpStep::Run { index, command } => hook_failure(last).is_none() && index
                == completed && completed < config@.post_up.len() && command@
                == config@.post_up[completed as int],
            PostUpStep::Finished => hook_failure(last).is_none() && completed
                >= config@.post_up.len(),
        },
{
    match last {
        Some(Err(e)) => {
            return PostUpStep::Failed(e);
        },
        Some(Ok(result)) => {
            if result.exit_code != 0 {
                return PostUpStep::Failed(
                    TransportError::CommandFailed { exit_code: result.exit_code },
                );
            }
        },
        None => {},
    }
    if completed < config.post_up.len() {
        PostUpStep::Run { index: completed, command: config.post_up[completed].clone() }
    } else {
        PostUpStep::Finished
    }
}

/// What the runner of the `pre_down` commands does next.
#[derive(Debug)]
pub struct PreDownStep {
    /// Whether the command run last has failed. A failure is for the log
    /// only: the commands after it are run all the same.
    pub last_failed: bool,
    /// The command to run next, with its place in the list; `None` when all
    /// commands were run.
    pub next: Option<(usize, String)>,
}

/// Decides the next step of the `pre_down` commands. `completed` counts the
/// commands that were run, and `last` is the outcome of the one run last,
/// `None` before the first. No failure ends the run.
pub fn run_pre_down(
    config: &VpnConfig,
    completed: usize,
    last: Option<Result<ExecResult, TransportError>>,
) -> (step: PreDownStep)
    ensures
        step.last_failed == hook_failure(last).is_some(),
        step.next.is_some() <==> completed < config@.pre_down.len(),
        step.next matches Some(next) ==> next.0 == completed && next.1@
            == config@.pre_down[completed as int],
{
    let last_failed = match last {
        Some(Err(_)) => true,
        Some(Ok(result)) => result.exit_code != 0,
        None => false,
    };
    let next = if completed < config.pre_down.len() {
        Some((completed, config.pre_down[completed].clone()))
    } else {
        None
    };
    PreDownStep { last_failed, next }
}

} // verus!
