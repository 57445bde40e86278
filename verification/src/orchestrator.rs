//! The orchestrator: the fixed sequence of provisioning phases and the
//! fatal/recoverable split.
//!
//! Failures in the prerequisite and shell-framework phases abort the
//! whole run with exit code 1; every later phase is best-effort and the
//! run continues whatever its outcome.

use vstd::prelude::*;

verus! {

/// The phases of one run, in their fixed order.
#[derive(Clone, Copy, Debug, PartialEq, Eq, Structural)]
pub enum Phase {
    /// Verify or install the package manager (fatal on failure).
    PackageManager,
    /// Verify or install the version-control tool (fatal on failure).
    VersionControl,
    /// Install and configure the shell framework (fatal on failure; its
    /// theme and plugin sub-steps are best-effort).
    ShellFramework,
    /// Offer global version-control identity configuration (optional).
    GitIdentity,
    /// Run the credential provisioner (never fatal).
    SshSetup,
    /// Select applications and install each (never fatal per application).
    Applications,
    /// Offer the cosmetic system-preference toggle (optional).
    Cosmetic,
    /// Print completion and offer the shell restart.
    Finished,
    /// A fatal step failed: the run stops with a diagnostic.
    Aborted,
}

/// The phases whose failure aborts the whole run.
pub open spec fn fatal_phase(p: Phase) -> bool {
    p == Phase::PackageManager || p == Phase::VersionControl || p == Phase::ShellFramework
}

/// A phase after which no provisioning step follows.
pub open spec fn terminal_phase(p: Phase) -> bool {
    p == Phase::Finished || p == Phase::Aborted
}

/// The successor of each phase: fatal phases abort on failure, the rest
/// advance whatever happened.
pub open spec fn next_phase_spec(p: Phase, step_ok: bool) -> Phase {
    match p {
        Phase::PackageManager => if step_ok {
            Phase::VersionControl
        } else {
            Phase::Aborted
        },
        Phase::VersionControl => if step_ok {
            Phase::ShellFramework
        } else {
            Phase::Aborted
        },
        Phase::ShellFramework => if step_ok {
            Phase::GitIdentity
        } else {
            Phase::Aborted
        },
        Phase::GitIdentity => Phase::SshSetup,
        Phase::SshSetup => Phase::Applications,
        Phase::Applications => Phase::Cosmetic,
        Phase::Cosmetic => Phase::Finished,
        Phase::Finished => Phase::Finished,
        Phase::Aborted => Phase::Aborted,
    }
}

/// Advances the run by one phase.  Only a fatal phase can abort: any
/// other phase proceeds whatever `step_ok` reports.
pub fn next_phase(p: Phase, step_ok: bool) -> (r: Phase)
    ensures
        r == next_phase_spec(p, step_ok),
        !fatal_phase(p) ==> r != Phase::Aborted || p == Phase::Aborted,
{
    match p {
        Phase::PackageManager => if step_ok {
            Phase::VersionControl
        } else {
            Phase::Aborted
        },
        Phase::VersionControl => if step_ok {
            Phase::ShellFramework
        } else {
            Phase::Aborted
        },
        Phase::ShellFramework => if step_ok {
            Phase::GitIdentity
        } else {
            Phase::Aborted
        },
        Phase::GitIdentity => Phase::SshSetup,
        Phase::SshSetup => Phase::Applications,
        Phase::Applications => Phase::Cosmetic,
        Phase::Cosmetic => Phase::Finished,
        Phase::Finished => Phase::Finished,
        Phase::Aborted => Phase::Aborted,
    }
}

/// The process exit code a run ends with: 1 after an abort, 0 otherwise
/// (success and every graceful decline).
pub open spec fn exit_code_spec(p: Phase) -> int {
    if p == Phase::Aborted {
        1
    } else {
        0
    }
}

/// The exit code of a finished run.
pub fn exit_code(p: Phase) -> (r: i32)
    ensures
        r as int == exit_code_spec(p),
{
    match p {
        Phase::Aborted => 1,
        _ => 0,
    }
}

/// A failing shell-framework install aborts the whole run: the next
/// phase is the terminal abort, nothing the program reports thereafter
/// leaves it, and the run exits with code 1 - no further provisioning
/// phase is ever reached.
pub proof fn lemma_shell_framework_failure_aborts(later_report: bool)
    ensures
        next_phase_spec(Phase::ShellFramework, false) == Phase::Aborted,
        terminal_phase(Phase::Aborted),
        next_phase_spec(Phase::Aborted, later_report) == Phase::Aborted,
        exit_code_spec(Phase::Aborted) == 1,
{
}

} // verus!
