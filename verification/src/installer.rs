//! The idempotent installer: for one named unit of work, decide from its
//! presence check whether its install command must run, and conclude the
//! unit's outcome from what happened.
//!
//! The package identity used for the presence check is the last
//! whitespace-separated token of the unit's install command; install
//! commands must therefore end with the bare package identifier.

use vstd::prelude::*;
use vstd::string::*;
use crate::presence::listing_has;
use crate::presence::package_listed;
use crate::profile::ensure_line_marked_spec;
use crate::text::contains_seq;
use crate::text::contains_str;
use crate::text::has_token;
use crate::text::is_space;
use crate::text::is_space_char;
use crate::text::last_token_spec;
use crate::text::lemma_last_token_at;
use crate::text::lemma_tail_run_index;
use crate::text::to_chars;

verus! {

/// What the installer decides for one unit of work.
#[derive(Clone, Copy, Debug, PartialEq, Eq, Structural)]
pub enum UnitAction {
    /// The presence check is satisfied: nothing runs.
    Skip,
    /// The unit's install command must run.
    RunInstall,
}

/// The installer's decision rule: a satisfied check skips the command.
pub open spec fn unit_action_spec(satisfied: bool) -> UnitAction {
    if satisfied {
        UnitAction::Skip
    } else {
        UnitAction::RunInstall
    }
}

/// Decides whether a unit's install command must run.  A unit whose
/// presence check is satisfied never reaches the command runner.
pub fn plan_unit(satisfied: bool) -> (a: UnitAction)
    ensures
        a == unit_action_spec(satisfied),
{
    if satisfied {
        UnitAction::Skip
    } else {
        UnitAction::RunInstall
    }
}

/// A unit succeeds when it was already satisfied or its command ran and
/// reported success.
pub open spec fn unit_outcome_spec(satisfied: bool, run_result: Option<bool>) -> bool {
    satisfied || run_result == Some(true)
}

/// Concludes one unit.  `run_result` is `None` exactly when no command was
/// planned, that is, when the unit was already satisfied.
pub fn conclude_unit(satisfied: bool, run_result: Option<bool>) -> (ok: bool)
    requires
        satisfied <==> run_result is None,
    ensures
        ok == unit_outcome_spec(satisfied, run_result),
{
    match run_result {
        None => true,
        Some(ran_ok) => ran_ok,
    }
}

/// Re-running the installer for a unit whose presence check holds both
/// times plans no command on either run: the command runner is never
/// invoked for it again.
pub proof fn lemma_installer_idempotent(first_check: bool, second_check: bool)
    requires
        first_check,
        second_check,
    ensures
        unit_action_spec(first_check) == UnitAction::Skip,
        unit_action_spec(second_check) == UnitAction::Skip,
{
}

/// The package identity of an install command: its last
/// whitespace-separated token.  `None` when the command has no token.
pub fn package_identity(command: &str) -> (r: Option<String>)
    ensures
        match r {
            Some(t) => has_token(command@) && t@ == last_token_spec(command@),
            None => !has_token(command@),
        },
{
    let chars = to_chars(command);
    let n = chars.len();
    let mut e: usize = n;
    while e > 0 && is_space(chars[e - 1])
        invariant
            chars@ == command@,
            n == chars@.len(),
            e <= n,
            forall|j: int| e <= j < n ==> is_space_char(command@[j]),
        decreases e,
    {
        e -= 1;
    }
    if e == 0 {
        proof {
            assert forall|i: int| 0 <= i < command@.len() implies is_space_char(
                command@[i],
            ) by {}
        }
        return None;
    }
    let last = e - 1;
    let mut b: usize = last;
    while b > 0 && !is_space(chars[b - 1])
        invariant
            chars@ == command@,
            n == chars@.len(),
            b <= last < n,
            forall|j: int| b <= j <= last ==> !is_space_char(command@[j]),
        decreases b,
    {
        b -= 1;
    }
    let token = command.substring_char(b, e);
    proof {
        lemma_last_token_at(command@, last as int);
        lemma_tail_run_index(command@.take(last as int + 1), b as int);
        assert(command@.take(last as int + 1).subrange(b as int, last as int + 1)
            =~= command@.subrange(b as int, e as int));
        assert(0 <= last < command@.len() && !is_space_char(command@[last as int]));
        assert(has_token(command@));
    }
    Some(token.to_owned())
}

/// Whether the package named by `command`'s last token is absent from the
/// package manager's listing.  `None` when the command has no token at
/// all, so no identity can be derived.
pub fn app_needs_install(command: &str, listing: &Option<String>) -> (r: Option<bool>)
    ensures
        match r {
            Some(needs) => has_token(command@) && needs == !(match listing {
                Some(l) => listing_has(l@, last_token_spec(command@)),
                None => false,
            }),
            None => !has_token(command@),
        },
{
    match package_identity(command) {
        None => None,
        Some(name) => Some(!package_listed(listing, name.as_str())),
    }
}

/// The contents of a file that was read, an absent file reading as empty.
pub open spec fn file_view(f: Option<String>) -> Seq<char> {
    match f {
        Some(c) => c@,
        None => Seq::empty(),
    }
}

/// The profile line that puts `path` on the search path.
pub open spec fn export_line_spec(path: Seq<char>) -> Seq<char> {
    "export PATH=\""@ + path + ":$PATH\""@
}

/// Builds the profile line that puts `path` on the search path.
pub fn export_line(path: &str) -> (r: String)
    ensures
        r@ == export_line_spec(path@),
{
    let mut r = "export PATH=\"".to_owned();
    r.append(path);
    r.append(":$PATH\"");
    r
}

/// The marker comment written above an appended export line.
pub open spec fn path_marker_spec() -> Seq<char> {
    "# Añadido por setup_macos"@
}

/// What to do about an application's PATH entry.
#[derive(Debug)]
pub enum PathPlan {
    /// The application configures no path or no executable: nothing to do.
    NoExportConfigured,
    /// Its executable already resolves on the search path.
    ExecutableOnPath,
    /// The profile already holds the export line.
    LineAlreadyPresent,
    /// The profile must become this content (the export line appended
    /// behind a marker comment).
    AppendExport(String),
}

/// Decides the idempotent PATH export for one application.
/// `on_search_path` is the observed result of resolving the executable;
/// `profile` is the shell profile's content, `None` when the file is
/// absent.
pub fn plan_path_export(
    path: &Option<String>,
    executable: &Option<String>,
    on_search_path: bool,
    profile: &Option<String>,
) -> (r: PathPlan)
    ensures
        match (path, executable) {
            (Some(p), Some(_)) => {
                if on_search_path {
                    r is ExecutableOnPath
                } else if contains_seq(file_view(*profile), export_line_spec(p@)) {
                    r is LineAlreadyPresent
                } else {
                    r matches PathPlan::AppendExport(c) && c@ == ensure_line_marked_spec(
                        file_view(*profile),
                        path_marker_spec(),
                        export_line_spec(p@),
                    )
                }
            },
            _ => r is NoExportConfigured,
        },
{
    match (path, executable) {
        (Some(p), Some(_)) => {
            if on_search_path {
                PathPlan::ExecutableOnPath
            } else {
                let line = export_line(p.as_str());
                let content: &str = match profile {
                    Some(c) => c.as_str(),
                    None => "",
                };
                proof {
                    reveal_strlit("");
                    assert(content@ =~= file_view(*profile));
                }
                if contains_str(content, line.as_str()) {
                    PathPlan::LineAlreadyPresent
                } else {
                    let updated = crate::profile::ensure_line_marked(
                        content,
                        "# Añadido por setup_macos",
                        line.as_str(),
                    );
                    PathPlan::AppendExport(updated)
                }
            }
        },
        _ => PathPlan::NoExportConfigured,
    }
}

} // verus!
