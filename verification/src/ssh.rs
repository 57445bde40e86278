//! The credential provisioner: one state machine per run.
//!
//! Every step that depends on the remote service degrades to printing
//! manual registration instructions instead of aborting; credential setup
//! is a convenience, not a prerequisite.  The surrounding program performs
//! each state's action and reports the outcome back as an event.

use vstd::prelude::*;
use vstd::string::*;
use crate::text::contains_seq;
use crate::text::match_at;

verus! {

/// The states of one provisioning run.
#[derive(Clone, Copy, Debug, PartialEq, Eq, Structural)]
pub enum SshState {
    /// No key pair sits at the fixed path.
    KeyMissing,
    /// A key pair already sits at the fixed path.
    KeyExists,
    /// The user declined generation; the sub-flow ends.
    Skipped,
    /// Key generation ran and failed; the sub-flow ends.
    GenerationFailed,
    /// A fresh key pair was generated.
    KeyGenerated,
    /// The user kept the existing key pair.
    KeyReused,
    /// The client configuration block is in place and restricted.
    ConfigReady,
    /// The public key file is missing; the sub-flow ends.
    PublicKeyMissing,
    /// The public key is on disk; the remote's status must be checked.
    AwaitingAuthStatus,
    /// The remote reported no authentication; a login must be attempted.
    LoginNeeded,
    /// The remote session is authenticated.
    Authenticated,
    /// A login could not be had; manual instructions are owed.
    ManualNeeded,
    /// Registration with the remote failed; manual instructions are owed.
    RegistrationFailed,
    /// Manual registration instructions were printed; the sub-flow ends.
    ManualFallback,
    /// The key was registered with the remote host.
    KeyRegistered,
    /// The connectivity probe confirmed authentication.
    ConnectionVerified,
    /// The connectivity probe could not confirm authentication.
    ConnectionUnverified,
}

/// What the surrounding program reports back after performing an action.
#[derive(Clone, Copy, Debug, PartialEq, Eq, Structural)]
pub enum SshEvent {
    /// The user declined generation.  (An empty e-mail at the comment
    /// prompt ends the whole sub-flow instead and raises no event.)
    DeclinedGeneration,
    /// Key generation ran with this outcome.
    GenerationAttempted(bool),
    /// The client configuration block was ensured and restricted.
    ConfigEnsured,
    /// The public key file was looked for: does it exist?
    PublicKeyChecked(bool),
    /// The remote's authentication status was checked: authenticated?
    AuthChecked(bool),
    /// An interactive login ran with this outcome.
    LoginAttempted(bool),
    /// Key registration ran with this outcome.
    RegistrationAttempted(bool),
    /// Manual registration instructions were printed.
    InstructionsShown,
    /// The connectivity probe ran: did it confirm authentication?
    ProbeCompleted(bool),
}

/// What the surrounding program must do next in a given state.
#[derive(Clone, Copy, Debug, PartialEq, Eq, Structural)]
pub enum SshAction {
    /// Ask whether to generate a key, and generate on assent.
    AskGeneration,
    /// Ask whether to overwrite the existing key, and generate on assent.
    AskRegeneration,
    /// Idempotently append the client configuration block and restrict
    /// its permissions.
    EnsureClientConfig,
    /// Check that the public key file exists.
    VerifyPublicKey,
    /// Check the remote's authentication status.
    CheckAuthStatus,
    /// Attempt an interactive login.
    AttemptLogin,
    /// Register the public key with the remote host.
    RegisterKey,
    /// Print the public key and the manual registration steps.
    ShowManualSteps,
    /// Probe connectivity to the remote host and report the result.
    ProbeConnection,
}

/// The transition relation.  An event that does not belong to the state
/// leaves it unchanged.
pub open spec fn ssh_step_spec(s: SshState, e: SshEvent) -> SshState {
    match (s, e) {
        (SshState::KeyMissing, SshEvent::DeclinedGeneration) => SshState::Skipped,
        (SshState::KeyMissing, SshEvent::GenerationAttempted(ok)) => if ok {
            SshState::KeyGenerated
        } else {
            SshState::GenerationFailed
        },
        (SshState::KeyExists, SshEvent::DeclinedGeneration) => SshState::KeyReused,
        (SshState::KeyExists, SshEvent::GenerationAttempted(ok)) => if ok {
            SshState::KeyGenerated
        } else {
            SshState::GenerationFailed
        },
        (SshState::KeyGenerated, SshEvent::ConfigEnsured) => SshState::ConfigReady,
        (SshState::KeyReused, SshEvent::ConfigEnsured) => SshState::ConfigReady,
        (SshState::ConfigReady, SshEvent::PublicKeyChecked(found)) => if found {
            SshState::AwaitingAuthStatus
        } else {
            SshState::PublicKeyMissing
        },
        (SshState::AwaitingAuthStatus, SshEvent::AuthChecked(authed)) => if authed {
            SshState::Authenticated
        } else {
            SshState::LoginNeeded
        },
        (SshState::LoginNeeded, SshEvent::LoginAttempted(ok)) => if ok {
            SshState::Authenticated
        } else {
            SshState::ManualNeeded
        },
        (SshState::Authenticated, SshEvent::RegistrationAttempted(ok)) => if ok {
            SshState::KeyRegistered
        } else {
            SshState::RegistrationFailed
        },
        (SshState::ManualNeeded, SshEvent::InstructionsShown) => SshState::ManualFallback,
        (SshState::RegistrationFailed, SshEvent::InstructionsShown) => SshState::ManualFallback,
        (SshState::KeyRegistered, SshEvent::ProbeCompleted(ok)) => if ok {
            SshState::ConnectionVerified
        } else {
            SshState::ConnectionUnverified
        },
        _ => s,
    }
}

/// The action owed in each state; `None` for the terminal states.
pub open spec fn ssh_action_spec(s: SshState) -> Option<SshAction> {
    match s {
        SshState::KeyMissing => Some(SshAction::AskGeneration),
        SshState::KeyExists => Some(SshAction::AskRegeneration),
        SshState::KeyGenerated => Some(SshAction::EnsureClientConfig),
        SshState::KeyReused => Some(SshAction::EnsureClientConfig),
        SshState::ConfigReady => Some(SshAction::VerifyPublicKey),
        SshState::AwaitingAuthStatus => Some(SshAction::CheckAuthStatus),
        SshState::LoginNeeded => Some(SshAction::AttemptLogin),
        SshState::Authenticated => Some(SshAction::RegisterKey),
        SshState::ManualNeeded => Some(SshAction::ShowManualSteps),
        SshState::RegistrationFailed => Some(SshAction::ShowManualSteps),
        SshState::KeyRegistered => Some(SshAction::ProbeConnection),
        SshState::Skipped => None,
        SshState::GenerationFailed => None,
        SshState::PublicKeyMissing => None,
        SshState::ManualFallback => None,
        SshState::ConnectionVerified => None,
        SshState::ConnectionUnverified => None,
    }
}

/// A state in which the sub-flow has ended.
pub open spec fn ssh_terminal(s: SshState) -> bool {
    ssh_action_spec(s) is None
}

/// Advances the provisioner by one event.
pub fn ssh_step(s: SshState, e: SshEvent) -> (r: SshState)
    ensures
        r == ssh_step_spec(s, e),
{
    match (s, e) {
        (SshState::KeyMissing, SshEvent::DeclinedGeneration) => SshState::Skipped,
        (SshState::KeyMissing, SshEvent::GenerationAttempted(ok)) => if ok {
            SshState::KeyGenerated
        } else {
            SshState::GenerationFailed
        },
        (SshState::KeyExists, SshEvent::DeclinedGeneration) => SshState::KeyReused,
        (SshState::KeyExists, SshEvent::GenerationAttempted(ok)) => if ok {
            SshState::KeyGenerated
        } else {
            SshState::GenerationFailed
        },
        (SshState::KeyGenerated, SshEvent::ConfigEnsured) => SshState::ConfigReady,
        (SshState::KeyReused, SshEvent::ConfigEnsured) => SshState::ConfigReady,
        (SshState::ConfigReady, SshEvent::PublicKeyChecked(found)) => if found {
            SshState::AwaitingAuthStatus
        } else {
            SshState::PublicKeyMissing
        },
        (SshState::AwaitingAuthStatus, SshEvent::AuthChecked(authed)) => if authed {
            SshState::Authenticated
        } else {
            SshState::LoginNeeded
        },
        (SshState::LoginNeeded, SshEvent::LoginAttempted(ok)) => if ok {
            SshState::Authenticated
        } else {
            SshState::ManualNeeded
        },
        (SshState::Authenticated, SshEvent::RegistrationAttempted(ok)) => if ok {
            SshState::KeyRegistered
        } else {
            SshState::RegistrationFailed
        },
        (SshState::ManualNeeded, SshEvent::InstructionsShown) => SshState::ManualFallback,
        (SshState::RegistrationFailed, SshEvent::InstructionsShown) => SshState::ManualFallback,
        (SshState::KeyRegistered, SshEvent::ProbeCompleted(ok)) => if ok {
            SshState::ConnectionVerified
        } else {
            SshState::ConnectionUnverified
        },
        _ => s,
    }
}

/// The action to perform next, or `None` when the sub-flow has ended.
pub fn ssh_next(s: SshState) -> (r: Option<SshAction>)
    ensures
        r == ssh_action_spec(s),
{
    match s {
        SshState::KeyMissing => Some(SshAction::AskGeneration),
        SshState::KeyExists => Some(SshAction::AskRegeneration),
        SshState::KeyGenerated => Some(SshAction::EnsureClientConfig),
        SshState::KeyReused => Some(SshAction::EnsureClientConfig),
        SshState::ConfigReady => Some(SshAction::VerifyPublicKey),
        SshState::AwaitingAuthStatus => Some(SshAction::CheckAuthStatus),
        SshState::LoginNeeded => Some(SshAction::AttemptLogin),
        SshState::Authenticated => Some(SshAction::RegisterKey),
        SshState::ManualNeeded => Some(SshAction::ShowManualSteps),
        SshState::RegistrationFailed => Some(SshAction::ShowManualSteps),
        SshState::KeyRegistered => Some(SshAction::ProbeConnection),
        SshState::Skipped => None,
        SshState::GenerationFailed => None,
        SshState::PublicKeyMissing => None,
        SshState::ManualFallback => None,
        SshState::ConnectionVerified => None,
        SshState::ConnectionUnverified => None,
    }
}

/// An existing key the user keeps is reused, never regenerated: declining
/// regeneration leads to `KeyReused`, whose next action is the client
/// configuration, and from there the flow proceeds directly to
/// registration of the existing key.
pub proof fn lemma_existing_key_reused()
    ensures
        ssh_step_spec(SshState::KeyExists, SshEvent::DeclinedGeneration) == SshState::KeyReused,
        ssh_action_spec(SshState::KeyReused) == Some(SshAction::EnsureClientConfig),
        ssh_step_spec(SshState::KeyReused, SshEvent::ConfigEnsured) == SshState::ConfigReady,
        ssh_action_spec(SshState::ConfigReady) == Some(SshAction::VerifyPublicKey),
        ssh_step_spec(SshState::ConfigReady, SshEvent::PublicKeyChecked(true))
            == SshState::AwaitingAuthStatus,
        ssh_action_spec(SshState::AwaitingAuthStatus) == Some(SshAction::CheckAuthStatus),
        ssh_step_spec(SshState::AwaitingAuthStatus, SshEvent::AuthChecked(true))
            == SshState::Authenticated,
        ssh_action_spec(SshState::Authenticated) == Some(SshAction::RegisterKey),
{
}

/// The marker that guards the idempotent append of the client
/// configuration block.
pub open spec fn ssh_config_marker() -> Seq<char> {
    "Host github.com"@
}

/// The client configuration block for the remote host.
pub open spec fn ssh_config_block() -> Seq<char> {
    "Host github.com\n    HostName github.com\n    User git\n    IdentityFile ~/.ssh/id_ed25519\n    IdentitiesOnly yes\n"@
}

/// The marker that guards the client configuration block, and the block
/// itself; the block begins with the marker, so the append is idempotent.
pub fn ssh_config_parts() -> (r: (&'static str, &'static str))
    ensures
        r.0@ == ssh_config_marker(),
        r.1@ == ssh_config_block(),
        contains_seq(r.1@, r.0@),
{
    let marker = "Host github.com";
    let block =
        "Host github.com\n    HostName github.com\n    User git\n    IdentityFile ~/.ssh/id_ed25519\n    IdentitiesOnly yes\n";
    proof {
        reveal_strlit("Host github.com");
        reveal_strlit(
            "Host github.com\n    HostName github.com\n    User git\n    IdentityFile ~/.ssh/id_ed25519\n    IdentitiesOnly yes\n",
        );
        assert(block@.subrange(0, 15) =~= marker@);
        assert(match_at(block@, marker@, 0));
    }
    (marker, block)
}

/// The command that generates the key pair: the fixed algorithm, the
/// user's e-mail as its comment, an empty passphrase.
pub open spec fn keygen_command_spec(email: Seq<char>, key_path: Seq<char>) -> Seq<char> {
    "ssh-keygen -t ed25519 -C \""@ + email + "\" -f "@ + key_path + " -N \"\""@
}

/// Builds the key-generation command.
pub fn keygen_command(email: &str, key_path: &str) -> (r: String)
    ensures
        r@ == keygen_command_spec(email@, key_path@),
{
    let mut r = "ssh-keygen -t ed25519 -C \"".to_owned();
    r.append(email);
    r.append("\" -f ");
    r.append(key_path);
    r.append(" -N \"\"");
    r
}

/// The command that hands the key to the running agent.
pub open spec fn add_key_command_spec(key_path: Seq<char>) -> Seq<char> {
    "ssh-add "@ + key_path
}

/// Builds the command that hands the key to the agent.
pub fn add_key_command(key_path: &str) -> (r: String)
    ensures
        r@ == add_key_command_spec(key_path@),
{
    let mut r = "ssh-add ".to_owned();
    r.append(key_path);
    r
}

/// The command that registers the public key with the remote host under a
/// given title.
pub open spec fn register_key_command_spec(public_key_path: Seq<char>, title: Seq<char>) -> Seq<
    char,
> {
    "gh ssh-key add "@ + public_key_path + " --title \""@ + title + "\" --type authentication"@
}

/// Builds the key-registration command.
pub fn register_key_command(public_key_path: &str, title: &str) -> (r: String)
    ensures
        r@ == register_key_command_spec(public_key_path@, title@),
{
    let mut r = "gh ssh-key add ".to_owned();
    r.append(public_key_path);
    r.append(" --title \"");
    r.append(title);
    r.append("\" --type authentication");
    r
}

/// The command that restricts a configuration file's permissions to its
/// owner.
pub open spec fn restrict_permissions_command_spec(path: Seq<char>) -> Seq<char> {
    "chmod 600 "@ + path
}

/// Builds the permission-restricting command.
pub fn restrict_permissions_command(path: &str) -> (r: String)
    ensures
        r@ == restrict_permissions_command_spec(path@),
{
    let mut r = "chmod 600 ".to_owned();
    r.append(path);
    r
}

/// Relies on chrono's local clock and date formatting: yields the current
/// local date, year then month then day.  Nothing is assumed of the
/// value, which depends on the clock and the machine's time zone.
#[verifier::external_body]
fn local_date_compact() -> (r: String) {
    chrono::Local::now().format("%Y%m%d").to_string()
}

/// The registration title for this machine's key on a given date.
pub open spec fn key_title_spec(date: Seq<char>) -> Seq<char> {
    "MacBook_"@ + date
}

/// Builds the registration title for a given date.
pub fn key_title(date: &str) -> (r: String)
    ensures
        r@ == key_title_spec(date@),
{
    let mut r = "MacBook_".to_owned();
    r.append(date);
    r
}

/// The registration title for today: the machine prefix, then the current
/// local date.
pub fn todays_key_title() -> (r: String)
    ensures
        r@.len() >= 8,
        r@.subrange(0, 8) == "MacBook_"@,
{
    let date = local_date_compact();
    let r = key_title(date.as_str());
    proof {
        reveal_strlit("MacBook_");
        assert(r@.subrange(0, 8) =~= "MacBook_"@);
    }
    r
}

} // verus!
