use setup_macos::identity::has_full_identity;
use setup_macos::identity::identity_commands;
use setup_macos::installer::app_needs_install;
use setup_macos::installer::conclude_unit;
use setup_macos::installer::export_line;
use setup_macos::installer::plan_path_export;
use setup_macos::installer::plan_unit;
use setup_macos::installer::PathPlan;
use setup_macos::installer::UnitAction;
use setup_macos::orchestrator::exit_code;
use setup_macos::orchestrator::next_phase;
use setup_macos::orchestrator::Phase;
use setup_macos::presence::line_present;
use setup_macos::presence::package_listed;
use setup_macos::profile::ensure_block;
use setup_macos::profile::ensure_line;
use setup_macos::profile::ensure_line_marked;
use setup_macos::profile::replace_per_line;
use setup_macos::profile::set_zsh_plugins;
use setup_macos::profile::set_zsh_theme;
use setup_macos::ssh::add_key_command;
use setup_macos::ssh::keygen_command;
use setup_macos::ssh::register_key_command;
use setup_macos::ssh::restrict_permissions_command;
use setup_macos::ssh::ssh_config_parts;
use setup_macos::ssh::ssh_next;
use setup_macos::ssh::ssh_step;
use setup_macos::ssh::todays_key_title;
use setup_macos::ssh::SshAction;
use setup_macos::ssh::SshEvent;
use setup_macos::ssh::SshState;

fn count_occurrences(hay: &str, needle: &str) -> usize {
    let h: Vec<char> = hay.chars().collect();
    let n: Vec<char> = needle.chars().collect();
    if n.is_empty() || n.len() > h.len() {
        return 0;
    }
    (0..=h.len() - n.len()).filter(|&i| h[i..i + n.len()] == n[..]).count()
}

#[test]
fn missing_file_reads_as_absent() {
    assert!(!line_present(&None, "export PATH"));
    assert!(!package_listed(&None, "node"));
}

#[test]
fn line_present_is_exact_substring() {
    let file = Some(String::from("alpha\nexport PATH=\"/x:$PATH\"\n"));
    assert!(line_present(&file, "export PATH=\"/x:$PATH\""));
    assert!(!line_present(&file, "export PATH=\"/y:$PATH\""));
}

#[test]
fn package_listed_matches_whole_trimmed_lines() {
    let listing = Some(String::from("git\r\nnode\r\n  fzf  \n"));
    assert!(package_listed(&listing, "node"));
    assert!(package_listed(&listing, "fzf"));
    assert!(!package_listed(&listing, "nod"));
    assert!(!package_listed(&listing, "ode"));
    assert!(!package_listed(&Some(String::new()), "node"));
}

#[test]
fn package_listed_trims_all_whitespace_kinds() {
    // A listing line padded with a no-break space still names its package.
    let listing = Some(String::from("node\u{00a0}\n"));
    assert!(package_listed(&listing, "node"));
}

#[test]
fn package_listed_ignores_the_piece_after_a_final_newline() {
    // "node\n" has the single line "node"; there is no empty last line
    // for an empty name to match.
    assert!(!package_listed(&Some(String::from("node\n")), ""));
    // An empty line in the middle is a real line.
    assert!(package_listed(&Some(String::from("a\n\nb")), ""));
}

#[test]
fn ensure_line_twice_leaves_one_copy() {
    let line = "export PATH=\"/opt/homebrew/bin:$PATH\"";
    let once = ensure_line("# profile\n", line);
    let twice = ensure_line(&once, line);
    assert_eq!(once, twice);
    assert_eq!(count_occurrences(&twice, line), 1);
}

#[test]
fn ensure_line_appends_on_its_own_line() {
    assert_eq!(ensure_line("", "abc"), "abc\n");
    assert_eq!(ensure_line("x\n", "abc"), "x\nabc\n");
    assert_eq!(ensure_line("x", "abc"), "x\nabc\n");
    assert_eq!(ensure_line("x\nabc\n", "abc"), "x\nabc\n");
}

#[test]
fn ensure_line_marked_appends_raw_marker_then_line() {
    // The marked append writes the text as it stands, like a plain file
    // append: no separating newline is inserted first.
    let out = ensure_line_marked("x\n", "# marker", "abc");
    assert_eq!(out, "x\n# marker\nabc\n");
    let raw = ensure_line_marked("x", "# marker", "abc");
    assert_eq!(raw, "x# marker\nabc\n");
    let again = ensure_line_marked(&out, "# marker", "abc");
    assert_eq!(again, out);
    assert_eq!(count_occurrences(&again, "abc"), 1);
}

#[test]
fn ssh_config_block_is_the_github_host_block() {
    let (marker, block) = ssh_config_parts();
    assert_eq!(marker, "Host github.com");
    assert_eq!(
        block,
        "Host github.com\n    HostName github.com\n    User git\n    IdentityFile ~/.ssh/id_ed25519\n    IdentitiesOnly yes\n"
    );
}

#[test]
fn ssh_commands_are_composed_exactly() {
    assert_eq!(
        keygen_command("ada@example.com", "/home/u/.ssh/id_ed25519"),
        "ssh-keygen -t ed25519 -C \"ada@example.com\" -f /home/u/.ssh/id_ed25519 -N \"\""
    );
    assert_eq!(add_key_command("/home/u/.ssh/id_ed25519"), "ssh-add /home/u/.ssh/id_ed25519");
    assert_eq!(
        register_key_command("/home/u/.ssh/id_ed25519.pub", "MacBook_20260101"),
        "gh ssh-key add /home/u/.ssh/id_ed25519.pub --title \"MacBook_20260101\" --type authentication"
    );
    assert_eq!(
        restrict_permissions_command("/home/u/.ssh/config"),
        "chmod 600 /home/u/.ssh/config"
    );
}

#[test]
fn ensure_block_appends_once() {
    let (marker, block) = ssh_config_parts();
    let once = ensure_block("", marker, block);
    assert_eq!(once, block);
    let twice = ensure_block(&once, marker, block);
    assert_eq!(twice, once);
    assert_eq!(count_occurrences(&twice, "Host github.com"), 1);
}

#[test]
fn replace_per_line_swaps_the_first_occurrence_on_every_line() {
    assert_eq!(replace_per_line("a-b-a", "a", "z"), "z-b-a");
    assert_eq!(replace_per_line("a-b\nc-a\n", "a", "z"), "z-b\nc-z\n");
    assert_eq!(replace_per_line("aa\naa", "a", "z"), "za\nza");
    assert_eq!(replace_per_line("no match here", "absent", "z"), "no match here");
}

#[test]
fn theme_and_plugins_are_replaced_in_place() {
    let zshrc = "export ZSH=\"$HOME/.oh-my-zsh\"\nZSH_THEME=\"robbyrussell\"\nplugins=(git)\n";
    let themed = set_zsh_theme(zshrc);
    assert!(themed.contains("ZSH_THEME=\"powerlevel10k/powerlevel10k\""));
    assert!(!themed.contains("robbyrussell"));
    let full = set_zsh_plugins(&themed);
    assert!(full.contains(
        "plugins=(git jump zsh-autosuggestions zsh-history-substring-search jsontools zsh-syntax-highlighting zsh-interactive-cd)"
    ));
    let unchanged = set_zsh_theme("ZSH_THEME=\"agnoster\"\n");
    assert_eq!(unchanged, "ZSH_THEME=\"agnoster\"\n");
}

#[test]
fn satisfied_unit_never_reaches_the_runner() {
    assert_eq!(plan_unit(true), UnitAction::Skip);
    assert_eq!(plan_unit(true), UnitAction::Skip);
    assert!(conclude_unit(true, None));
}

#[test]
fn unsatisfied_unit_runs_and_reports() {
    assert_eq!(plan_unit(false), UnitAction::RunInstall);
    assert!(conclude_unit(false, Some(true)));
    assert!(!conclude_unit(false, Some(false)));
}

#[test]
fn app_needs_install_consults_the_listing() {
    let listing = Some(String::from("git\nnode\n"));
    assert_eq!(app_needs_install("brew install node", &listing), Some(false));
    assert_eq!(app_needs_install("brew install pnpm", &listing), Some(true));
    assert_eq!(app_needs_install("brew install pnpm", &None), Some(true));
    assert_eq!(app_needs_install("   ", &listing), None);
}

#[test]
fn path_export_is_planned_idempotently() {
    let path = Some(String::from("/opt/homebrew/bin"));
    let exe = Some(String::from("go"));
    let line = export_line("/opt/homebrew/bin");
    assert_eq!(line, "export PATH=\"/opt/homebrew/bin:$PATH\"");

    assert!(matches!(plan_path_export(&None, &None, false, &None), PathPlan::NoExportConfigured));
    assert!(matches!(plan_path_export(&path, &exe, true, &None), PathPlan::ExecutableOnPath));

    let profile_with = Some(format!("# x\n{}\n", line));
    assert!(matches!(
        plan_path_export(&path, &exe, false, &profile_with),
        PathPlan::LineAlreadyPresent
    ));

    match plan_path_export(&path, &exe, false, &None) {
        PathPlan::AppendExport(content) => {
            assert_eq!(content, format!("# Añadido por setup_macos\n{}\n", line));
        }
        other => panic!("expected an appended export, got {:?}", other),
    }
}

#[test]
fn absent_package_manager_then_present_tool() {
    // The package manager is absent: its install command must run, and a
    // successful run satisfies the phase.
    assert_eq!(plan_unit(false), UnitAction::RunInstall);
    assert!(conclude_unit(false, Some(true)));
    let p = next_phase(Phase::PackageManager, true);
    assert_eq!(p, Phase::VersionControl);
    // The version-control tool is present: the check short-circuits.
    assert_eq!(plan_unit(true), UnitAction::Skip);
    assert!(conclude_unit(true, None));
    let p = next_phase(p, true);
    assert_eq!(p, Phase::ShellFramework);
}

#[test]
fn shell_framework_failure_aborts_the_run() {
    let p = next_phase(Phase::ShellFramework, false);
    assert_eq!(p, Phase::Aborted);
    assert_eq!(exit_code(p), 1);
    // Nothing reported afterwards leaves the abort.
    assert_eq!(next_phase(p, true), Phase::Aborted);
    assert_eq!(next_phase(p, false), Phase::Aborted);
}

#[test]
fn optional_phases_never_abort() {
    assert_eq!(next_phase(Phase::GitIdentity, false), Phase::SshSetup);
    assert_eq!(next_phase(Phase::SshSetup, false), Phase::Applications);
    assert_eq!(next_phase(Phase::Applications, false), Phase::Cosmetic);
    assert_eq!(next_phase(Phase::Cosmetic, false), Phase::Finished);
    assert_eq!(exit_code(Phase::Finished), 0);
}

#[test]
fn existing_key_is_reused_and_registered() {
    // A key already exists and the user declines regeneration.
    let s = ssh_step(SshState::KeyExists, SshEvent::DeclinedGeneration);
    assert_eq!(s, SshState::KeyReused);
    // No generation follows: the next action is the client configuration.
    assert_eq!(ssh_next(s), Some(SshAction::EnsureClientConfig));
    let s = ssh_step(s, SshEvent::ConfigEnsured);
    assert_eq!(s, SshState::ConfigReady);
    assert_eq!(ssh_next(s), Some(SshAction::VerifyPublicKey));
    let s = ssh_step(s, SshEvent::PublicKeyChecked(true));
    assert_eq!(s, SshState::AwaitingAuthStatus);
    assert_eq!(ssh_next(s), Some(SshAction::CheckAuthStatus));
    let s = ssh_step(s, SshEvent::AuthChecked(true));
    assert_eq!(s, SshState::Authenticated);
    assert_eq!(ssh_next(s), Some(SshAction::RegisterKey));
    let s = ssh_step(s, SshEvent::RegistrationAttempted(true));
    assert_eq!(s, SshState::KeyRegistered);
    assert_eq!(ssh_next(s), Some(SshAction::ProbeConnection));
    let s = ssh_step(s, SshEvent::ProbeCompleted(true));
    assert_eq!(s, SshState::ConnectionVerified);
    assert_eq!(ssh_next(s), None);
}

#[test]
fn declined_generation_skips_the_sub_flow() {
    let s = ssh_step(SshState::KeyMissing, SshEvent::DeclinedGeneration);
    assert_eq!(s, SshState::Skipped);
    assert_eq!(ssh_next(s), None);
}

#[test]
fn failed_registration_falls_back_to_manual_steps() {
    let s = ssh_step(SshState::Authenticated, SshEvent::RegistrationAttempted(false));
    assert_eq!(s, SshState::RegistrationFailed);
    assert_eq!(ssh_next(s), Some(SshAction::ShowManualSteps));
    let s = ssh_step(s, SshEvent::InstructionsShown);
    assert_eq!(s, SshState::ManualFallback);
    assert_eq!(ssh_next(s), None);
}

#[test]
fn missing_public_key_ends_the_sub_flow() {
    let s = ssh_step(SshState::ConfigReady, SshEvent::PublicKeyChecked(false));
    assert_eq!(s, SshState::PublicKeyMissing);
    assert_eq!(ssh_next(s), None);
}

#[test]
fn failed_login_falls_back_to_manual_steps() {
    let s = ssh_step(SshState::AwaitingAuthStatus, SshEvent::AuthChecked(false));
    assert_eq!(s, SshState::LoginNeeded);
    assert_eq!(ssh_next(s), Some(SshAction::AttemptLogin));
    let s = ssh_step(s, SshEvent::LoginAttempted(false));
    assert_eq!(s, SshState::ManualNeeded);
    assert_eq!(ssh_next(s), Some(SshAction::ShowManualSteps));
}

#[test]
fn key_title_carries_prefix_and_date() {
    let title = todays_key_title();
    assert!(title.starts_with("MacBook_"));
    let date = &title["MacBook_".len()..];
    assert_eq!(date, chrono::Local::now().format("%Y%m%d").to_string());
}

#[test]
fn identity_commands_quote_both_entries() {
    assert!(has_full_identity("Ada", "ada@example.com"));
    assert!(!has_full_identity("", "ada@example.com"));
    assert!(!has_full_identity("Ada", ""));
    let (name_cmd, email_cmd) = identity_commands("Ada Lovelace", "ada@example.com").unwrap();
    assert_eq!(name_cmd, "git config --global user.name \"Ada Lovelace\"");
    assert_eq!(email_cmd, "git config --global user.email \"ada@example.com\"");
    assert!(identity_commands("", "ada@example.com").is_none());
    assert!(identity_commands("Ada", "").is_none());
}
