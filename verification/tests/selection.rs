use setup_macos::catalog::catalog;
use setup_macos::catalog::commands_have_identities;
use setup_macos::catalog::select_from;
use setup_macos::installer::package_identity;
use setup_macos::selector::parse_selection;
use setup_macos::selector::selection_declined;

#[test]
fn all_selects_every_app_in_order() {
    let cats = catalog();
    let browsers = &cats[3].apps;
    assert_eq!(browsers.len(), 4);
    let picked = select_from(browsers, "all");
    assert_eq!(picked.len(), 4);
    assert_eq!(picked[0].name, "Google Chrome");
    assert_eq!(picked[1].name, "Brave");
    assert_eq!(picked[2].name, "Opera");
    assert_eq!(picked[3].name, "Firefox");
}

#[test]
fn all_is_case_insensitive() {
    assert_eq!(parse_selection("ALL", 4), vec![0, 1, 2, 3]);
    assert_eq!(parse_selection("All", 4), vec![0, 1, 2, 3]);
}

#[test]
fn comma_list_selects_positions() {
    assert_eq!(parse_selection("2,4", 4), vec![1, 3]);
}

#[test]
fn invalid_tokens_are_dropped() {
    assert_eq!(parse_selection("9,abc,1", 4), vec![0]);
}

#[test]
fn empty_zero_and_n_select_nothing() {
    assert_eq!(parse_selection("", 4), Vec::<usize>::new());
    assert_eq!(parse_selection("0", 4), Vec::<usize>::new());
    assert_eq!(parse_selection("n", 4), Vec::<usize>::new());
    assert_eq!(parse_selection("N", 4), Vec::<usize>::new());
}

#[test]
fn tokens_are_trimmed_before_parsing() {
    assert_eq!(parse_selection(" 2 ,  3", 4), vec![1, 2]);
    assert_eq!(parse_selection("\u{00a0}2\u{00a0},3", 4), vec![1, 2]);
}

#[test]
fn only_the_skip_keywords_decline_a_category() {
    assert!(selection_declined(""));
    assert!(selection_declined("0"));
    assert!(selection_declined("n"));
    assert!(selection_declined("N"));
    assert!(!selection_declined("all"));
    assert!(!selection_declined("abc"));
    assert!(!selection_declined("1,2"));
}

#[test]
fn out_of_range_and_overflowing_tokens_are_dropped() {
    assert_eq!(parse_selection("5", 4), Vec::<usize>::new());
    assert_eq!(parse_selection("0,1", 4), vec![0]);
    assert_eq!(parse_selection("99999999999999999999999999,2", 4), vec![1]);
}

#[test]
fn duplicate_positions_select_twice() {
    assert_eq!(parse_selection("1,1", 4), vec![0, 0]);
}

#[test]
fn selection_from_category_copies_apps() {
    let cats = catalog();
    let managers = &cats[0].apps;
    let picked = select_from(managers, "2,4");
    assert_eq!(picked.len(), 2);
    assert_eq!(picked[0].name, "Bun");
    assert_eq!(picked[1].name, "Node");
}

#[test]
fn catalog_has_eight_categories() {
    let cats = catalog();
    assert_eq!(cats.len(), 8);
    assert_eq!(cats[0].name, "Gestores de Paquetes");
    assert_eq!(cats[5].apps.len(), 9);
    assert_eq!(cats[7].apps.len(), 8);
}

#[test]
fn every_install_command_ends_in_its_package() {
    let cats = catalog();
    assert!(commands_have_identities(&cats));
}

#[test]
fn package_identity_is_last_token() {
    let id = package_identity("brew install --cask visual-studio-code");
    assert_eq!(id.unwrap(), "visual-studio-code");
}

#[test]
fn package_identity_of_plain_install() {
    assert_eq!(package_identity("brew install gh").unwrap(), "gh");
    assert_eq!(package_identity("single-token").unwrap(), "single-token");
    assert_eq!(package_identity("brew install node  ").unwrap(), "node");
}

#[test]
fn package_identity_of_blank_command_is_none() {
    assert!(package_identity("").is_none());
    assert!(package_identity("   ").is_none());
}
