use espim::index::{parse_index, resolve};
use espim::state::{
    install_link_name, install_steps, is_confirmation, is_installed, purge_answer_steps, purge_steps,
    remove_steps, upgrade_targets, CommandError, PluginState, Step,
};

const NONE: PluginState = PluginState { link: false, checkout: false };
const LINK_ONLY: PluginState = PluginState { link: true, checkout: false };
const CHECKOUT_ONLY: PluginState = PluginState { link: false, checkout: true };
const BOTH: PluginState = PluginState { link: true, checkout: true };

#[test]
fn installed_needs_link_and_checkout() {
    assert!(is_installed(BOTH));
    assert!(!is_installed(NONE));
    assert!(!is_installed(LINK_ONLY));
    assert!(!is_installed(CHECKOUT_ONLY));
}

#[test]
fn install_fresh_plugin_clones_checks_out_and_links() {
    assert_eq!(
        install_steps(NONE),
        Ok(vec![Step::CloneRepository, Step::CheckoutRevision, Step::CreateLink])
    );
    assert_eq!(
        install_steps(LINK_ONLY),
        Ok(vec![Step::CloneRepository, Step::CheckoutRevision, Step::CreateLink])
    );
}

#[test]
fn install_over_existing_checkout_skips_the_clone() {
    assert_eq!(install_steps(CHECKOUT_ONLY), Ok(vec![Step::CheckoutRevision, Step::CreateLink]));
}

#[test]
fn install_twice_reports_already_installed() {
    assert!(install_steps(NONE).is_ok());
    assert_eq!(install_steps(BOTH), Err(CommandError::AlreadyInstalled));
}

#[test]
fn remove_takes_only_the_link() {
    assert_eq!(remove_steps(BOTH), Ok(vec![Step::RemoveLink]));
}

#[test]
fn remove_of_a_plugin_not_installed() {
    assert_eq!(remove_steps(NONE), Err(CommandError::NotInstalled));
    assert_eq!(remove_steps(LINK_ONLY), Err(CommandError::NotInstalled));
    assert_eq!(remove_steps(CHECKOUT_ONLY), Err(CommandError::NotInstalled));
}

#[test]
fn purge_removes_the_link_first() {
    assert_eq!(purge_steps(BOTH), Ok(vec![Step::RemoveLink]));
    assert_eq!(purge_steps(CHECKOUT_ONLY), Ok(vec![]));
}

#[test]
fn purge_without_checkout_is_refused() {
    assert_eq!(purge_steps(NONE), Err(CommandError::NotInstalled));
    assert_eq!(purge_steps(LINK_ONLY), Err(CommandError::NotInstalled));
}

#[test]
fn purge_deletes_only_on_y() {
    assert_eq!(purge_answer_steps("y\n"), vec![Step::DeleteCheckout]);
    assert_eq!(purge_answer_steps("n\n"), vec![]);
    assert_eq!(purge_answer_steps("\n"), vec![]);
}

#[test]
fn confirmation_is_a_lone_y() {
    assert!(is_confirmation("y"));
    assert!(is_confirmation("y\n"));
    assert!(is_confirmation("y\r\n"));
    assert!(!is_confirmation(""));
    assert!(!is_confirmation("\n"));
    assert!(!is_confirmation("  y \r\n"));
    assert!(!is_confirmation("\u{3000}y\u{a0}"));
    assert!(!is_confirmation(" y"));
    assert!(!is_confirmation("y "));
    assert!(!is_confirmation("y\n\n"));
    assert!(!is_confirmation("y\r"));
    assert!(!is_confirmation("Y\n"));
    assert!(!is_confirmation("yes\n"));
    assert!(!is_confirmation("y y\n"));
    assert!(!is_confirmation("n"));
}

#[test]
fn purge_keeps_the_checkout_on_a_padded_y() {
    assert_eq!(purge_answer_steps(" y"), vec![]);
    assert_eq!(purge_answer_steps("y "), vec![]);
    assert_eq!(purge_answer_steps("y\r\n"), vec![Step::DeleteCheckout]);
}

#[test]
fn upgrade_targets_are_the_installed_plugins() {
    assert_eq!(upgrade_targets(&vec![BOTH, NONE, LINK_ONLY, BOTH, CHECKOUT_ONLY]), vec![0, 3]);
    assert_eq!(upgrade_targets(&vec![]), Vec::<usize>::new());
    assert_eq!(upgrade_targets(&vec![NONE]), Vec::<usize>::new());
}

#[test]
fn link_name_has_the_prefix() {
    assert_eq!(install_link_name("Deep Sky"), "[ESPIM] Deep Sky");
    assert_eq!(install_link_name(""), "[ESPIM] ");
}

#[test]
fn install_deep_sky_by_a_case_mismatched_name() {
    let text = "- name: Deep Sky\n  version: v1.2.0\n  url: https://example.com/deepsky.git\n";
    let index = parse_index(text).unwrap();
    let i = resolve(&index, "deep sky").unwrap();
    let p = &index[i];
    assert_eq!(p.name, "Deep Sky");
    assert_eq!(p.version, "v1.2.0");
    assert_eq!(p.url, "https://example.com/deepsky.git");
    assert_eq!(
        install_steps(NONE),
        Ok(vec![Step::CloneRepository, Step::CheckoutRevision, Step::CreateLink])
    );
    assert_eq!(install_link_name(&p.name), "[ESPIM] Deep Sky");
}
