use zenops::pkg::{BrewHint, InstallHint};
use zenops::pkg_manager::{detect, DetectedPackageManager};

#[test]
fn packages_for_brew_returns_packages_list() {
    let hint = InstallHint { brew: BrewHint { packages: vec!["sk".into(), "fd".into()] } };
    assert_eq!(DetectedPackageManager::Brew.packages_for(&hint), ["sk", "fd"]);
}

#[test]
fn packages_for_empty_returns_empty_slice() {
    let hint = InstallHint::default();
    assert!(DetectedPackageManager::Brew.packages_for(&hint).is_empty());
}

#[test]
fn install_command_joins_packages_with_spaces() {
    let pkgs = vec!["sk".into(), "starship".into()];
    assert_eq!(DetectedPackageManager::Brew.install_command(&pkgs), "brew install sk starship");
}

#[test]
fn brew_is_named_brew_and_detected_only_when_on_path() {
    assert_eq!(DetectedPackageManager::Brew.name(), "brew");
    assert_eq!(detect(true), Some(DetectedPackageManager::Brew));
    assert_eq!(detect(false), None);
}
