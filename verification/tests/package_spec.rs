use zenops::error::Error;
use zenops::package_spec::{BrewPackage, PackageSpec, StoredBrewPackage, StoredCargoPackage};

#[test]
fn brew_spec_without_version_is_the_name() {
    let p = PackageSpec::parse("brew:ripgrep").unwrap();
    assert!(p.is_brew() && !p.is_cargo());
    let b = p.brew_package().unwrap();
    assert_eq!(b.brew_spec().as_deref(), Some("ripgrep"));
    assert_eq!(b.cask_spec(), None);
    assert_eq!(p.to_string(), "ripgrep");
}

#[test]
fn brew_spec_with_version_pins_it() {
    let p = PackageSpec::parse("brew:python@3.12").unwrap();
    let b = p.brew_package().unwrap();
    assert_eq!(b.brew_spec().as_deref(), Some("python@3.12"));
    assert_eq!(b.to_string(), "python");
}

#[test]
fn brew_cask_version_selects_a_cask() {
    let p = PackageSpec::parse("brew:firefox@cask").unwrap();
    let b = p.brew_package().unwrap();
    assert_eq!(b.brew_spec(), None);
    assert_eq!(b.cask_spec().as_deref(), Some("firefox"));
}

#[test]
fn cargo_spec_installs_latest_from_crates_io() {
    let p = PackageSpec::parse("cargo:zenops").unwrap();
    assert!(p.is_cargo());
    assert!(p.brew_package().is_none());
    assert_eq!(p.cargo_package().unwrap().get_name_if_crates_io_latest().as_deref(), Some("zenops"));
}

#[test]
fn spec_without_kind_is_invalid() {
    assert!(matches!(
        PackageSpec::parse("ripgrep"),
        Err(Error::InvalidPackageSpec(s, why)) if s == "ripgrep" && why == "Expected <kind>:..."
    ));
}

#[test]
fn unknown_kind_names_kind_and_package() {
    assert!(matches!(
        PackageSpec::from_split_spec("apt", "curl", ""),
        Err(Error::UnknownPackageKind(k, n)) if k == "apt" && n == "curl"
    ));
    assert!(matches!(
        PackageSpec::parse("apt:curl@1"),
        Err(Error::UnknownPackageKind(k, n)) if k == "apt" && n == "curl"
    ));
}

#[test]
fn stored_forms_build_packages() {
    let b = StoredBrewPackage::Cask.into_package("kitty".to_string());
    assert_eq!(b.cask_spec().as_deref(), Some("kitty"));
    let c = StoredCargoPackage::CratesIo.into_package("bat".to_string());
    assert_eq!(c.to_string(), "bat");
    assert_eq!(BrewPackage::from_split_spec("jq", "").unwrap().brew_spec().as_deref(), Some("jq"));
}
