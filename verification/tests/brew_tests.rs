use brew_update_helper::brew::MockBrewExecutor;
use brew_update_helper::brew::PackageType;
use brew_update_helper::parse_outdated_line;
use brew_update_helper::BrewExecutor;

#[test]
fn test_parse_outdated_line_formula() {
    let line = "git (2.40.0) < 2.41.0";
    let result = parse_outdated_line(line, PackageType::Formula);

    assert!(result.is_some());
    let package = result.unwrap();
    assert_eq!(package.name, "git");
    assert_eq!(package.current_version, "2.40.0");
    assert_eq!(package.available_version, "2.41.0");
    assert!(matches!(package.package_type, PackageType::Formula));
}

#[test]
fn test_parse_outdated_line_cask() {
    let line = "visual-studio-code (1.79.0) != 1.80.0";
    let result = parse_outdated_line(line, PackageType::Cask);

    assert!(result.is_some());
    let package = result.unwrap();
    assert_eq!(package.name, "visual-studio-code");
    assert_eq!(package.current_version, "1.79.0");
    assert_eq!(package.available_version, "1.80.0");
    assert!(matches!(package.package_type, PackageType::Cask));
}

#[test]
fn test_parse_outdated_line_invalid() {
    let line = "invalid line format";
    let result = parse_outdated_line(line, PackageType::Formula);
    assert!(result.is_none());
}

#[test]
fn test_mock_brew_executor() {
    let executor = MockBrewExecutor::new();

    assert!(executor.verify_installation().is_ok());

    let formulae = executor.get_manually_installed_formulae().unwrap();
    assert_eq!(formulae.len(), 3);
    assert!(formulae.contains(&"git".to_string()));

    let casks = executor.get_manually_installed_casks().unwrap();
    assert_eq!(casks.len(), 3);
    assert!(casks.contains(&"docker".to_string()));

    let outdated = executor.get_outdated_packages().unwrap();
    assert_eq!(outdated.len(), 2);
}

#[test]
fn test_mock_brew_executor_with_failed_verification() {
    let executor = MockBrewExecutor::new().with_failed_verification();
    assert!(executor.verify_installation().is_err());
}

#[test]
fn test_mock_brew_executor_with_custom_data() {
    let custom_formulae = vec!["custom-formula".to_string()];
    let custom_casks = vec!["custom-cask".to_string()];

    let executor = MockBrewExecutor::new()
        .with_formulae(custom_formulae.clone())
        .with_casks(custom_casks.clone());

    let formulae = executor.get_manually_installed_formulae().unwrap();
    let casks = executor.get_manually_installed_casks().unwrap();

    assert_eq!(formulae, custom_formulae);
    assert_eq!(casks, custom_casks);
}

#[test]
fn test_parse_outdated_line_trims_name() {
    let result = parse_outdated_line("  wget  (1.21) < 1.22", PackageType::Formula).unwrap();
    assert_eq!(result.name, "wget");
    assert_eq!(result.current_version, "1.21");
    assert_eq!(result.available_version, "1.22");
}

#[test]
fn test_parse_outdated_line_missing_pieces() {
    assert!(parse_outdated_line("", PackageType::Formula).is_none());
    assert!(parse_outdated_line("git (2.40.0)", PackageType::Formula).is_none());
    assert!(parse_outdated_line("git 2.40.0 < 2.41.0", PackageType::Formula).is_none());
    assert!(parse_outdated_line("git (2.40.0) <", PackageType::Formula).is_none());
}

#[test]
fn test_parse_outdated_listing_skips_malformed_lines() {
    let text = "git (2.40.0) < 2.41.0\nWarning: something else\nwget (1.21) < 1.22\n";
    let packages =
        brew_update_helper::brew::parse_outdated_listing(text, PackageType::Formula);
    assert_eq!(packages.len(), 2);
    assert_eq!(packages[0].name, "git");
    assert_eq!(packages[0].available_version, "2.41.0");
    assert_eq!(packages[1].name, "wget");
    assert_eq!(packages[1].current_version, "1.21");
}

#[test]
fn test_failed_verification_message() {
    let executor = MockBrewExecutor::new().with_failed_verification();
    let err = executor.verify_installation().unwrap_err();
    assert!(err.message.contains("Homebrew is not installed"));
}
