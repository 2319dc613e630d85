//! The same behavior exercised through the crate-root re-exports.

use brew_update_helper::BrewExecutor;
use brew_update_helper::Cli;
use brew_update_helper::Commands;
use brew_update_helper::OutdatedPackage;
use brew_update_helper::PackageType;
use brew_update_helper::Settings;
use brew_update_helper::brew::MockBrewExecutor;
use brew_update_helper::generate_settings_content;
use brew_update_helper::parse_outdated_line;

#[test]
fn main_test_parse_outdated_line_formula() {
    let line = "git (2.40.0) < 2.41.0";
    let result = parse_outdated_line(line, PackageType::Formula);

    assert!(result.is_some());
    let package = result.unwrap();
    assert_eq!(package.name, "git");
    assert_eq!(package.current_version, "2.40.0");
    assert_eq!(package.available_version, "2.41.0");
    assert!(matches!(package.package_type, PackageType::Formula));
}

#[test]
fn main_test_parse_outdated_line_cask() {
    let line = "visual-studio-code (1.79.0) != 1.80.0";
    let result = parse_outdated_line(line, PackageType::Cask);

    assert!(result.is_some());
    let package = result.unwrap();
    assert_eq!(package.name, "visual-studio-code");
    assert_eq!(package.current_version, "1.79.0");
    assert_eq!(package.available_version, "1.80.0");
    assert!(matches!(package.package_type, PackageType::Cask));
}

#[test]
fn main_test_parse_outdated_line_invalid() {
    let line = "invalid line format";
    let result = parse_outdated_line(line, PackageType::Formula);
    assert!(result.is_none());
}

#[test]
fn main_test_mock_brew_executor() {
    let executor = MockBrewExecutor::new();

    assert!(executor.verify_installation().is_ok());

    let formulae = executor.get_manually_installed_formulae().unwrap();
    assert_eq!(formulae.len(), 3);
    assert!(formulae.contains(&"git".to_string()));

    let casks = executor.get_manually_installed_casks().unwrap();
    assert_eq!(casks.len(), 3);
    assert!(casks.contains(&"docker".to_string()));

    let outdated = executor.get_outdated_packages().unwrap();
    assert_eq!(outdated.len(), 2);
}

#[test]
fn main_test_mock_brew_executor_with_failed_verification() {
    let executor = MockBrewExecutor::new().with_failed_verification();
    assert!(executor.verify_installation().is_err());
}

#[test]
fn main_test_mock_brew_executor_with_custom_data() {
    let custom_formulae = vec!["custom-formula".to_string()];
    let custom_casks = vec!["custom-cask".to_string()];

    let executor = MockBrewExecutor::new()
        .with_formulae(custom_formulae.clone())
        .with_casks(custom_casks.clone());

    let formulae = executor.get_manually_installed_formulae().unwrap();
    let casks = executor.get_manually_installed_casks().unwrap();

    assert_eq!(formulae, custom_formulae);
    assert_eq!(casks, custom_casks);
}

#[test]
fn main_test_generate_settings_content() {
    let formulae = vec!["git".to_string(), "node".to_string()];
    let casks = vec!["docker".to_string(), "firefox".to_string()];
    let mut existing_settings = Settings::new();
    existing_settings.insert("git".to_string(), true);
    existing_settings.insert("node".to_string(), false);
    existing_settings.insert("docker".to_string(), false);

    let content = generate_settings_content(&formulae, &casks, &existing_settings, None);

    assert!(content.contains("# Brew Auto-Update Settings"));
    assert!(content.contains("## Formulae"));
    assert!(content.contains("## Casks"));
    assert!(content.contains("- [x] git"));
    assert!(content.contains("- [ ] node"));
    assert!(content.contains("- [ ] docker"));
    assert!(content.contains("- [x] firefox")); // New package defaults to enabled
}

#[test]
fn main_test_with_outdated_packages() {
    let custom = vec![OutdatedPackage {
        name: "wget".to_string(),
        current_version: "1.21".to_string(),
        available_version: "1.22".to_string(),
        package_type: PackageType::Formula,
    }];
    let executor = MockBrewExecutor::new().with_outdated_packages(custom);
    let outdated = executor.get_outdated_packages().unwrap();
    assert_eq!(outdated.len(), 1);
    assert_eq!(outdated[0].name, "wget");
}

#[test]
fn main_test_cli_shape() {
    let cli = Cli { command: Commands::Dump, dry_run: true, config: Some("x.md".to_string()) };
    assert!(matches!(cli.command, Commands::Dump));
    assert!(cli.dry_run);
    assert_eq!(cli.config.as_deref(), Some("x.md"));
}
