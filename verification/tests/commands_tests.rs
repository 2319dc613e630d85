use brew_update_helper::OutdatedPackage;
use brew_update_helper::PackageType;
use brew_update_helper::Settings;
use brew_update_helper::commands::filter_upgradeable;
use brew_update_helper::format_log_entry;

fn outdated(name: &str, kind: PackageType) -> OutdatedPackage {
    OutdatedPackage {
        name: name.to_string(),
        current_version: "1.0".to_string(),
        available_version: "2.0".to_string(),
        package_type: kind,
    }
}

#[test]
fn test_filter_upgradeable_drops_disabled() {
    let packages = vec![
        outdated("git", PackageType::Formula),
        outdated("node", PackageType::Formula),
        outdated("docker", PackageType::Cask),
    ];
    let mut settings = Settings::new();
    settings.insert("git".to_string(), true);
    settings.insert("node".to_string(), false);
    // docker has no recorded choice; absence means enabled

    let kept = filter_upgradeable(&packages, &settings);
    assert_eq!(kept.len(), 2);
    assert_eq!(kept[0].name, "git");
    assert_eq!(kept[1].name, "docker");
}

#[test]
fn test_filter_upgradeable_keeps_order_and_duplicates() {
    let packages = vec![
        outdated("b", PackageType::Formula),
        outdated("a", PackageType::Formula),
        outdated("b", PackageType::Cask),
    ];
    let mut settings = Settings::new();
    settings.insert("a".to_string(), true);
    settings.insert("b".to_string(), true);

    let kept = filter_upgradeable(&packages, &settings);
    let names: Vec<&str> = kept.iter().map(|p| p.name.as_str()).collect();
    assert_eq!(names, vec!["b", "a", "b"]);
}

#[test]
fn test_format_log_entry() {
    let entry = format_log_entry("2024-08-22 10:30:00 UTC", "Starting upgrade of 2 packages");
    assert_eq!(entry, "[2024-08-22 10:30:00 UTC] Starting upgrade of 2 packages\n");
}
