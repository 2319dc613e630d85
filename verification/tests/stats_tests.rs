use brew_update_helper::Settings;
use brew_update_helper::brew::MockBrewExecutor;
use brew_update_helper::stats::PackageChanges;
use brew_update_helper::stats::PackageStats;
use brew_update_helper::stats::SystemInfo;
use brew_update_helper::stats::calculate_package_changes;
use brew_update_helper::stats::count_enabled_disabled;

#[test]
fn test_count_enabled_disabled() {
    let packages = vec!["git".to_string(), "node".to_string(), "python".to_string()];
    let mut settings = Settings::new();
    settings.insert("git".to_string(), true);
    settings.insert("node".to_string(), false);
    // python not in settings, should default to true

    let (enabled, disabled) = count_enabled_disabled(&packages, &settings);
    assert_eq!(enabled, 2); // git and python
    assert_eq!(disabled, 1); // node
}

#[test]
fn test_calculate_package_changes() {
    let current_formulae = vec!["git".to_string(), "node".to_string(), "python".to_string()];
    let previous_formulae = vec!["git".to_string(), "vim".to_string()];
    let current_casks = vec!["docker".to_string()];
    let previous_casks = vec!["docker".to_string(), "firefox".to_string()];

    let changes = calculate_package_changes(
        &current_formulae,
        &current_casks,
        Some(&previous_formulae),
        Some(&previous_casks),
    );

    assert_eq!(changes.added_formulae, 2); // node, python
    assert_eq!(changes.removed_formulae, 1); // vim
    assert_eq!(changes.added_casks, 0);
    assert_eq!(changes.removed_casks, 1); // firefox
}

#[test]
fn test_package_changes_has_changes() {
    let no_changes = PackageChanges {
        added_formulae: 0,
        removed_formulae: 0,
        added_casks: 0,
        removed_casks: 0,
    };
    assert!(!no_changes.has_changes());

    let has_changes = PackageChanges {
        added_formulae: 1,
        removed_formulae: 0,
        added_casks: 0,
        removed_casks: 0,
    };
    assert!(has_changes.has_changes());
}

#[test]
fn test_package_stats_collect() {
    let executor = MockBrewExecutor::new();
    let formulae = vec!["git".to_string(), "node".to_string()];
    let casks = vec!["docker".to_string()];
    let mut existing_settings = Settings::new();
    existing_settings.insert("git".to_string(), true);
    existing_settings.insert("node".to_string(), false);
    existing_settings.insert("docker".to_string(), true);

    let previous_formulae = vec!["git".to_string()]; // node is new
    let previous_casks = vec!["docker".to_string(), "firefox".to_string()]; // firefox removed

    let stats = PackageStats::collect(
        &executor,
        &formulae,
        &casks,
        &existing_settings,
        Some(&previous_formulae),
        Some(&previous_casks),
    )
    .unwrap();

    assert_eq!(stats.total_formulae, 2);
    assert_eq!(stats.total_casks, 1);
    assert_eq!(stats.total_packages, 3);
    assert_eq!(stats.enabled_formulae, 1); // git
    assert_eq!(stats.disabled_formulae, 1); // node
    assert_eq!(stats.enabled_casks, 1); // docker
    assert_eq!(stats.disabled_casks, 0);

    // MockBrewExecutor has 2 outdated packages: git (formula) and docker (cask)
    assert_eq!(stats.outdated_formulae, 1);
    assert_eq!(stats.outdated_casks, 1);
    assert_eq!(stats.total_outdated, 2);

    // Changes: +1 formula (node), -1 cask (firefox)
    assert_eq!(stats.changes.added_formulae, 1);
    assert_eq!(stats.changes.removed_formulae, 0);
    assert_eq!(stats.changes.added_casks, 0);
    assert_eq!(stats.changes.removed_casks, 1);
}

#[test]
fn test_format_as_markdown() {
    let stats = PackageStats {
        total_formulae: 10,
        total_casks: 5,
        total_packages: 15,
        enabled_formulae: 8,
        enabled_casks: 3,
        disabled_formulae: 2,
        disabled_casks: 2,
        outdated_formulae: 2,
        outdated_casks: 1,
        total_outdated: 3,
        homebrew_version: "Homebrew 4.1.5".to_string(),
        system_info: SystemInfo {
            os_version: "macOS 14.5".to_string(),
            architecture: "Apple Silicon".to_string(),
            homebrew_prefix: "/opt/homebrew".to_string(),
        },
        changes: PackageChanges {
            added_formulae: 1,
            removed_formulae: 0,
            added_casks: 0,
            removed_casks: 1,
        },
    };

    let markdown = stats.format_as_markdown();
    assert!(markdown.contains("## Statistics"));
    assert!(markdown.contains("**Total Packages**: 15"));
    assert!(markdown.contains("**Homebrew Version**: Homebrew 4.1.5"));
    assert!(markdown.contains("**Changes Since Last Dump**"));
}

#[test]
fn test_format_as_markdown_exact() {
    let stats = PackageStats {
        total_formulae: 2,
        total_casks: 1,
        total_packages: 3,
        enabled_formulae: 2,
        enabled_casks: 1,
        disabled_formulae: 0,
        disabled_casks: 0,
        outdated_formulae: 0,
        outdated_casks: 0,
        total_outdated: 0,
        homebrew_version: "Homebrew 4.1.5".to_string(),
        system_info: SystemInfo {
            os_version: "macOS 14.5".to_string(),
            architecture: "Intel".to_string(),
            homebrew_prefix: "/usr/local".to_string(),
        },
        changes: PackageChanges {
            added_formulae: 0,
            removed_formulae: 0,
            added_casks: 0,
            removed_casks: 0,
        },
    };

    let markdown = stats.format_as_markdown();
    assert_eq!(
        markdown,
        "## Statistics\n\n\
- **Total Packages**: 3 (2 formulae, 1 casks)\n\
- **Enabled for Auto-Update**: 3 (2 formulae, 1 casks)\n\
- **Outdated Packages**: All packages up to date! \u{1f389}\n\
- **Homebrew Version**: Homebrew 4.1.5\n\
- **System**: macOS 14.5\n\
- **Architecture**: Intel\n\
- **Homebrew Prefix**: /usr/local\n\n"
    );
}

#[test]
fn test_calculate_package_changes_counts_names_once() {
    let current_formulae = vec!["git".to_string(), "git".to_string(), "node".to_string()];
    let previous_formulae: Vec<String> = Vec::new();
    let current_casks: Vec<String> = Vec::new();
    let previous_casks = vec!["zoom".to_string(), "zoom".to_string()];

    let changes = calculate_package_changes(
        &current_formulae,
        &current_casks,
        Some(&previous_formulae),
        Some(&previous_casks),
    );

    // a repeated name is one name: the counts are name-set differences
    assert_eq!(changes.added_formulae, 2); // git, node
    assert_eq!(changes.removed_formulae, 0);
    assert_eq!(changes.added_casks, 0);
    assert_eq!(changes.removed_casks, 1); // zoom
}

#[test]
fn test_changes_without_previous_lists_are_zero() {
    let current_formulae = vec!["git".to_string()];
    let current_casks = vec!["docker".to_string()];
    let changes = calculate_package_changes(&current_formulae, &current_casks, None, None);
    assert!(!changes.has_changes());
}
