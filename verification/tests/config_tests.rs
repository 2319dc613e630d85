use brew_update_helper::Settings;
use brew_update_helper::extract_package_name;
use brew_update_helper::generate_settings_content;
use brew_update_helper::generate_settings_content_at;
use brew_update_helper::read_existing_settings;
use brew_update_helper::read_previous_packages;

const SAMPLE: &str = "# Brew Auto-Update Settings\n\n\
Generated on: 2024-08-22 10:30:00 UTC\n\n\
## Formulae\n\n\
- [x] git\n\
- [ ] node\n\
- [x] python\n\n\
## Casks\n\n\
- [ ] docker\n\
- [x] firefox";

#[test]
fn test_generate_settings_content() {
    let formulae = vec!["git".to_string(), "node".to_string()];
    let casks = vec!["docker".to_string(), "firefox".to_string()];
    let mut existing_settings = Settings::new();
    existing_settings.insert("git".to_string(), true);
    existing_settings.insert("node".to_string(), false);
    existing_settings.insert("docker".to_string(), false);

    let content = generate_settings_content(&formulae, &casks, &existing_settings, None);

    assert!(content.contains("# Brew Auto-Update Settings"));
    assert!(content.contains("## Formulae"));
    assert!(content.contains("## Casks"));
    assert!(content.contains("- [x] git"));
    assert!(content.contains("- [ ] node"));
    assert!(content.contains("- [ ] docker"));
    assert!(content.contains("- [x] firefox")); // New package defaults to enabled
}

#[test]
fn test_read_settings_content() {
    let settings = read_existing_settings(SAMPLE);

    assert_eq!(settings.get("git"), Some(true));
    assert_eq!(settings.get("node"), Some(false));
    assert_eq!(settings.get("python"), Some(true));
    assert_eq!(settings.get("docker"), Some(false));
    assert_eq!(settings.get("firefox"), Some(true));
    assert_eq!(settings.get("wget"), None);
}

#[test]
fn test_read_previous_packages_content() {
    let (formulae, casks) = read_previous_packages(SAMPLE);

    assert_eq!(formulae, vec!["git".to_string(), "node".to_string(), "python".to_string()]);
    assert_eq!(casks, vec!["docker".to_string(), "firefox".to_string()]);
}

#[test]
fn test_extract_package_name() {
    assert_eq!(extract_package_name("- [x] git"), Some("git".to_string()));
    assert_eq!(extract_package_name("- [ ] node"), Some("node".to_string()));
    assert_eq!(extract_package_name("## Formulae"), None);
    assert_eq!(extract_package_name("random text"), None);
}

#[test]
fn test_malformed_lines_contribute_nothing() {
    let content = "- [x Invalid bracket\n- Invalid checkbox format\n- [ ] git\n";
    let settings = read_existing_settings(content);
    assert_eq!(settings.get("git"), Some(false));
    assert!(!settings.is_empty());
    assert!(!settings.any_enabled());

    let sectioned = format!("## Formulae\n{}", content);
    let (formulae, casks) = read_previous_packages(&sectioned);
    assert_eq!(formulae, vec!["git".to_string()]);
    assert!(casks.is_empty());
}

#[test]
fn test_blank_names_are_dropped() {
    let content = "- [x]\n- [x] \n- [ ]   \n- [x] real\n";
    let settings = read_existing_settings(content);
    assert_eq!(settings.get("real"), Some(true));
    assert_eq!(settings.get(""), None);
}

#[test]
fn test_unknown_section_header_resets_cursor() {
    let content = "## Formulae\n- [x] git\n## Statistics\n- [x] stray\n## Casks\n- [ ] docker\n";
    let (formulae, casks) = read_previous_packages(content);
    assert_eq!(formulae, vec!["git".to_string()]);
    assert_eq!(casks, vec!["docker".to_string()]);
}

#[test]
fn test_round_trip_preserves_choices() {
    let formulae = vec!["git".to_string(), "node".to_string()];
    let casks = vec!["docker".to_string()];
    let mut settings = Settings::new();
    settings.insert("git".to_string(), false);
    settings.insert("docker".to_string(), true);
    settings.insert("gone".to_string(), false);

    let content =
        generate_settings_content_at("2024-01-01 00:00:00 UTC", &formulae, &casks, &settings, None);
    let parsed = read_existing_settings(&content);

    // choices of present names survive, absent names default to enabled
    assert_eq!(parsed.get("git"), Some(false));
    assert_eq!(parsed.get("node"), Some(true));
    assert_eq!(parsed.get("docker"), Some(true));
    // names no longer installed are pruned
    assert_eq!(parsed.get("gone"), None);
}

#[test]
fn test_generation_is_deterministic_but_for_timestamp() {
    let formulae = vec!["b".to_string(), "a".to_string()];
    let casks = vec!["z".to_string()];
    let settings = Settings::new();

    let one =
        generate_settings_content_at("2024-01-01 00:00:00 UTC", &formulae, &casks, &settings, None);
    let two =
        generate_settings_content_at("2025-06-30 23:59:59 UTC", &formulae, &casks, &settings, None);

    let lines_one: Vec<&str> = one.lines().collect();
    let lines_two: Vec<&str> = two.lines().collect();
    assert_eq!(lines_one.len(), lines_two.len());
    for (i, (l1, l2)) in lines_one.iter().zip(lines_two.iter()).enumerate() {
        if i == 2 {
            assert_eq!(*l1, "Generated on: 2024-01-01 00:00:00 UTC");
            assert_eq!(*l2, "Generated on: 2025-06-30 23:59:59 UTC");
        } else {
            assert_eq!(l1, l2);
        }
    }
}

#[test]
fn test_generated_document_shape() {
    let formulae = vec!["b".to_string(), "a".to_string()];
    let casks: Vec<String> = Vec::new();
    let settings = Settings::new();
    let content =
        generate_settings_content_at("2024-01-01 00:00:00 UTC", &formulae, &casks, &settings, None);
    assert_eq!(
        content,
        "# Brew Auto-Update Settings\n\nGenerated on: 2024-01-01 00:00:00 UTC\n\n\
## Formulae\n\n- [x] a\n- [x] b\n\n## Casks\n\n"
    );
}

#[test]
fn test_previous_inventory_round_trip() {
    let formulae = vec!["node".to_string(), "git".to_string()];
    let casks = vec!["firefox".to_string(), "docker".to_string()];
    let settings = Settings::new();
    let content =
        generate_settings_content_at("2024-01-01 00:00:00 UTC", &formulae, &casks, &settings, None);
    let (prev_formulae, prev_casks) = read_previous_packages(&content);
    assert_eq!(prev_formulae, vec!["git".to_string(), "node".to_string()]);
    assert_eq!(prev_casks, vec!["docker".to_string(), "firefox".to_string()]);
}

#[test]
fn test_timestamp_line_present() {
    let formulae: Vec<String> = Vec::new();
    let casks: Vec<String> = Vec::new();
    let settings = Settings::new();
    let content = generate_settings_content(&formulae, &casks, &settings, None);
    assert!(content.starts_with("# Brew Auto-Update Settings\n\nGenerated on: "));
}

#[test]
fn test_settings_insert_last_wins() {
    let mut settings = Settings::new();
    assert!(settings.is_empty());
    settings.insert("git".to_string(), true);
    settings.insert("git".to_string(), false);
    assert_eq!(settings.get("git"), Some(false));
    assert!(!settings.any_enabled());
    settings.insert("node".to_string(), true);
    assert!(settings.any_enabled());
}
