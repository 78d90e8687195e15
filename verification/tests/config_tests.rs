use zen::ZenConfig;

#[test]
fn test_new_config() {
    let config = ZenConfig::new();
    assert!(config.available_aliases().is_empty());
    assert!(config.is_empty());
}

#[test]
fn test_add_command() {
    let mut config = ZenConfig::new();
    config.add_command("dev".to_string(), "npm run dev".to_string());

    assert_eq!(config.get_command("dev"), Some("npm run dev".to_string()));
    assert!(!config.is_empty());
}

#[test]
fn test_remove_command() {
    let mut config = ZenConfig::new();
    config.add_command("dev".to_string(), "npm run dev".to_string());

    assert!(config.remove_command("dev"));
    assert!(config.is_empty());
    assert!(!config.remove_command("nonexistent"));
}

#[test]
fn test_available_aliases() {
    let mut config = ZenConfig::new();
    config.add_command("dev".to_string(), "npm run dev".to_string());
    config.add_command("test".to_string(), "npm test".to_string());

    let aliases = config.available_aliases();
    assert_eq!(aliases.len(), 2);

    // Check that both aliases are present (no order is promised)
    let has_dev = aliases
        .iter()
        .any(|(alias, cmd)| alias == "dev" && cmd == "npm run dev");
    let has_test = aliases
        .iter()
        .any(|(alias, cmd)| alias == "test" && cmd == "npm test");

    assert!(has_dev);
    assert!(has_test);
}

#[test]
fn test_readd_replaces_template() {
    let mut config = ZenConfig::new();
    config.add_command("dev".to_string(), "npm run dev".to_string());
    config.add_command("dev".to_string(), "cargo run".to_string());

    assert_eq!(config.get_command("dev"), Some("cargo run".to_string()));
    assert_eq!(config.available_aliases().len(), 1);
}
