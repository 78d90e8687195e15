use zen::ZenConfig;
use zen::config::StoreError;

#[test]
fn test_load_absent_artifact_is_empty() {
    let config = ZenConfig::load(None).unwrap();
    assert!(config.is_empty());
}

#[test]
fn test_load_corrupted_artifact_fails() {
    let result = ZenConfig::load(Some("this is [ not toml"));
    assert!(matches!(result, Err(StoreError::Deserialization(_))));
}

#[test]
fn test_load_without_commands_table_fails() {
    // a well-formed TOML document, but not of the registry's shape
    let result = ZenConfig::load(Some("[other]\nkey = \"value\"\n"));
    assert!(matches!(result, Err(StoreError::Deserialization(_))));
}

#[test]
fn test_load_empty_text_fails() {
    // an empty document holds no commands table
    let result = ZenConfig::load(Some(""));
    assert!(matches!(result, Err(StoreError::Deserialization(_))));
}

#[test]
fn test_load_artifact_text() {
    let config = ZenConfig::load(Some("[commands]\ndev = \"npm run dev\"\n")).unwrap();
    assert_eq!(config.get_command("dev"), Some("npm run dev".to_string()));
    assert_eq!(config.get_command("other"), None);
}

#[test]
fn test_save_load_round_trip() {
    let mut config = ZenConfig::new();
    config.add_command("dev".to_string(), "npm run dev".to_string());
    config.add_command("test".to_string(), "npm test -- --nocapture".to_string());
    config.add_command("greet".to_string(), "echo \"hi {}\"".to_string());

    let artifact = config.save().unwrap();
    let reloaded = ZenConfig::load(Some(artifact.as_str())).unwrap();

    assert_eq!(reloaded.get_command("dev"), Some("npm run dev".to_string()));
    assert_eq!(
        reloaded.get_command("test"),
        Some("npm test -- --nocapture".to_string())
    );
    assert_eq!(reloaded.get_command("greet"), Some("echo \"hi {}\"".to_string()));
    assert_eq!(reloaded.available_aliases().len(), 3);
}

#[test]
fn test_save_load_round_trip_empty() {
    let artifact = ZenConfig::new().save().unwrap();
    let reloaded = ZenConfig::load(Some(artifact.as_str())).unwrap();
    assert!(reloaded.is_empty());
}
