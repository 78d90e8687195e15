use zen::Zen;
use zen::engine::RemoveOutcome;
use zen::shell::{build_invocation, interactive_enabled, ShellConfig};
use zen::text::{browse_entries, join_with_spaces, position_of, selected_alias};

fn args(parts: &[&str]) -> Vec<String> {
    parts.iter().map(|p| p.to_string()).collect()
}

#[test]
fn test_resolve_unregistered_alias_is_none() {
    let zen = Zen::new();
    let cfg = ShellConfig { shell: None, interactive: None };
    assert!(zen.resolve_alias("missing", &args(&[])).is_none());
    assert!(zen.resolve_invocation("missing", &args(&[]), &cfg).is_none());
}

#[test]
fn test_register_then_resolve() {
    let mut zen = Zen::new();
    zen.register_alias("dev".to_string(), "npm run dev".to_string())
        .unwrap();

    assert_eq!(zen.resolve_alias("dev", &args(&[])), Some("npm run dev".to_string()));
    assert_eq!(
        zen.resolve_alias("dev", &args(&["--port", "3000"])),
        Some("npm run dev --port 3000".to_string())
    );
}

#[test]
fn test_register_persists_and_reloads() {
    let mut zen = Zen::new();
    let artifact = zen
        .register_alias("dev".to_string(), "npm run dev".to_string())
        .unwrap();

    let reloaded = Zen::load(Some(artifact.as_str())).unwrap();
    assert_eq!(reloaded.resolve_alias("dev", &args(&[])), Some("npm run dev".to_string()));
}

#[test]
fn test_add_then_remove_restores_emptiness() {
    let mut zen = Zen::new();
    zen.register_alias("dev".to_string(), "npm run dev".to_string())
        .unwrap();
    assert!(!zen.is_empty());

    let outcome = zen.discard_alias("dev").unwrap();
    assert!(matches!(outcome, RemoveOutcome::Removed(_)));
    assert!(zen.is_empty());
}

#[test]
fn test_remove_absent_alias_saves_nothing() {
    let mut zen = Zen::new();
    let outcome = zen.discard_alias("missing").unwrap();
    assert!(matches!(outcome, RemoveOutcome::NotPresent));
}

#[test]
fn test_end_to_end_resolution() {
    let mut zen = Zen::new();
    zen.register_alias("dev".to_string(), "npm run dev".to_string())
        .unwrap();
    let cfg = ShellConfig { shell: None, interactive: None };

    let plain = zen.resolve_invocation("dev", &args(&[]), &cfg).unwrap();
    assert_eq!(plain.program, "/bin/sh");
    assert_eq!(plain.args, args(&["-c", "npm run dev"]));

    let with_args = zen
        .resolve_invocation("dev", &args(&["--port", "3000"]), &cfg)
        .unwrap();
    assert_eq!(with_args.args, args(&["-c", "npm run dev --port 3000"]));
}

#[test]
fn test_interactive_toggle_is_case_insensitive() {
    assert!(interactive_enabled("true"));
    assert!(interactive_enabled("TRUE"));
    assert!(interactive_enabled("TrUe"));
    assert!(!interactive_enabled("false"));
    assert!(!interactive_enabled("yes"));
    assert!(!interactive_enabled(""));
}

#[test]
fn test_build_invocation_honours_configuration() {
    let cfg = ShellConfig {
        shell: Some("/bin/bash".to_string()),
        interactive: Some("TRUE".to_string()),
    };
    let inv = build_invocation(&cfg, "ls -l".to_string());
    assert_eq!(inv.program, "/bin/bash");
    assert_eq!(inv.args, args(&["-i", "-c", "ls -l"]));

    let plain = ShellConfig {
        shell: None,
        interactive: Some("no".to_string()),
    };
    let inv = build_invocation(&plain, "ls".to_string());
    assert_eq!(inv.program, "/bin/sh");
    assert_eq!(inv.args, args(&["-c", "ls"]));
}

#[test]
fn test_browse_entries_and_selection() {
    let entries = vec![
        ("dev".to_string(), "npm run dev".to_string()),
        ("test".to_string(), "npm test".to_string()),
    ];
    let lines = browse_entries(&entries);
    assert_eq!(lines, args(&["dev\tnpm run dev", "test\tnpm test"]));

    assert_eq!(selected_alias("dev\tnpm run dev"), "dev");
    assert_eq!(selected_alias("plain"), "plain");
    assert_eq!(selected_alias(""), "");
}

#[test]
fn test_join_with_spaces() {
    assert_eq!(join_with_spaces(&args(&[])), "");
    assert_eq!(join_with_spaces(&args(&["one"])), "one");
    assert_eq!(join_with_spaces(&args(&["npm", "run", "dev"])), "npm run dev");
}

#[test]
fn test_position_of_flag() {
    assert_eq!(position_of(&args(&["dev", "--register", "npm"]), "--register"), Some(1));
    assert_eq!(position_of(&args(&["dev", "npm"]), "--register"), None);
}

#[test]
fn test_str_eq() {
    assert!(zen::str_eq("same", "same"));
    assert!(!zen::str_eq("same", "sam"));
    assert!(!zen::str_eq("Same", "same"));
    assert!(zen::str_eq("", ""));
}
