use zen::Zen;

fn args(parts: &[&str]) -> Vec<String> {
    parts.iter().map(|p| p.to_string()).collect()
}

#[test]
fn test_parameter_substitution() {
    let zen = Zen::new();

    // Test single parameter
    let result = zen.substitute_parameters("test {} --verbose", &args(&["mytest"]));
    assert_eq!(result, "test mytest --verbose");

    // Test multiple parameters
    let result = zen.substitute_parameters("cp {} {}", &args(&["file1.txt", "file2.txt"]));
    assert_eq!(result, "cp file1.txt file2.txt");

    // Test extra args without placeholders
    let result = zen.substitute_parameters("make build", &args(&["--release", "--target"]));
    assert_eq!(result, "make build --release --target");

    // Test no args with placeholders (should leave placeholders)
    let result = zen.substitute_parameters("test {} --verbose", &args(&[]));
    assert_eq!(result, "test {} --verbose");

    // Test mixed: some placeholders filled, extra args appended
    let result = zen.substitute_parameters("run {} tests", &args(&["unit", "--verbose", "--parallel"]));
    assert_eq!(result, "run unit tests --verbose --parallel");
}

#[test]
fn test_substitution_empty_template() {
    let zen = Zen::new();
    assert_eq!(zen.substitute_parameters("", &args(&[])), "");
    assert_eq!(zen.substitute_parameters("", &args(&["x"])), " x");
}

#[test]
fn test_substitution_fewer_args_than_markers() {
    let zen = Zen::new();
    // exactly one marker is filled, left to right; the other stays verbatim
    assert_eq!(zen.substitute_parameters("cp {} {}", &args(&["only"])), "cp only {}");
}

#[test]
fn test_substitution_argument_carrying_marker() {
    let zen = Zen::new();
    // only the template's own markers are fill targets: an argument that
    // itself holds the marker is inserted or appended literally, never filled
    assert_eq!(zen.substitute_parameters("a", &args(&["{}", "x"])), "a {} x");
    assert_eq!(
        zen.substitute_parameters("a {} b {}", &args(&["{}", "x"])),
        "a {} b x"
    );
}

#[test]
fn test_substitution_empty_argument() {
    let zen = Zen::new();
    // an empty argument erases its marker; adjacent braces never become a
    // fill target for the next argument
    assert_eq!(zen.substitute_parameters("{{}}", &args(&["", "z"])), "{} z");
}

#[test]
fn test_substitution_unicode_text() {
    let zen = Zen::new();
    assert_eq!(
        zen.substitute_parameters("grüß {} können", &args(&["welt"])),
        "grüß welt können"
    );
}
