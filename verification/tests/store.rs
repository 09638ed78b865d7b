use snipe_yourself::error::ConfigError;
use snipe_yourself::read_config;
use snipe_yourself::store::{has_shallow_nesting, MAX_NESTING_MARKS};

const DEFAULT: &str = "client_id: \nclient_secret: \nprofile_id: ";

#[test]
fn default_file_holds_three_unset_settings() {
    let config = read_config(DEFAULT).unwrap();
    assert_eq!(config.section_names(), vec!["client_id", "client_secret", "profile_id"]);
    for section in config.sections() {
        assert_eq!(section.value, "~");
    }
    assert_eq!(config.contents(), DEFAULT);
}

#[test]
fn values_are_shown_as_yaml_writes_them() {
    let config = read_config("a: \"\"\nb: 'x y'\nc: 12\nd: true\ne: [1, 2]\nf:\n  g: h").unwrap();
    let shown: Vec<(&str, &str)> =
        config.sections().iter().map(|s| (s.name.as_str(), s.value.as_str())).collect();
    assert_eq!(
        shown,
        vec![
            ("a", "\"\""),
            ("b", "x y"),
            ("c", "12"),
            ("d", "true"),
            ("e", "- 1\n- 2"),
            ("f", "g: h"),
        ]
    );
}

#[test]
fn has_section_finds_exact_names_only() {
    let config = read_config(DEFAULT).unwrap();
    assert!(config.has_section("client_id"));
    assert!(config.has_section("profile_id"));
    assert!(!config.has_section("client"));
    assert!(!config.has_section("Client_id"));
    assert!(!config.has_section(""));
}

#[test]
fn a_repeated_name_keeps_its_last_value() {
    let config = read_config("a: b\na: c").unwrap();
    assert_eq!(config.section_names(), vec!["a"]);
    assert_eq!(config.sections()[0].value, "c");
}

#[test]
fn a_text_that_is_no_mapping_holds_no_settings() {
    assert!(read_config("just a scalar").unwrap().section_names().is_empty());
    assert!(read_config("- a\n- b").unwrap().section_names().is_empty());
}

#[test]
fn empty_text_does_not_load() {
    assert!(matches!(read_config(""), Err(ConfigError::Parse)));
    assert!(matches!(read_config("# only a comment\n"), Err(ConfigError::Parse)));
}

#[test]
fn malformed_text_does_not_load() {
    assert!(matches!(read_config("a: [1, 2"), Err(ConfigError::Parse)));
}

#[test]
fn names_that_are_not_text_collide_and_do_not_load() {
    assert!(matches!(read_config("1: a\n2: b"), Err(ConfigError::Parse)));
}

#[test]
fn a_text_with_the_most_nesting_marks_loads() {
    assert_eq!(MAX_NESTING_MARKS, 256);
    let text = format!("a: {}", "-".repeat(255));
    assert!(has_shallow_nesting(&text));
    let config = read_config(&text).unwrap();
    assert_eq!(config.section_names(), vec!["a"]);
    assert_eq!(config.sections()[0].value.matches('-').count(), 255);
    let nested = format!("{}a", "- ".repeat(256));
    assert!(has_shallow_nesting(&nested));
    assert!(read_config(&nested).unwrap().section_names().is_empty());
}

#[test]
fn a_text_with_too_many_nesting_marks_does_not_load() {
    let text = format!("a: {}", "-".repeat(256));
    assert!(!has_shallow_nesting(&text));
    assert!(matches!(read_config(&text), Err(ConfigError::Parse)));
    for mark in ["- ", "? ", "[", "{", "a: "] {
        let nested = format!("{}a", mark.repeat(257));
        assert!(!has_shallow_nesting(&nested));
        assert!(matches!(read_config(&nested), Err(ConfigError::Parse)));
    }
}

#[test]
fn a_text_nested_very_deep_does_not_load() {
    let dashes = format!("{}a", "- ".repeat(100_000));
    assert!(matches!(read_config(&dashes), Err(ConfigError::Parse)));
    let keys = format!("{}a", "? ".repeat(100_000));
    assert!(matches!(read_config(&keys), Err(ConfigError::Parse)));
    let block: String = (0..2000).map(|i| format!("{}a:\n", " ".repeat(i))).collect();
    assert!(matches!(read_config(&block), Err(ConfigError::Parse)));
    let aliases: String = (0..5000)
        .map(|i| {
            if i == 0 {
                "a0: &a0 [x]\n".to_string()
            } else {
                format!("a{}: &a{} [*a{}]\n", i, i, i - 1)
            }
        })
        .collect();
    assert!(matches!(read_config(&aliases), Err(ConfigError::Parse)));
}

#[test]
fn nesting_marks_are_counted_wherever_they_stand() {
    assert!(has_shallow_nesting(""));
    assert!(has_shallow_nesting(&"x".repeat(100_000)));
    assert!(has_shallow_nesting(&"]})".repeat(1000)));
    assert!(has_shallow_nesting(&"a-?:[{".repeat(51)));
    assert!(!has_shallow_nesting(&"a-?:[{".repeat(52)));
}

#[test]
fn errors_have_a_message_and_a_status() {
    let errors = [
        ConfigError::Parse,
        ConfigError::NoSettings,
        ConfigError::MissingLine,
        ConfigError::UserAborted,
    ];
    for error in errors {
        assert!(!error.message().is_empty());
        assert_eq!(error.exit_code(), 1);
    }
    assert_eq!(ConfigError::Parse.message(), "the config file could not be parsed");
    assert_eq!(ConfigError::UserAborted.message(), "cancelled");
}
