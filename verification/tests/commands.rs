use snipe_yourself::commands::{
    blank_config, default_config, default_keys, ensure_config_exists, list, report_update, reset,
    SetArgs, SetStep, RESET_QUESTION,
};
use snipe_yourself::store::Config;
use snipe_yourself::error::ConfigError;
use snipe_yourself::read_config;

const DEFAULT: &str = "client_id: \nclient_secret: \nprofile_id: ";

const NOT_SET: &str = "\x1b[31m[N/A]\x1b[39m";

const REDACTED: &str = "\x1b[31m[redacted]\x1b[39m";

fn label(text: &str) -> String {
    format!("\x1b[1m{}\x1b[0m", text)
}

fn args(setting: &str, value: Option<&str>) -> SetArgs {
    SetArgs { setting: setting.to_string(), value: value.map(|v| v.to_string()) }
}

fn set(config: &Config, args: &SetArgs, answer: Option<bool>) -> Result<SetStep, ConfigError> {
    snipe_yourself::commands::set(config, args, answer)
}

fn written(step: Result<SetStep, ConfigError>) -> (String, String) {
    match step {
        Ok(SetStep::Write { contents, message }) => (contents, message),
        Ok(SetStep::Confirm { prompt }) => panic!("asked: {}", prompt),
        Err(error) => panic!("failed: {:?}", error),
    }
}

fn listed(contents: &str) -> Vec<String> {
    list(&read_config(contents).unwrap())
}

#[test]
fn default_config_is_three_blank_settings() {
    assert_eq!(default_config(), DEFAULT);
    assert_eq!(default_keys(), vec!["client_id", "client_secret", "profile_id"]);
    assert_eq!(blank_config(&default_keys()), DEFAULT);
}

#[test]
fn blank_config_of_no_keys_is_empty() {
    assert_eq!(blank_config(&Vec::new()), "");
    assert_eq!(blank_config(&vec!["only".to_string()]), "only: ");
}

#[test]
fn missing_file_is_created_with_the_defaults() {
    assert_eq!(ensure_config_exists(false), Some(DEFAULT.to_string()));
}

#[test]
fn existing_file_is_left_alone() {
    assert_eq!(ensure_config_exists(true), None);
}

#[test]
fn ensuring_twice_creates_once() {
    let first = ensure_config_exists(false);
    assert!(first.is_some());
    // the file exists after the first call was acted on
    assert_eq!(ensure_config_exists(true), None);
}

#[test]
fn list_after_creation_shows_every_default_key_as_not_set() {
    let contents = ensure_config_exists(false).unwrap();
    assert_eq!(
        listed(&contents),
        vec![
            format!("{}: {}", label("Client Id"), NOT_SET),
            format!("{}: {}", label("Client Secret"), NOT_SET),
            format!("{}: {}", label("Profile Id"), NOT_SET),
        ]
    );
}

#[test]
fn list_keeps_the_order_of_the_file() {
    assert_eq!(
        listed("zeta: 1\nalpha: two\nmid_key: 3"),
        vec![
            format!("{}: 1", label("Zeta")),
            format!("{}: two", label("Alpha")),
            format!("{}: 3", label("Mid Key")),
        ]
    );
}

#[test]
fn list_redacts_the_client_secret() {
    assert_eq!(
        listed("client_id: abc\nclient_secret: hunter2\nprofile_id: 7"),
        vec![
            format!("{}: abc", label("Client Id")),
            format!("{}: {}", label("Client Secret"), REDACTED),
            format!("{}: 7", label("Profile Id")),
        ]
    );
}

#[test]
fn list_shows_an_unset_secret_as_not_set() {
    assert_eq!(
        listed("client_secret: ~"),
        vec![format!("{}: {}", label("Client Secret"), NOT_SET)]
    );
}

#[test]
fn list_shows_a_name_with_too_many_brackets_as_it_is_spelled() {
    let name = format!("\"{}a_b\"", "(".repeat(130));
    let lines = listed(&format!("{}: 1", name));
    assert_eq!(lines, vec![format!("{}: 1", label(&format!("{}a b", "(".repeat(130))))]);
}

#[test]
fn list_of_a_file_without_settings_is_empty() {
    assert_eq!(listed("just a scalar"), Vec::<String>::new());
}

#[test]
fn reset_confirmed_restores_the_defaults() {
    let outcome = reset(true);
    assert_eq!(outcome.contents, Some(DEFAULT.to_string()));
    assert_eq!(outcome.message, "\x1b[32mConfig reset!\x1b[39m");
}

#[test]
fn reset_declined_writes_nothing() {
    let outcome = reset(false);
    assert_eq!(outcome.contents, None);
    assert_eq!(outcome.message, "\x1b[32mReset cancelled!\x1b[39m");
}

#[test]
fn reset_question_is_worded_for_the_user() {
    assert_eq!(RESET_QUESTION, "Are you sure you would like to reset your config?");
}

#[test]
fn reset_then_list_shows_the_defaults_whatever_was_set_before() {
    let config = read_config(DEFAULT).unwrap();
    let (changed, _) = written(set(&config, &args("client_id", Some("abc")), None));
    let config = read_config(&changed).unwrap();
    let (changed, _) = written(set(&config, &args("client_secret", Some("s3cret")), None));
    assert_ne!(changed, DEFAULT);
    let contents = reset(true).contents.unwrap();
    assert_eq!(
        listed(&contents),
        vec![
            format!("{}: {}", label("Client Id"), NOT_SET),
            format!("{}: {}", label("Client Secret"), NOT_SET),
            format!("{}: {}", label("Profile Id"), NOT_SET),
        ]
    );
}

#[test]
fn set_then_list_shows_the_new_value() {
    let config = read_config(DEFAULT).unwrap();
    let (contents, message) = written(set(&config, &args("client_id", Some("abc")), None));
    assert_eq!(contents, "client_id: abc\nclient_secret: \nprofile_id: ");
    assert_eq!(
        message,
        format!("Successfully updated {} to {}!", label("Client Id"), label("abc"))
    );
    assert_eq!(
        listed(&contents),
        vec![
            format!("{}: abc", label("Client Id")),
            format!("{}: {}", label("Client Secret"), NOT_SET),
            format!("{}: {}", label("Profile Id"), NOT_SET),
        ]
    );
}

#[test]
fn set_of_a_known_name_ignores_the_answer() {
    let config = read_config(DEFAULT).unwrap();
    let (contents, _) = written(set(&config, &args("profile_id", Some("42")), Some(false)));
    assert_eq!(contents, "client_id: \nclient_secret: \nprofile_id: 42");
}

#[test]
fn set_of_a_mistyped_name_asks_first() {
    let config = read_config(DEFAULT).unwrap();
    match set(&config, &args("cilent_id", Some("abc")), None) {
        Ok(SetStep::Confirm { prompt }) => {
            assert_eq!(prompt, "Setting \"cilent_id\" does not exist. Did you mean Client Id?")
        }
        _ => panic!("a confirmation was expected"),
    }
}

#[test]
fn set_of_a_mistyped_name_confirmed_updates_the_match() {
    let config = read_config(DEFAULT).unwrap();
    let (contents, message) = written(set(&config, &args("cilent_id", Some("abc")), Some(true)));
    assert_eq!(contents, "client_id: abc\nclient_secret: \nprofile_id: ");
    assert_eq!(
        message,
        format!("Successfully updated {} to {}!", label("Client Id"), label("abc"))
    );
}

#[test]
fn set_of_a_mistyped_name_declined_aborts() {
    let config = read_config(DEFAULT).unwrap();
    let result = set(&config, &args("cilent_id", Some("abc")), Some(false));
    assert!(matches!(result, Err(ConfigError::UserAborted)));
    assert_eq!(config.contents(), DEFAULT);
}

#[test]
fn set_to_the_empty_string_shows_as_not_set() {
    let config = read_config("client_id: abc\nclient_secret: x\nprofile_id: 7").unwrap();
    let (contents, message) = written(set(&config, &args("client_id", Some("")), None));
    assert_eq!(contents, "client_id: \nclient_secret: x\nprofile_id: 7");
    assert_eq!(
        message,
        format!(
            "Successfully updated {} to {}!",
            label("Client Id"),
            label(NOT_SET)
        )
    );
    assert_eq!(listed(&contents)[0], format!("{}: {}", label("Client Id"), NOT_SET));
}

#[test]
fn set_without_a_value_clears_the_setting() {
    let config = read_config("client_id: abc\nclient_secret: x\nprofile_id: 7").unwrap();
    let (contents, _) = written(set(&config, &args("client_secret", None), None));
    assert_eq!(contents, "client_id: abc\nclient_secret: \nprofile_id: 7");
    assert_eq!(listed(&contents)[1], format!("{}: {}", label("Client Secret"), NOT_SET));
}

#[test]
fn set_leaves_the_other_lines_as_they_were() {
    let before = "# my settings\r\nclient_id:    spaced   \n\nclient_secret: 'q: r'\nprofile_id: \u{e9}t\u{e9}\n";
    let config = read_config(before).unwrap();
    let (after, _) = written(set(&config, &args("client_secret", Some("new")), None));
    let old_lines: Vec<&str> = before.split('\n').collect();
    let new_lines: Vec<&str> = after.split('\n').collect();
    assert_eq!(old_lines.len(), new_lines.len());
    for (index, (old, new)) in old_lines.iter().zip(new_lines.iter()).enumerate() {
        if index == 3 {
            assert_eq!(*new, "client_secret: new");
        } else {
            assert_eq!(old.as_bytes(), new.as_bytes());
        }
    }
}

#[test]
fn set_on_a_file_without_settings_has_nothing_to_suggest() {
    let config = read_config("just a scalar").unwrap();
    let result = set(&config, &args("client_id", Some("abc")), None);
    assert!(matches!(result, Err(ConfigError::NoSettings)));
}

#[test]
fn set_reads_the_name_to_the_letter() {
    let config = read_config("a(: 1").unwrap();
    let (contents, _) = written(set(&config, &args("a(", Some("2")), None));
    assert_eq!(contents, "a(: 2");
    let config = read_config("c++: 1").unwrap();
    let (contents, _) = written(set(&config, &args("c++", Some("2")), None));
    assert_eq!(contents, "c++: 2");
}

#[test]
fn set_rewrites_the_line_of_the_setting_and_of_no_other() {
    let config = read_config("client_id: abc\nclient.id: x").unwrap();
    let (contents, _) = written(set(&config, &args("client.id", Some("new")), None));
    assert_eq!(contents, "client_id: abc\nclient.id: new");
    assert_eq!(
        listed(&contents),
        vec![format!("{}: abc", label("Client Id")), format!("{}: new", label("client.id"))]
    );
}

#[test]
fn set_of_a_setting_without_a_line_of_its_own_fails() {
    let config = read_config("\"client_id\": abc").unwrap();
    let result = set(&config, &args("client_id", Some("x")), None);
    assert!(matches!(result, Err(ConfigError::MissingLine)));
}

#[test]
fn update_message_names_the_setting_and_the_value() {
    assert_eq!(
        report_update("profile_id", "42"),
        "Successfully updated \x1b[1mProfile Id\x1b[0m to \x1b[1m42\x1b[0m!"
    );
    assert_eq!(
        report_update("profile_id", ""),
        "Successfully updated \x1b[1mProfile Id\x1b[0m to \x1b[1m\x1b[31m[N/A]\x1b[39m\x1b[0m!"
    );
}
