//! The commands on the settings file: what each one shows, asks and writes.
//!
//! Nothing here reads or writes a file or a terminal. A command takes what was
//! read and what the user answered, and returns the text to show and the text
//! to write.

use crate::error::ConfigError;
use crate::key::{display_key, displayed_key};
use crate::resolver::{closest_key, confirmation_prompt, resolve, Resolution};
use crate::rewrite::{
    first_setting_line, has_one_setting_line, has_setting_line, is_headed_by, is_line,
    is_setting_line, lemma_first_setting_line, lemma_line_end_is_unique, rewrite_setting,
    rewritten, setting_line,
};
use crate::store::{Config, ConfigView, Entry};
use crate::style::{bold, embolden, green, paint_green, paint_red, red};
use crate::text::string_views;
use vstd::prelude::*;
use vstd::string::*;

verus! {

/// The question that `reset` needs answered before it does anything.
pub const RESET_QUESTION: &'static str = "Are you sure you would like to reset your config?";

/// The names of the settings that a fresh file holds.
pub open spec fn default_key_names() -> Seq<Seq<char>> {
    seq!["client_id"@, "client_secret"@, "profile_id"@]
}

/// A file text that holds each of `keys` with no value, one line per key and
/// no line feed after the last.
pub open spec fn blank_settings(keys: Seq<Seq<char>>) -> Seq<char>
    decreases keys.len(),
{
    if keys.len() == 0 {
        Seq::empty()
    } else if keys.len() == 1 {
        setting_line(keys[0], Seq::empty())
    } else {
        blank_settings(keys.drop_last()) + seq!['\n'] + setting_line(keys.last(), Seq::empty())
    }
}

/// The text of a fresh settings file.
pub open spec fn default_contents() -> Seq<char> {
    blank_settings(default_key_names())
}

/// The names of the settings that a fresh file holds.
pub fn default_keys() -> (keys: Vec<String>)
    ensures
        string_views(keys@) == default_key_names(),
{
    let mut keys: Vec<String> = Vec::new();
    keys.push(String::from_str("client_id"));
    keys.push(String::from_str("client_secret"));
    keys.push(String::from_str("profile_id"));
    keys
}

/// A file text that holds each of `keys` with no value.
pub fn blank_config(keys: &Vec<String>) -> (text: String)
    ensures
        text@ == blank_settings(string_views(keys@)),
{
    let mut text = String::new();
    let mut i: usize = 0;
    while i < keys.len()
        invariant
            i <= keys.len(),
            text@ == blank_settings(string_views(keys@).take(i as int)),
        decreases keys.len() - i,
    {
        proof {
            let done = string_views(keys@).take(i as int);
            let next = string_views(keys@).take(i + 1);
            assert(next.drop_last() == done);
            reveal_strlit("\n");
        }
        if i > 0 {
            text.append("\n");
        }
        text.append(keys[i].as_str());
        text.append(": ");
        i += 1;
    }
    assert(string_views(keys@).take(keys.len() as int) == string_views(keys@));
    text
}

/// The text of a fresh settings file.
pub fn default_config() -> (text: String)
    ensures
        text@ == default_contents(),
{
    let keys = default_keys();
    blank_config(&keys)
}

/// What is to be written where the settings file may be missing: the text of
/// a fresh file where none exists, and nothing where one does.
pub fn ensure_config_exists(exists: bool) -> (created: Option<String>)
    ensures
        created is None <==> exists,
        created matches Some(text) ==> text@ == default_contents(),
{
    if exists {
        None
    } else {
        Some(default_config())
    }
}

/// How the value of a setting is shown in a listing: a setting without a
/// value as not available, the client secret as redacted whatever it holds,
/// any other as it is.
pub open spec fn shown_value(entry: Entry) -> Seq<char> {
    if entry.value == "~"@ {
        red("[N/A]"@)
    } else if entry.name == "client_secret"@ {
        red("[redacted]"@)
    } else {
        entry.value
    }
}

/// The line of a listing for one setting.
pub open spec fn listing_line(entry: Entry) -> Seq<char> {
    bold(displayed_key(entry.name)) + ": "@ + shown_value(entry)
}

/// The lines of a listing, one for each setting in the order of the file.
pub open spec fn listing(config: ConfigView) -> Seq<Seq<char>> {
    config.entries.map_values(|entry: Entry| listing_line(entry))
}

/// The lines that show the settings of the file, in the order of the file.
pub fn list(config: &Config) -> (lines: Vec<String>)
    ensures
        string_views(lines@) == listing(config@),
{
    let sections = config.sections();
    let unset = String::from_str("~");
    let secret = String::from_str("client_secret");
    let mut lines: Vec<String> = Vec::new();
    let mut i: usize = 0;
    while i < sections.len()
        invariant
            i <= sections.len(),
            unset@ == "~"@,
            secret@ == "client_secret"@,
            sections@.len() == config@.entries.len(),
            forall|j: int| 0 <= j < sections@.len() ==> sections@[j]@ == config@.entries[j],
            lines@.len() == i,
            forall|j: int| 0 <= j < i ==> lines@[j]@ == listing_line(config@.entries[j]),
        decreases sections.len() - i,
    {
        let section = &sections[i];
        let shown = if section.value == unset {
            paint_red("[N/A]")
        } else if section.name == secret {
            paint_red("[redacted]")
        } else {
            section.value.clone()
        };
        let mut line = embolden(display_key(section.name.as_str()).as_str());
        line.append(": ");
        line.append(shown.as_str());
        lines.push(line);
        i += 1;
    }
    lines
}

/// What `reset` leaves to be done: the text to write over the file, if any,
/// and the message to show.
#[derive(Debug)]
pub struct ResetOutcome {
    pub contents: Option<String>,
    pub message: String,
}

/// Resets the file to its fresh state if the user confirmed, and leaves it as
/// it is if not. Either way a message says what was done.
pub fn reset(confirmed: bool) -> (outcome: ResetOutcome)
    ensures
        outcome.contents is Some <==> confirmed,
        outcome.contents matches Some(text) ==> text@ == default_contents(),
        confirmed ==> outcome.message@ == green("Config reset!"@),
        !confirmed ==> outcome.message@ == green("Reset cancelled!"@),
{
    if confirmed {
        ResetOutcome { contents: Some(default_config()), message: paint_green("Config reset!") }
    } else {
        ResetOutcome { contents: None, message: paint_green("Reset cancelled!") }
    }
}

/// What the user typed after `set`: the name of a setting, and its new value.
#[derive(Debug)]
pub struct SetArgs {
    pub setting: String,
    pub value: Option<String>,
}

impl SetArgs {
    /// The value to store: the one given, or none at all.
    pub open spec fn value_text(self) -> Seq<char> {
        match self.value {
            Some(value) => value@,
            None => Seq::empty(),
        }
    }
}

/// What is to be done next for a `set` command.
#[derive(Debug)]
pub enum SetStep {
    /// The typed name is no setting of the file. Put `prompt` to the user and
    /// run the command again with the answer.
    Confirm { prompt: String },
    /// Write `contents` over the file and show `message`.
    Write { contents: String, message: String },
}

/// The typed name has to be confirmed before anything is written.
pub open spec fn needs_confirmation(config: ConfigView, setting: Seq<char>) -> bool {
    !config.names().contains(setting)
}

/// The setting that a typed name stands for, once it is confirmed.
pub open spec fn resolved_key(config: ConfigView, setting: Seq<char>) -> Seq<char> {
    if config.names().contains(setting) {
        setting
    } else {
        closest_key(setting, config.names())
    }
}

/// The name is settled: it is a setting of the file, or the user accepted the
/// suggestion.
pub open spec fn is_resolved(config: ConfigView, setting: Seq<char>, answer: Option<bool>) -> bool {
    ||| !needs_confirmation(config, setting)
    ||| config.names().len() > 0 && answer == Some(true)
}

/// The message that reports an update.
pub open spec fn update_message(key: Seq<char>, value: Seq<char>) -> Seq<char> {
    "Successfully updated "@ + bold(displayed_key(key)) + " to "@ + (if value.len() == 0 {
        bold(red("[N/A]"@))
    } else {
        bold(value)
    }) + "!"@
}

/// The message that reports that `key` now holds `value`.
pub fn report_update(key: &str, value: &str) -> (message: String)
    ensures
        message@ == update_message(key@, value@),
{
    let shown = if value.is_empty() {
        embolden(paint_red("[N/A]").as_str())
    } else {
        embolden(value)
    };
    let mut message = String::from_str("Successfully updated ");
    message.append(embolden(display_key(key).as_str()).as_str());
    message.append(" to ");
    message.append(shown.as_str());
    message.append("!");
    message
}

/// Carries a `set` command one step further.
///
/// `answer` is what the user said to the question of an earlier step, and
/// `None` where nothing was asked yet. A name that the file holds is updated
/// at once. For any other name the most similar setting is suggested: without
/// an answer the step is to ask; with a yes that setting is updated; with a no
/// the command ends with `UserAborted` and nothing is to be written.
///
/// To update is to rewrite the setting's line in the text of the file. The
/// command fails with `NoSettings` where a suggestion is needed and the file
/// holds no setting, and with `MissingLine` where no line of the text begins
/// with the setting's name and a colon.
pub fn set(config: &Config, args: &SetArgs, answer: Option<bool>) -> (result: Result<
    SetStep,
    ConfigError,
>)
    ensures
        match result {
            Ok(SetStep::Confirm { prompt }) => {
                &&& needs_confirmation(config@, args.setting@)
                &&& config@.names().len() > 0
                &&& answer is None
                &&& config@.names().contains(resolved_key(config@, args.setting@))
                &&& prompt@ == confirmation_prompt(
                    args.setting@,
                    resolved_key(config@, args.setting@),
                )
            },
            Ok(SetStep::Write { contents, message }) => {
                let key = resolved_key(config@, args.setting@);
                &&& is_resolved(config@, args.setting@, answer)
                &&& config@.names().contains(key)
                &&& has_setting_line(config@.contents, key)
                &&& contents@ == rewritten(config@.contents, key, args.value_text())
                &&& message@ == update_message(key, args.value_text())
            },
            Err(error) => {
                let key = resolved_key(config@, args.setting@);
                match error {
                    ConfigError::NoSettings => {
                        &&& needs_confirmation(config@, args.setting@)
                        &&& config@.names().len() == 0
                    },
                    ConfigError::UserAborted => {
                        &&& needs_confirmation(config@, args.setting@)
                        &&& config@.names().len() > 0
                        &&& answer == Some(false)
                    },
                    ConfigError::MissingLine => {
                        &&& is_resolved(config@, args.setting@, answer)
                        &&& !has_setting_line(config@.contents, key)
                    },
                    ConfigError::Parse => false,
                }
            },
        },
{
    let key = match resolve(config, args.setting.as_str()) {
        Err(error) => {
            return Err(error);
        },
        Ok(Resolution::Exact { key }) => key,
        Ok(Resolution::Suggested { key, prompt }) => match answer {
            None => {
                return Ok(SetStep::Confirm { prompt });
            },
            Some(false) => {
                return Err(ConfigError::UserAborted);
            },
            Some(true) => key,
        },
    };
    let value = match &args.value {
        Some(value) => value.clone(),
        None => String::new(),
    };
    match rewrite_setting(config.contents(), key.as_str(), value.as_str()) {
        Err(error) => Err(error),
        Ok(contents) => {
            let message = report_update(key.as_str(), value.as_str());
            Ok(SetStep::Write { contents, message })
        },
    }
}

/// The text of a fresh file is the three known settings, each on a line of
/// its own with nothing after the colon and the space.
pub proof fn lemma_default_contents()
    ensures
        default_contents() == "client_id: \nclient_secret: \nprofile_id: "@,
{
    reveal_with_fuel(blank_settings, 4);
    reveal_strlit("client_id");
    reveal_strlit("client_secret");
    reveal_strlit("profile_id");
    reveal_strlit(": ");
    reveal_strlit("client_id: \nclient_secret: \nprofile_id: ");
}

/// In a fresh file each of the three known settings has a line of its own,
/// and the line gives it no value.
pub proof fn lemma_default_lines()
    ensures
        is_line(default_contents(), 0, 11),
        default_contents().subrange(0, 11) == setting_line("client_id"@, Seq::empty()),
        is_line(default_contents(), 12, 27),
        default_contents().subrange(12, 27) == setting_line("client_secret"@, Seq::empty()),
        is_line(default_contents(), 28, 40),
        default_contents().subrange(28, 40) == setting_line("profile_id"@, Seq::empty()),
{
    lemma_default_contents();
    reveal_strlit("client_id");
    reveal_strlit("client_secret");
    reveal_strlit("profile_id");
    reveal_strlit(": ");
    reveal_strlit("client_id: \nclient_secret: \nprofile_id: ");
}

/// The lines of a fresh file are its three settings' lines and no others.
proof fn lemma_default_line_starts(start: int, end: int)
    requires
        is_line(default_contents(), start, end),
    ensures
        (start == 0 && end == 11) || (start == 12 && end == 27) || (start == 28 && end == 40),
{
    lemma_default_lines();
    lemma_default_contents();
    reveal_strlit("client_id: \nclient_secret: \nprofile_id: ");
    let text = default_contents();
    // a line starts at the head of the text or behind one of its two line feeds
    if start == 0 {
        lemma_line_end_is_unique(text, 0, 11, end);
    } else if start == 12 {
        lemma_line_end_is_unique(text, 12, 27, end);
    } else {
        lemma_line_end_is_unique(text, 28, 40, end);
    }
}

/// In a fresh file each of the three known settings has one line and no
/// more, so that rewriting it rewrites that line.
pub proof fn lemma_default_settings_have_one_line()
    ensures
        has_one_setting_line(default_contents(), "client_id"@),
        first_setting_line(default_contents(), "client_id"@) == (0int, 11int),
        has_one_setting_line(default_contents(), "client_secret"@),
        first_setting_line(default_contents(), "client_secret"@) == (12int, 27int),
        has_one_setting_line(default_contents(), "profile_id"@),
        first_setting_line(default_contents(), "profile_id"@) == (28int, 40int),
{
    lemma_default_lines();
    lemma_default_contents();
    reveal_strlit("client_id");
    reveal_strlit("client_secret");
    reveal_strlit("profile_id");
    reveal_strlit("client_id: \nclient_secret: \nprofile_id: ");
    let text = default_contents();
    assert(is_headed_by(text, "client_id"@, 0, 11));
    assert(is_headed_by(text, "client_secret"@, 12, 27));
    assert(is_headed_by(text, "profile_id"@, 28, 40));
    assert forall|s: int, e: int| #[trigger] is_setting_line(text, "client_id"@, s, e) implies s
        == 0 && e == 11 by {
        lemma_default_line_starts(s, e);
    }
    assert forall|s: int, e: int| #[trigger] is_setting_line(text, "client_secret"@, s, e) implies s
        == 12 && e == 27 by {
        lemma_default_line_starts(s, e);
    }
    assert forall|s: int, e: int| #[trigger] is_setting_line(text, "profile_id"@, s, e) implies s
        == 28 && e == 40 by {
        lemma_default_line_starts(s, e);
    }
    lemma_first_setting_line(text, "client_id"@, 0, 11);
    lemma_first_setting_line(text, "client_secret"@, 12, 27);
    lemma_first_setting_line(text, "profile_id"@, 28, 40);
}

/// A listing has one line for each setting, and a setting that the file
/// leaves without a value is shown as not available, whatever its name.
pub proof fn lemma_unset_is_listed_as_not_available(config: ConfigView, i: int)
    requires
        0 <= i < config.entries.len(),
        config.entries[i].value == "~"@,
    ensures
        listing(config).len() == config.entries.len(),
        listing(config)[i] == bold(displayed_key(config.entries[i].name)) + ": "@ + red("[N/A]"@),
{
}

/// A line of a listing shows its own setting and nothing of the others: two
/// files that hold the same setting at a place are listed alike at that place.
pub proof fn lemma_listing_line_shows_its_setting(before: ConfigView, after: ConfigView, i: int)
    requires
        0 <= i < before.entries.len(),
        i < after.entries.len(),
        before.entries[i] == after.entries[i],
    ensures
        listing(before)[i] == listing(after)[i],
{
}

} // verus!
