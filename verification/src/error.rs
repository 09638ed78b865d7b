//! The ways in which a command on the settings file can fail.

use vstd::prelude::*;
use vstd::string::*;

verus! {

/// Why a command could not be carried out.
#[derive(Debug, Clone, Copy, PartialEq, Eq, Structural)]
pub enum ConfigError {
    /// The file's text does not load as a mapping with distinct setting names.
    Parse,
    /// A setting name had to be resolved, and the file holds no setting.
    NoSettings,
    /// No line of the file belongs to the setting.
    MissingLine,
    /// The user declined the setting that was suggested.
    UserAborted,
}

impl ConfigError {
    /// What the error says to a person, as a sequence of characters.
    pub open spec fn message_text(self) -> Seq<char> {
        match self {
            ConfigError::Parse => "the config file could not be parsed"@,
            ConfigError::NoSettings => "the config file holds no settings"@,
            ConfigError::MissingLine => "the config file has no line for the setting"@,
            ConfigError::UserAborted => "cancelled"@,
        }
    }

    /// A message for the person at the terminal.
    pub fn message(&self) -> (text: String)
        ensures
            text@ == self.message_text(),
    {
        match self {
            ConfigError::Parse => String::from_str("the config file could not be parsed"),
            ConfigError::NoSettings => String::from_str("the config file holds no settings"),
            ConfigError::MissingLine => String::from_str(
                "the config file has no line for the setting",
            ),
            ConfigError::UserAborted => String::from_str("cancelled"),
        }
    }

    /// The status with which the process ends after this error.
    pub fn exit_code(&self) -> (code: u8)
        ensures
            code == 1,
    {
        1
    }
}

} // verus!
