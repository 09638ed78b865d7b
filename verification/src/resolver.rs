//! Resolving the setting name that the user typed to a setting of the file.
//!
//! A name that the file holds stands for itself. For any other name the most
//! similar name of the file is suggested, to be confirmed by the user.

use crate::error::ConfigError;
use crate::key::{display_key, displayed_key};
use crate::store::Config;
use crate::text::string_views;
use vstd::prelude::*;
use vstd::string::*;

verus! {

/// The entry of `keys` that `rust_fuzzy_search` ranks first for `query`.
pub uninterp spec fn closest_key(query: Seq<char>, keys: Seq<Seq<char>>) -> Seq<char>;

/// The question that is put to the user when `setting` is not a name of the
/// file and `matched` is suggested in its place.
pub open spec fn confirmation_prompt(setting: Seq<char>, matched: Seq<char>) -> Seq<char> {
    "Setting \""@ + setting + "\" does not exist. Did you mean "@ + displayed_key(matched) + "?"@
}

/// `rust_fuzzy_search::fuzzy_search_best_n` for the single best entry of a
/// list that is not empty: the first entry of the ranking, which is a function
/// of the query and the list, and is one of the list's entries.
#[verifier::external_body]
fn best_match(query: &str, keys: &Vec<String>) -> (matched: String)
    requires
        keys.len() > 0,
    ensures
        matched@ == closest_key(query@, string_views(keys@)),
        string_views(keys@).contains(matched@),
{
    let list: Vec<&str> = keys.iter().map(|key| key.as_str()).collect();
    rust_fuzzy_search::fuzzy_search_best_n(query, &list, 1)[0].0.to_string()
}

/// What a typed setting name resolves to.
#[derive(Debug)]
pub enum Resolution {
    /// The name is a setting of the file.
    Exact { key: String },
    /// The name is no setting of the file; `key` is the most similar one, and
    /// `prompt` asks the user whether it was meant.
    Suggested { key: String, prompt: String },
}

/// Resolves a typed setting name against the settings of the file.
///
/// Fails with `NoSettings` where the name is not in the file and the file
/// holds no setting that could be suggested.
pub fn resolve(config: &Config, setting: &str) -> (result: Result<Resolution, ConfigError>)
    ensures
        match result {
            Ok(Resolution::Exact { key }) => {
                &&& config@.names().contains(setting@)
                &&& key@ == setting@
            },
            Ok(Resolution::Suggested { key, prompt }) => {
                &&& !config@.names().contains(setting@)
                &&& config@.names().len() > 0
                &&& key@ == closest_key(setting@, config@.names())
                &&& config@.names().contains(key@)
                &&& prompt@ == confirmation_prompt(setting@, key@)
            },
            Err(error) => {
                &&& error == ConfigError::NoSettings
                &&& !config@.names().contains(setting@)
                &&& config@.names().len() == 0
            },
        },
{
    if config.has_section(setting) {
        return Ok(Resolution::Exact { key: String::from_str(setting) });
    }
    let names = config.section_names();
    if names.len() == 0 {
        return Err(ConfigError::NoSettings);
    }
    let key = best_match(setting, &names);
    let mut prompt = String::from_str("Setting \"");
    prompt.append(setting);
    prompt.append("\" does not exist. Did you mean ");
    prompt.append(display_key(key.as_str()).as_str());
    prompt.append("?");
    Ok(Resolution::Suggested { key, prompt })
}

} // verus!
