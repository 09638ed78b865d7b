//! The settings file as an ordered mapping from setting names to values.
//!
//! The file is YAML: its text is loaded by the `rusty_yaml` crate, and what
//! that crate reports of it (the names of the top-level sections, and each
//! section shown as text) is held here as plain strings.
//!
//! Loading descends once for every level of nesting in the document, and a
//! level of nesting takes one of the characters `-`, `?`, `:`, `[` and `{` to
//! open. A text is therefore loaded only where it holds no more than
//! `MAX_NESTING_MARKS` of them, which a thread's stack has room for.

use crate::error::ConfigError;
use crate::text::string_views;
use rusty_yaml::Yaml;
use vstd::prelude::*;
use vstd::string::*;

verus! {

/// The most characters that open a level of nesting which a text may hold and
/// still be loaded.
pub const MAX_NESTING_MARKS: usize = 256;

/// The character can open a level of nesting in YAML: a block sequence entry,
/// a mapping key or value, a flow sequence or a flow mapping.
pub open spec fn is_nesting_mark(c: char) -> bool {
    c == '-' || c == '?' || c == ':' || c == '[' || c == '{'
}

/// How many characters of a text can open a level of nesting.
pub open spec fn nesting_marks(text: Seq<char>) -> nat
    decreases text.len(),
{
    if text.len() == 0 {
        0
    } else {
        nesting_marks(text.drop_last()) + if is_nesting_mark(text.last()) {
            1nat
        } else {
            0nat
        }
    }
}

/// The text is nested no deeper than loading has room for.
pub open spec fn is_shallow(text: Seq<char>) -> bool {
    nesting_marks(text) <= MAX_NESTING_MARKS
}

/// What `rusty_yaml` shows of the section `name` of a YAML text: `None` where
/// the text does not load or holds no document.
pub uninterp spec fn yaml_section(contents: Seq<char>, name: Seq<char>) -> Option<Seq<char>>;

/// The names that `rusty_yaml` reports for the top-level sections of a YAML
/// text that loads, in the order of the text.
pub uninterp spec fn yaml_section_names(contents: Seq<char>) -> Seq<Seq<char>>;

/// The text loads as YAML and holds a document.
pub open spec fn yaml_loads(contents: Seq<char>) -> bool {
    yaml_section(contents, Seq::empty()) is Some
}

/// One setting: its name and its value, as characters.
pub struct Entry {
    pub name: Seq<char>,
    pub value: Seq<char>,
}

/// The settings that a YAML text holds, in the order of the text.
pub open spec fn parsed_entries(contents: Seq<char>) -> Seq<Entry> {
    let names = yaml_section_names(contents);
    Seq::new(
        names.len(),
        |i: int| Entry { name: names[i], value: yaml_section(contents, names[i]).unwrap() },
    )
}

/// The text can be read as a settings file: it is shallow, it loads, and no
/// setting name occurs twice.
pub open spec fn config_loads(contents: Seq<char>) -> bool {
    &&& is_shallow(contents)
    &&& yaml_loads(contents)
    &&& yaml_section_names(contents).no_duplicates()
}

/// `Yaml::from` on the text, then `Yaml::get_section` for the name, shown with
/// `to_string`: `None` where `get_section` reports an error. The result is a
/// function of the two texts, and whether it is an error does not depend on
/// the name. Loading, copying and showing a document descend once for each
/// level of nesting, so the text may hold only so many characters that open
/// one.
#[verifier::external_body]
fn section_text(contents: &str, name: &str) -> (shown: Option<String>)
    requires
        is_shallow(contents@),
    ensures
        shown is Some <==> yaml_section(contents@, name@) is Some,
        shown matches Some(text) ==> yaml_section(contents@, name@) == Some(text@),
        forall|other: Seq<char>| (#[trigger] yaml_section(contents@, other)) is Some <==> shown is Some,
{
    match Yaml::from(contents).get_section(name) {
        Ok(section) => Some(section.to_string()),
        Err(_) => None,
    }
}

/// `Yaml::from` on the text, then `Yaml::get_section_names`. On a text that
/// loads and holds a document the call returns the names, as a function of
/// the text. Loading descends once for each level of nesting, so the text may
/// hold only so many characters that open one.
#[verifier::external_body]
fn section_names(contents: &str) -> (names: Option<Vec<String>>)
    requires
        is_shallow(contents@),
        yaml_loads(contents@),
    ensures
        names is Some,
        names matches Some(list) ==> string_views(list@) == yaml_section_names(contents@),
{
    Yaml::from(contents).get_section_names().ok()
}

/// A setting of the file.
#[derive(Debug)]
pub struct Section {
    pub name: String,
    pub value: String,
}

impl View for Section {
    type V = Entry;

    open spec fn view(&self) -> Entry {
        Entry { name: self.name@, value: self.value@ }
    }
}

/// What a `Config` stands for: the text of the file, and its settings in order.
pub struct ConfigView {
    pub contents: Seq<char>,
    pub entries: Seq<Entry>,
}

impl ConfigView {
    /// The names of the settings, in order.
    pub open spec fn names(self) -> Seq<Seq<char>> {
        self.entries.map_values(|entry: Entry| entry.name)
    }

    /// The settings are those of the text, and no name occurs twice.
    pub open spec fn wf(self) -> bool {
        &&& config_loads(self.contents)
        &&& self.entries == parsed_entries(self.contents)
    }
}

/// A settings file that has been read: its text, and the settings found in it.
#[derive(Debug)]
pub struct Config {
    contents: String,
    sections: Vec<Section>,
}

impl View for Config {
    type V = ConfigView;

    closed spec fn view(&self) -> ConfigView {
        ConfigView {
            contents: self.contents@,
            entries: Seq::new(self.sections.len() as nat, |i: int| self.sections[i]@),
        }
    }
}

impl Config {
    /// The text of the file, as it was read.
    pub fn contents(&self) -> (text: &str)
        ensures
            text@ == self@.contents,
    {
        self.contents.as_str()
    }

    /// The settings of the file, in order.
    pub fn sections(&self) -> (sections: &Vec<Section>)
        ensures
            sections@.len() == self@.entries.len(),
            forall|i: int| 0 <= i < sections@.len() ==> sections@[i]@ == self@.entries[i],
    {
        &self.sections
    }

    /// The names of the settings, in order.
    pub fn section_names(&self) -> (names: Vec<String>)
        ensures
            string_views(names@) == self@.names(),
    {
        let mut names: Vec<String> = Vec::new();
        let mut i: usize = 0;
        while i < self.sections.len()
            invariant
                i <= self.sections.len(),
                names@.len() == i,
                forall|j: int| 0 <= j < i ==> names@[j]@ == self.sections[j].name@,
            decreases self.sections.len() - i,
        {
            names.push(self.sections[i].name.clone());
            i += 1;
        }
        names
    }

    /// Whether the file holds a setting of this name.
    pub fn has_section(&self, name: &str) -> (found: bool)
        ensures
            found == self@.names().contains(name@),
    {
        let wanted = String::from_str(name);
        let mut i: usize = 0;
        while i < self.sections.len()
            invariant
                i <= self.sections.len(),
                wanted@ == name@,
                forall|j: int| 0 <= j < i ==> self@.names()[j] != name@,
            decreases self.sections.len() - i,
        {
            if self.sections[i].name == wanted {
                assert(self@.names()[i as int] == name@);
                return true;
            }
            i += 1;
        }
        false
    }
}

/// A text holds at least as many nesting marks as any of its beginnings.
pub proof fn lemma_nesting_marks_grow(text: Seq<char>, n: int)
    requires
        0 <= n <= text.len(),
    ensures
        nesting_marks(text.take(n)) <= nesting_marks(text),
    decreases text.len(),
{
    if n < text.len() {
        assert(text.drop_last().take(n) == text.take(n));
        lemma_nesting_marks_grow(text.drop_last(), n);
    } else {
        assert(text.take(n) == text);
    }
}

/// Whether a text is nested no deeper than loading has room for.
pub fn has_shallow_nesting(text: &str) -> (shallow: bool)
    ensures
        shallow == is_shallow(text@),
{
    let mut count: usize = 0;
    for c in it: text.chars()
        invariant
            it.seq() == text@,
            count == nesting_marks(it.seq().take(it.index() as int)),
            count <= MAX_NESTING_MARKS,
    {
        proof {
            let next = it.seq().take(it.index() + 1);
            assert(next.drop_last() == it.seq().take(it.index() as int));
            lemma_nesting_marks_grow(text@, it.index() + 1);
        }
        if c == '-' || c == '?' || c == ':' || c == '[' || c == '{' {
            if count == MAX_NESTING_MARKS {
                return false;
            }
            count += 1;
        }
    }
    assert(text@.take(text@.len() as int) == text@);
    true
}

/// Reads the text of a settings file.
///
/// Fails with `Parse` where the text holds more than `MAX_NESTING_MARKS`
/// characters that open a level of nesting, does not load as YAML, holds no
/// document, or names a setting twice.
pub fn read_config(contents: &str) -> (result: Result<Config, ConfigError>)
    ensures
        result is Ok <==> config_loads(contents@),
        result matches Ok(config) ==> config@.wf() && config@.contents == contents@,
        result matches Err(error) ==> error == ConfigError::Parse,
{
    proof {
        reveal_strlit("");
    }
    if !has_shallow_nesting(contents) {
        return Err(ConfigError::Parse);
    }
    if section_text(contents, "").is_none() {
        return Err(ConfigError::Parse);
    }
    let names = section_names(contents).unwrap();
    let ghost all = yaml_section_names(contents@);
    let mut sections: Vec<Section> = Vec::new();
    let mut i: usize = 0;
    while i < names.len()
        invariant
            is_shallow(contents@),
            yaml_loads(contents@),
            forall|other: Seq<char>| (#[trigger] yaml_section(contents@, other)) is Some,
            all == yaml_section_names(contents@),
            string_views(names@) == all,
            i <= names.len(),
            sections@.len() == i,
            forall|j: int| 0 <= j < i ==> sections@[j]@ == parsed_entries(contents@)[j],
            forall|a: int, b: int| 0 <= a < b < i ==> all[a] != all[b],
        decreases names.len() - i,
    {
        let name = names[i].clone();
        let mut k: usize = 0;
        while k < i
            invariant
                all == yaml_section_names(contents@),
                string_views(names@) == all,
                k <= i < names.len(),
                name@ == all[i as int],
                forall|a: int| 0 <= a < k ==> all[a] != all[i as int],
            decreases i - k,
        {
            if names[k] == name {
                assert(all[k as int] == all[i as int]);
                return Err(ConfigError::Parse);
            }
            k += 1;
        }
        let value = section_text(contents, name.as_str()).unwrap();
        sections.push(Section { name, value });
        i += 1;
    }
    let config = Config { contents: String::from_str(contents), sections };
    assert(config@.entries =~= parsed_entries(contents@));
    Ok(config)
}

} // verus!
