//! Where the settings file lives.

use std::path::PathBuf;
use vstd::prelude::*;
use vstd::string::*;

verus! {

/// The name of the settings file inside the user's configuration directory.
pub const CONFIG_FILE_NAME: &'static str = "snipe-yourself.yml";

/// `std::path::PathBuf`, of which nothing is known here but that it is a value.
#[verifier::external_type_specification]
#[verifier::external_body]
pub struct ExPathBuf(PathBuf);

/// The path that `Path::join` gives for a directory and a name inside it.
pub uninterp spec fn joined(dir: PathBuf, name: Seq<char>) -> PathBuf;

/// `dirs::config_dir`: the user's configuration directory, where the platform
/// and the environment name one. Nothing is promised of it.
#[verifier::external_body]
fn user_config_dir() -> Option<PathBuf> {
    dirs::config_dir()
}

/// `Path::join`: the path of `name` inside the directory.
#[verifier::external_body]
fn child_path(dir: &PathBuf, name: &str) -> (path: PathBuf)
    ensures
        path == joined(*dir, name@),
{
    dir.join(name)
}

/// The path of the settings file inside a configuration directory, where
/// there is one.
pub fn config_path_in(dir: Option<PathBuf>) -> (path: Option<PathBuf>)
    ensures
        path == match dir {
            Some(dir) => Some(joined(dir, CONFIG_FILE_NAME@)),
            None => None,
        },
{
    match dir {
        Some(dir) => Some(child_path(&dir, CONFIG_FILE_NAME)),
        None => None,
    }
}

/// The path of the settings file: the file `snipe-yourself.yml` in the user's
/// configuration directory. `None` where no such directory is known.
pub fn config_path() -> (path: Option<PathBuf>)
    ensures
        path matches Some(file) ==> exists|dir: PathBuf| file == joined(dir, CONFIG_FILE_NAME@),
{
    config_path_in(user_config_dir())
}

} // verus!
