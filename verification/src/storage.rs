//! Where the data file lives, where its backup goes, and what storage errors say.
use vstd::prelude::*;

use crate::sync::{join, join_path, nonempty, set_value};

verus! {

/// Why the data file could not be found, read, written or accepted.
#[derive(Clone, Debug, PartialEq, Eq)]
pub enum StorageError {
    NoHomeDirectory,
    Io { path: String, message: String },
    Parse { path: String, message: String },
    Serialize(String),
    Invalid { path: String, reason: String },
}

/// The data file of the dashboard.
#[derive(Clone, Debug)]
pub struct Store {
    pub path: String,
}

/// The last component of `path`, as `Path::file_name` gives it.
pub uninterp spec fn path_file_name(path: Seq<char>) -> Option<Seq<char>>;

/// `path` with its last component replaced by `name`, as `Path::with_file_name` gives it.
pub uninterp spec fn path_with_file_name(path: Seq<char>, name: Seq<char>) -> Seq<char>;

/// Calls `Path::file_name` on `path`; its result, as text, is `path_file_name(path)`.
#[verifier::external_body]
fn file_name_of(path: &str) -> (name: Option<String>)
    ensures
        name matches Some(n) ==> path_file_name(path@) == Some(n@),
        name is None ==> path_file_name(path@) is None,
{
    std::path::Path::new(path).file_name().and_then(|n| n.to_str()).map(|n| n.to_string())
}

/// Calls `Path::with_file_name` on `path` with `name`; its result, as text, is
/// `path_with_file_name(path, name)`.
#[verifier::external_body]
fn with_file_name(path: &str, name: &str) -> (changed: String)
    ensures
        changed@ == path_with_file_name(path@, name@),
{
    std::path::Path::new(path).with_file_name(name).to_string_lossy().into_owned()
}

/// The data file below the data directory: `$XDG_DATA_HOME/who-me/data.toml`, else
/// `~/.local/share/who-me/data.toml`; none without either variable.
pub open spec fn data_path_for(xdg_data_home: Option<String>, home: Option<String>) -> Option<Seq<char>> {
    match set_value(xdg_data_home) {
        Some(base) => Some(join_path(base, "who-me/data.toml"@)),
        None => match set_value(home) {
            Some(h) => Some(join_path(h, ".local/share/who-me/data.toml"@)),
            None => None,
        },
    }
}

/// The data file, given the values of `XDG_DATA_HOME` and `HOME` (an empty value counts
/// as unset).
pub fn data_path(xdg_data_home: Option<String>, home: Option<String>) -> (path: Result<String, StorageError>)
    ensures
        path matches Ok(p) ==> data_path_for(xdg_data_home, home) == Some(p@),
        path matches Err(e) ==> data_path_for(xdg_data_home, home) is None && e is NoHomeDirectory,
{
    match nonempty(xdg_data_home) {
        Some(base) => Ok(join(base.as_str(), "who-me/data.toml")),
        None => match nonempty(home) {
            Some(h) => Ok(join(h.as_str(), ".local/share/who-me/data.toml")),
            None => Err(StorageError::NoHomeDirectory),
        },
    }
}

/// The name of the backup of a data file named `name` (`data.toml` when the path has
/// no file name).
pub open spec fn backup_name(name: Option<Seq<char>>) -> Seq<char> {
    match name {
        Some(n) => n + ".bak"@,
        None => "data.toml.bak"@,
    }
}

impl Store {
    /// A store for the data file at `path`.
    pub fn new(path: String) -> (store: Store)
        ensures
            store.path == path,
    {
        Store { path }
    }

    /// The store at the data path, given the values of `XDG_DATA_HOME` and `HOME`.
    pub fn discover(xdg_data_home: Option<String>, home: Option<String>) -> (store: Result<Store, StorageError>)
        ensures
            store matches Ok(s) ==> data_path_for(xdg_data_home, home) == Some(s.path@),
            store matches Err(e) ==> data_path_for(xdg_data_home, home) is None && e is NoHomeDirectory,
    {
        match data_path(xdg_data_home, home) {
            Ok(path) => Ok(Store::new(path)),
            Err(e) => Err(e),
        }
    }

    /// The file that keeps the previous version: the data file's name with `.bak`
    /// added, in the same directory.
    pub fn backup_path(&self) -> (backup: String)
        ensures
            backup@ == path_with_file_name(self.path@, backup_name(path_file_name(self.path@))),
    {
        let name = match file_name_of(self.path.as_str()) {
            Some(n) => {
                let mut n = n;
                n.append(".bak");
                n
            },
            None => String::from_str("data.toml.bak"),
        };
        with_file_name(self.path.as_str(), name.as_str())
    }
}

impl StorageError {
    /// What the error says.
    pub open spec fn message_text(self) -> Seq<char> {
        match self {
            StorageError::NoHomeDirectory => "HOME is not set; cannot determine the data path"@,
            StorageError::Io { path, message } => path@ + ": "@ + message@,
            StorageError::Parse { path, message } => "could not parse "@ + path@ + ": "@ + message@,
            StorageError::Serialize(message) => "could not serialize data: "@ + message@,
            StorageError::Invalid { path, reason } => "invalid data in "@ + path@ + ": "@ + reason@,
        }
    }

    /// What the error says.
    pub fn message(&self) -> (text: String)
        ensures
            text@ == self.message_text(),
    {
        match self {
            StorageError::NoHomeDirectory => String::from_str("HOME is not set; cannot determine the data path"),
            StorageError::Io { path, message } => {
                let mut text = String::from_str(path.as_str());
                text.append(": ");
                text.append(message.as_str());
                text
            },
            StorageError::Parse { path, message } => {
                let mut text = String::from_str("could not parse ");
                text.append(path.as_str());
                text.append(": ");
                text.append(message.as_str());
                text
            },
            StorageError::Serialize(message) => {
                let mut text = String::from_str("could not serialize data: ");
                text.append(message.as_str());
                text
            },
            StorageError::Invalid { path, reason } => {
                let mut text = String::from_str("invalid data in ");
                text.append(path.as_str());
                text.append(": ");
                text.append(reason.as_str());
                text
            },
        }
    }
}

} // verus!
