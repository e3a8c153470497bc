//! Settings and errors of the file-backed stores, the on-disk formats' file
//! extensions, and the naming of rotated backups.
use crate::text::{decimal, push_decimal, push_str};
use vstd::prelude::*;

verus! {

/// Settings of a storage manager.
#[derive(Debug, Clone)]
pub struct StorageConfig {
    /// Create the data file's parent directories when opening.
    pub create_dirs: bool,
    /// Rotate backups of the data file before each save.
    pub backup_on_save: bool,
    /// How many backups are kept.
    pub max_backups: usize,
    /// File extension of the data file.
    pub extension: String,
}

impl Default for StorageConfig {
    /// Directories are created, backups are made, five are kept, and files
    /// are JSON.
    fn default() -> (r: StorageConfig)
        ensures
            r.create_dirs,
            r.backup_on_save,
            r.max_backups == 5,
            r.extension@ == "json"@,
    {
        let mut extension = String::new();
        push_str(&mut extension, "json");
        StorageConfig { create_dirs: true, backup_on_save: true, max_backups: 5, extension }
    }
}

/// Settings of a file manager.
#[derive(Debug, Clone, Copy, PartialEq, Eq, Structural)]
pub struct FileManagerConfig {
    /// Create the data file's parent directories when opening.
    pub create_dirs: bool,
    /// Rotate backups of the data file before each save.
    pub backup_on_save: bool,
    /// How many backups are kept.
    pub max_backups: usize,
}

impl Default for FileManagerConfig {
    /// Directories are created, backups are made, and five are kept.
    fn default() -> (r: FileManagerConfig)
        ensures
            r.create_dirs,
            r.backup_on_save,
            r.max_backups == 5,
    {
        FileManagerConfig { create_dirs: true, backup_on_save: true, max_backups: 5 }
    }
}

/// Why a storage operation failed; each variant carries the underlying
/// error's text where there is one.
#[derive(Debug, Clone)]
pub enum StorageError {
    Io(String),
    Serialization(String),
    LockError,
    InitError(String),
}

/// The message shown for a storage error.
pub open spec fn storage_error_text(e: StorageError) -> Seq<char> {
    match e {
        StorageError::Io(s) => "IO error: "@ + s@,
        StorageError::Serialization(s) => "Serialization error: "@ + s@,
        StorageError::LockError => "Lock acquisition failed"@,
        StorageError::InitError(s) => "Failed to initialize directory: "@ + s@,
    }
}

impl StorageError {
    /// The error's message.
    pub fn message(&self) -> (r: String)
        ensures
            r@ == storage_error_text(*self),
    {
        let mut out = String::new();
        match self {
            StorageError::Io(s) => {
                push_str(&mut out, "IO error: ");
                push_str(&mut out, s.as_str());
            },
            StorageError::Serialization(s) => {
                push_str(&mut out, "Serialization error: ");
                push_str(&mut out, s.as_str());
            },
            StorageError::LockError => {
                push_str(&mut out, "Lock acquisition failed");
            },
            StorageError::InitError(s) => {
                push_str(&mut out, "Failed to initialize directory: ");
                push_str(&mut out, s.as_str());
            },
        }
        out
    }
}

/// Why a file manager operation failed; each variant carries the underlying
/// error's text where there is one.
#[derive(Debug, Clone)]
pub enum FileError {
    Io(String),
    Serialization(String),
    LockError,
    InitError(String),
}

/// The message shown for a file manager error.
pub open spec fn file_error_text(e: FileError) -> Seq<char> {
    match e {
        FileError::Io(s) => "IO error: "@ + s@,
        FileError::Serialization(s) => "Serialization error: "@ + s@,
        FileError::LockError => "Lock acquisition failed"@,
        FileError::InitError(s) => "Failed to initialize directory: "@ + s@,
    }
}

impl FileError {
    /// The error's message.
    pub fn message(&self) -> (r: String)
        ensures
            r@ == file_error_text(*self),
    {
        let mut out = String::new();
        match self {
            FileError::Io(s) => {
                push_str(&mut out, "IO error: ");
                push_str(&mut out, s.as_str());
            },
            FileError::Serialization(s) => {
                push_str(&mut out, "Serialization error: ");
                push_str(&mut out, s.as_str());
            },
            FileError::LockError => {
                push_str(&mut out, "Lock acquisition failed");
            },
            FileError::InitError(s) => {
                push_str(&mut out, "Failed to initialize directory: ");
                push_str(&mut out, s.as_str());
            },
        }
        out
    }
}

/// The JSON file format.
pub struct JsonFormat;

impl JsonFormat {
    /// Extension of JSON files.
    pub fn default_extension() -> (r: &'static str)
        ensures
            r@ == "json"@,
    {
        "json"
    }
}

/// The YAML file format.
pub struct YamlFormat;

impl YamlFormat {
    /// Extension of YAML files.
    pub fn default_extension() -> (r: &'static str)
        ensures
            r@ == "yaml"@,
    {
        "yaml"
    }
}

/// The extension of the `n`-th backup: `backup{n}`.
pub open spec fn backup_extension(n: nat) -> Seq<char> {
    "backup"@ + decimal(n)
}

/// `backup{n}`.
pub fn backup_extension_string(n: u64) -> (r: String)
    ensures
        r@ == backup_extension(n as nat),
{
    let mut s = String::new();
    push_str(&mut s, "backup");
    push_decimal(&mut s, n);
    s
}

/// The renames that rotate the backups before a new one is made, in the
/// order they run: `backup{m-1}` to `backup{m}`, down to `backup1` to
/// `backup2`, for `m` = `max_backups` (none when fewer than two are kept).
/// The data file is then copied to `backup1`.
pub fn backup_shifts(max_backups: usize) -> (r: Vec<(String, String)>)
    ensures
        r@.len() == if max_backups >= 1 { max_backups - 1 } else { 0 },
        forall|k: int|
            0 <= k < r@.len() ==> (#[trigger] r@[k]).0@ == backup_extension((max_backups - 1 - k) as nat)
                && r@[k].1@ == backup_extension((max_backups - k) as nat),
{
    let mut out: Vec<(String, String)> = Vec::new();
    if max_backups < 2 {
        return out;
    }
    let mut i: usize = max_backups - 1;
    while i >= 1
        invariant
            max_backups >= 2,
            0 <= i < max_backups,
            out@.len() == max_backups - 1 - i,
            forall|k: int|
                0 <= k < out@.len() ==> (#[trigger] out@[k]).0@ == backup_extension(
                    (max_backups - 1 - k) as nat,
                ) && out@[k].1@ == backup_extension((max_backups - k) as nat),
        decreases i,
    {
        let current = backup_extension_string(i as u64);
        let next = backup_extension_string((i + 1) as u64);
        out.push((current, next));
        i = i - 1;
    }
    out
}

} // verus!
