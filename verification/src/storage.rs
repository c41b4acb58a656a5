//! The durable SQLite storage contract shared by the ledgers: only
//! file-backed databases with writable, persistent options, opened with
//! WAL journaling, full synchronous writes and foreign keys.
use vstd::prelude::*;
use vstd::string::StrSliceExecFns;

use crate::text::same_text;

verus! {

/// Why a database was refused as durable storage.
#[derive(Debug, Clone, Copy, PartialEq, Eq, Structural)]
pub enum StorageError {
    NotFileUrl,
    RepeatedScheme,
    NotFilesystemPath,
    UnsupportedOption,
    NotDurable,
}

/// `text` begins with `prefix`.
pub open spec fn begins_with(text: Seq<char>, prefix: Seq<char>) -> bool {
    prefix.len() <= text.len() && text.subrange(0, prefix.len() as int) == prefix
}

/// Whether `text` begins with `prefix`.
pub fn text_begins_with(text: &str, prefix: &str) -> (ok: bool)
    ensures
        ok == begins_with(text@, prefix@),
{
    let n = text.unicode_len();
    let m = prefix.unicode_len();
    if m > n {
        return false;
    }
    same_text(text.substring_char(0, m), prefix)
}

/// The part of a database URL after `sqlite://`; a URL without that
/// prefix, or with a second `sqlite:` scheme after it, is refused.
pub open spec fn url_rest(url: Seq<char>) -> Result<Seq<char>, StorageError> {
    if !begins_with(url, "sqlite://"@) {
        Err(StorageError::NotFileUrl)
    } else {
        let rest = url.subrange(9, url.len() as int);
        if begins_with(rest, "sqlite:"@) {
            Err(StorageError::RepeatedScheme)
        } else {
            Ok(rest)
        }
    }
}

/// Split a database URL (see `url_rest`).
pub fn sqlite_url_rest(url: &str) -> (res: Result<String, StorageError>)
    ensures
        match url_rest(url@) {
            Ok(r) => res matches Ok(s) && s@ == r,
            Err(e) => res == Err::<String, StorageError>(e),
        },
{
    proof {
        reveal_strlit("sqlite://");
    }
    if !text_begins_with(url, "sqlite://") {
        return Err(StorageError::NotFileUrl);
    }
    let rest = url.substring_char(9, url.unicode_len());
    if text_begins_with(rest, "sqlite:") {
        return Err(StorageError::RepeatedScheme);
    }
    Ok(rest.to_string())
}

/// The file name the driver will open must be a filesystem path: not
/// empty, not the in-memory name and not a `file:` URI.
pub open spec fn filename_ok(name: Seq<char>) -> bool {
    name.len() > 0 && name != ":memory:"@ && !begins_with(name, "file:"@)
}

/// Whether a file name is a filesystem path (see `filename_ok`).
pub fn check_filename(name: &str) -> (ok: bool)
    ensures
        ok == filename_ok(name@),
{
    name.unicode_len() > 0 && !same_text(name, ":memory:") && !text_begins_with(name, "file:")
}

/// A decoded query option that keeps storage writable and persistent:
/// `mode` of `rw` or `rwc`, `cache` of `private` or `shared`, `immutable`
/// of `false` or `0`.
pub open spec fn option_ok(key: Seq<char>, value: Seq<char>) -> bool {
    ||| key == "mode"@ && (value == "rw"@ || value == "rwc"@)
    ||| key == "cache"@ && (value == "private"@ || value == "shared"@)
    ||| key == "immutable"@ && (value == "false"@ || value == "0"@)
}

/// Whether every decoded query option keeps storage durable.
pub fn storage_options_ok(options: &Vec<(String, String)>) -> (ok: bool)
    ensures
        ok == forall|i: int| 0 <= i < options@.len() ==> option_ok(#[trigger] options@[i].0@, options@[i].1@),
{
    let mut i: usize = 0;
    while i < options.len()
        invariant
            i <= options@.len(),
            forall|k: int| 0 <= k < i ==> option_ok(#[trigger] options@[k].0@, options@[k].1@),
        decreases options@.len() - i,
    {
        let (k, v) = (options[i].0.as_str(), options[i].1.as_str());
        let ok = (same_text(k, "mode") && (same_text(v, "rw") || same_text(v, "rwc"))) || (same_text(k, "cache")
            && (same_text(v, "private") || same_text(v, "shared"))) || (same_text(k, "immutable") && (same_text(
            v,
            "false",
        ) || same_text(v, "0")));
        if !ok {
            return false;
        }
        i = i + 1;
    }
    true
}

/// The main database of a connection is a file: some attached database
/// named `main` has a nonempty file.
pub open spec fn main_is_file(rows: Seq<(String, String)>) -> bool {
    exists|i: int| 0 <= i < rows.len() && #[trigger] rows[i].0@ == "main"@ && rows[i].1@.len() > 0
}

/// Whether the main database is file-backed (see `main_is_file`).
pub fn main_database_is_file(rows: &Vec<(String, String)>) -> (ok: bool)
    ensures
        ok == main_is_file(rows@),
{
    let mut i: usize = 0;
    while i < rows.len()
        invariant
            i <= rows@.len(),
            forall|k: int| 0 <= k < i ==> !(#[trigger] rows@[k].0@ == "main"@ && rows@[k].1@.len() > 0),
        decreases rows@.len() - i,
    {
        if same_text(rows[i].0.as_str(), "main") && rows[i].1.unicode_len() > 0 {
            return true;
        }
        i = i + 1;
    }
    false
}

/// An opened connection is durable: file-backed, with the WAL journal,
/// full synchronous writes (2) and foreign keys on (1).
pub fn connection_durable(rows: &Vec<(String, String)>, journal: &str, synchronous: i64, foreign_keys: i64) -> (res: Result<
    (),
    StorageError,
>)
    ensures
        res is Ok <==> (main_is_file(rows@) && journal@ == "wal"@ && synchronous == 2 && foreign_keys == 1),
        res is Err ==> res == Err::<(), StorageError>(StorageError::NotDurable),
{
    if !main_database_is_file(rows) || !same_text(journal, "wal") || synchronous != 2 || foreign_keys != 1 {
        Err(StorageError::NotDurable)
    } else {
        Ok(())
    }
}

} // verus!
