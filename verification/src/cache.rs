//! The pointer store: one small named value per key, each persisted as a
//! single file in the program's cache directory.
//!
//! A stored value is a single line of UTF-8 text, trimmed of surrounding
//! whitespace and terminated on disk by exactly one newline.  Writes go
//! through an atomic overwrite performed by the caller; this module decides
//! what the file must hold and what a read of it means.

use vstd::prelude::*;

use crate::disk::FileRead;
use crate::error::Error;
use crate::text::is_space_char;
use crate::text::lemma_trim_end_keeps_head;
use crate::text::lemma_trim_end_no_trailing;
use crate::text::lemma_trim_start_no_leading;
use crate::text::trim;
use crate::text::trim_end_spec;
use crate::text::trim_spec;
use crate::text::trim_start_spec;

verus! {

/// A key of the pointer store.
#[derive(Debug, Clone, Copy, PartialEq, Eq, Structural)]
pub enum Key {
    /// The currently open workspace.
    Current,
}

/// The file name a key resolves to inside the pointer directory.
pub open spec fn key_filename(key: Key) -> Seq<char> {
    match key {
        Key::Current => "current"@,
    }
}

impl Key {
    /// The fixed file name this key's value is stored under.
    pub fn filename(&self) -> (r: &'static str)
        ensures
            r@ == key_filename(*self),
    {
        match self {
            Key::Current => "current",
        }
    }
}

/// Resolves a key to the path of its file inside the pointer directory
/// `root`.
pub fn file_path(root: &str, key: Key) -> (p: String)
    ensures
        p@ == root@ + "/"@ + key_filename(key),
{
    let mut p = root.to_owned();
    p.append("/");
    p.append(key.filename());
    p
}

/// Reads a pointer value out of the reported content of its file: the
/// content trimmed of surrounding whitespace, or the typed failure — the
/// value is absent until first written, so a missing file is `NotFound`.
pub fn read(file: FileRead) -> (r: Result<String, Error>)
    ensures
        match file {
            FileRead::Found(c) => r is Ok && r.unwrap()@ == trim_spec(c@),
            FileRead::Missing => r == Err::<String, Error>(Error::NotFound),
            FileRead::NotUtf8 => r == Err::<String, Error>(Error::Encoding),
            FileRead::Failed => r == Err::<String, Error>(Error::Io),
        },
{
    match file {
        FileRead::Found(c) => Ok(trim(c.as_str()).to_owned()),
        FileRead::Missing => Err(Error::NotFound),
        FileRead::NotUtf8 => Err(Error::Encoding),
        FileRead::Failed => Err(Error::Io),
    }
}

/// The exact content to store for pointer value `value`: the value trimmed,
/// terminated by one newline.  The caller writes it to the key's file in one
/// atomic overwrite; the write itself cannot fail here, only on disk.
pub fn write(value: &str) -> (r: String)
    ensures
        r@ == trim_spec(value@) + "\n"@,
{
    let t = trim(value);
    let mut r = t.to_owned();
    r.append("\n");
    r
}

/// Law: a pointer write followed by a read round-trips to the exact trimmed
/// value, independent of leading or trailing whitespace or newlines handed to
/// the write — trimming what `write` stores gives `trim_spec(value)` again.
pub proof fn lemma_pointer_round_trip(value: Seq<char>)
    ensures
        trim_spec(trim_spec(value) + "\n"@) == trim_spec(value),
{
    reveal_strlit("\n");
    let t = trim_spec(value);
    let u = t + "\n"@;
    assert(u.len() == t.len() + 1);
    assert(u.last() == '\n');
    if t.len() == 0 {
        assert(is_space_char(u[0]));
        assert(u.drop_first() =~= Seq::<char>::empty());
        assert(trim_start_spec(u) == trim_start_spec(u.drop_first()));
        assert(trim_start_spec(u) =~= Seq::<char>::empty());
        assert(trim_spec(u) =~= t);
    } else {
        lemma_trim_start_no_leading(value);
        lemma_trim_end_keeps_head(trim_start_spec(value));
        assert(!is_space_char(t[0]));
        assert(u[0] == t[0]);
        assert(trim_start_spec(u) == u);
        assert(is_space_char(u.last()));
        assert(u.drop_last() =~= t);
        lemma_trim_end_no_trailing(trim_start_spec(value));
        assert(trim_end_spec(t) == t);
        assert(trim_spec(u) == t);
    }
}

} // verus!
