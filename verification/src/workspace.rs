//! The record store: one file per named workspace record under the store
//! root, with name validation that keeps every resolved path inside the
//! root.
//!
//! A record name may contain `/`, so records can be organized into
//! subdirectories.  Validation rejects ASCII control characters, a fixed set
//! of forbidden characters, and any name whose resolved path would be
//! absolute or climb above the store root — all before any filesystem
//! access.  The caller performs the file operations at the resolved paths
//! and reports their outcomes; the functions here turn a report into the
//! store's typed result.

use vstd::prelude::*;

pub mod data;

pub use data::Editor;
pub use data::EditorView;
pub use data::Shell;
pub use data::ShellView;
pub use data::Ssh;
pub use data::SshView;
pub use data::Workspace;
pub use data::WorkspaceView;
pub use data::body_view;
pub use data::with_name;

use crate::cache;
use crate::disk::FileRead;
use crate::disk::WriteOutcome;
use crate::error::CurrentError;
use crate::error::Error;
use crate::text::lemma_lex_le_refl;
use crate::text::lemma_lex_le_total;
use crate::text::lemma_lex_le_trans;
use crate::text::lex_le;
use crate::text::str_le;

verus! {

/// Whether `c` is an ASCII control character.
pub open spec fn is_control_char(c: char) -> bool {
    (c as u32) < 0x20 || c as u32 == 0x7f
}

/// Whether `c` is one of the characters forbidden in record names: special
/// whitespace, NUL, and the characters Windows refuses in file names.  `/`
/// and `\` are allowed, so names can encode subdirectories.
pub open spec fn is_forbidden_char(c: char) -> bool {
    c == '\n' || c == '\r' || c == '\t' || c == '\0' || c == '<' || c == '>' || c == ':' || c == '"'
        || c == '|' || c == '?' || c == '*'
}

/// Whether every character of `s` is acceptable in a record name.
pub open spec fn chars_allowed(s: Seq<char>) -> bool {
    forall|i: int| 0 <= i < s.len() ==> !is_control_char(s[i]) && !is_forbidden_char(s[i])
}

/// Classifies the path segment read so far, for the traversal guard:
/// 0 = empty, 1 = `.`, 2 = `..`, 3 = anything else.
pub open spec fn seg_step(st: int, c: char) -> int {
    if c == '.' {
        if st == 0 {
            1
        } else if st == 1 {
            2
        } else {
            3
        }
    } else {
        3
    }
}

/// How far a finished segment moves the path: `..` one directory up, `.` and
/// an empty segment nowhere, anything else one directory down.
pub open spec fn seg_delta(st: int) -> int {
    if st == 2 {
        -1
    } else if st == 3 {
        1
    } else {
        0
    }
}

/// Scanning the rest of a path: `st` classifies the current segment so far
/// and `depth` is how many directories deep the path has gone.  Holds when
/// the path never climbs above the directory it started in.
pub open spec fn scan_ok(s: Seq<char>, st: int, depth: int) -> bool
    decreases s.len(),
{
    if s.len() == 0 {
        depth + seg_delta(st) >= 0
    } else if s[0] == '/' {
        depth + seg_delta(st) >= 0 && scan_ok(s.drop_first(), 0, depth + seg_delta(st))
    } else {
        scan_ok(s.drop_first(), seg_step(st, s[0]), depth)
    }
}

/// The path is relative and never climbs above its starting directory, so
/// joining it to a root resolves strictly inside that root.
pub open spec fn path_stays_inside(p: Seq<char>) -> bool {
    p.len() > 0 && p[0] != '/' && scan_ok(p, 0, 0)
}

/// A valid record name: no ASCII control characters, no forbidden
/// characters, and, once the storage extension is appended, a path that
/// stays inside the store root.
pub open spec fn valid_name(name: Seq<char>) -> bool {
    chars_allowed(name) && path_stays_inside(name + ".toml"@)
}

/// The path a record named `name` is stored at under the store root `root`.
pub open spec fn record_path(root: Seq<char>, name: Seq<char>) -> Seq<char> {
    root + "/"@ + name + ".toml"@
}

/// Checks every character of `s` against the record-name character rules.
pub fn chars_ok(s: &str) -> (r: bool)
    ensures
        r == chars_allowed(s@),
{
    let n = s.unicode_len();
    let mut i: usize = 0;
    while i < n
        invariant
            0 <= i <= n,
            n == s@.len(),
            forall|k: int|
                0 <= k < i ==> !is_control_char(s@[k]) && !is_forbidden_char(s@[k]),
        decreases n - i,
    {
        let c = s.get_char(i);
        let control = (c as u32) < 0x20 || c as u32 == 0x7f;
        let forbidden = c == '\n' || c == '\r' || c == '\t' || c == '\0' || c == '<' || c == '>'
            || c == ':' || c == '"' || c == '|' || c == '?' || c == '*';
        if control || forbidden {
            return false;
        }
        i = i + 1;
    }
    true
}

/// Runs the traversal guard over a whole path.
fn scan_path(p: &str) -> (r: bool)
    ensures
        r == path_stays_inside(p@),
{
    let n = p.unicode_len();
    if n == 0 {
        return false;
    }
    if p.get_char(0) == '/' {
        return false;
    }
    let mut st: u8 = 0;
    let mut depth: usize = 0;
    let mut i: usize = 0;
    proof {
        assert(p@.skip(0) =~= p@);
    }
    while i < n
        invariant
            0 <= i <= n,
            n == p@.len(),
            0 <= st <= 3,
            depth <= i,
            scan_ok(p@, 0, 0) == scan_ok(p@.skip(i as int), st as int, depth as int),
        decreases n - i,
    {
        let c = p.get_char(i);
        proof {
            assert(p@.skip(i as int)[0] == p@[i as int]);
            assert(p@.skip(i as int).drop_first() =~= p@.skip(i as int + 1));
        }
        if c == '/' {
            if st == 2 {
                if depth == 0 {
                    return false;
                }
                depth = depth - 1;
            } else if st == 3 {
                depth = depth + 1;
            }
            st = 0;
        } else {
            if c == '.' {
                st = if st == 0 {
                    1
                } else if st == 1 {
                    2
                } else {
                    3
                };
            } else {
                st = 3;
            }
        }
        i = i + 1;
    }
    proof {
        assert(p@.skip(n as int) =~= Seq::<char>::empty());
    }
    !(st == 2 && depth == 0)
}

/// Checks all the preconditions on a record name.
pub fn validate_name(name: &str) -> (r: bool)
    ensures
        r == valid_name(name@),
{
    if !chars_ok(name) {
        return false;
    }
    let mut p = name.to_owned();
    p.append(".toml");
    scan_path(p.as_str())
}

/// Validates `name` and resolves it to the path of its file under the store
/// root: `<root>/<name>.toml`.  Validation happens before any filesystem
/// access: an invalid name fails with `Validation` and nothing is resolved.
pub fn file_path(root: &str, name: &str) -> (r: Result<String, Error>)
    ensures
        r is Ok <==> valid_name(name@),
        r is Ok ==> r.unwrap()@ == record_path(root@, name@),
{
    if !validate_name(name) {
        return Err(Error::Validation);
    }
    let mut p = root.to_owned();
    p.append("/");
    p.append(name);
    p.append(".toml");
    Ok(p)
}

/// What reading and decoding a record's file yielded, as the caller reports
/// it: the decoded body (which never holds a name), or how it failed.
pub enum BodyRead {
    /// The file's content decoded into this record body.
    Parsed(Workspace),
    /// No file exists at the resolved path.
    Missing,
    /// The file's content could not be decoded into a record body.
    Unparsable,
    /// Any other filesystem failure while reading.
    Failed,
}

/// Reads the record named `name` out of the reported outcome of its file.
///
/// An invalid name fails with `Validation` whatever the outcome — the caller
/// resolves the path with `file_path` first, so nothing on disk is touched
/// for such a name.  On success the record's name field is set to `name`,
/// not to anything from the file: the file never stores its own name.
pub fn read(name: &str, file: BodyRead) -> (r: Result<Workspace, Error>)
    ensures
        !valid_name(name@) ==> r == Err::<Workspace, Error>(Error::Validation),
        valid_name(name@) ==> match file {
            BodyRead::Parsed(b) => r is Ok && r.unwrap()@ == with_name(b@, name@),
            BodyRead::Missing => r == Err::<Workspace, Error>(Error::NotFound),
            BodyRead::Unparsable => r == Err::<Workspace, Error>(Error::Parse),
            BodyRead::Failed => r == Err::<Workspace, Error>(Error::Io),
        },
{
    if !validate_name(name) {
        return Err(Error::Validation);
    }
    match file {
        BodyRead::Parsed(b) => {
            let mut w = b;
            w.name = name.to_owned();
            Ok(w)
        },
        BodyRead::Missing => Err(Error::NotFound),
        BodyRead::Unparsable => Err(Error::Parse),
        BodyRead::Failed => Err(Error::Io),
    }
}

/// Creates the record `w` under its own name.
///
/// The caller resolves the path with `file_path`, creates the missing parent
/// directories, serializes the record body — the name field excluded — and
/// writes it with an atomic, create-only write, then reports the outcome.
/// An invalid name fails with `Validation` whatever the outcome; a write
/// refused because the file is already present fails with `AlreadyExists`.
pub fn create(w: &Workspace, outcome: WriteOutcome) -> (r: Result<(), Error>)
    ensures
        !valid_name(w.name@) ==> r == Err::<(), Error>(Error::Validation),
        valid_name(w.name@) ==> match outcome {
            WriteOutcome::Written => r == Ok::<(), Error>(()),
            WriteOutcome::Exists => r == Err::<(), Error>(Error::AlreadyExists),
            WriteOutcome::Failed => r == Err::<(), Error>(Error::Io),
        },
{
    if !validate_name(w.name.as_str()) {
        return Err(Error::Validation);
    }
    match outcome {
        WriteOutcome::Written => Ok(()),
        WriteOutcome::Exists => Err(Error::AlreadyExists),
        WriteOutcome::Failed => Err(Error::Io),
    }
}

/// Resolves which record is current: the pointer store's value under the
/// `Current` key, read from the reported pointer file.  A failure is kept
/// apart as a pointer-store failure.
pub fn current_name(pointer: FileRead) -> (r: Result<String, CurrentError>)
    ensures
        match pointer {
            FileRead::Found(c) => r is Ok && r.unwrap()@ == crate::text::trim_spec(c@),
            FileRead::Missing => r == Err::<String, CurrentError>(
                CurrentError::Pointer(Error::NotFound),
            ),
            FileRead::NotUtf8 => r == Err::<String, CurrentError>(
                CurrentError::Pointer(Error::Encoding),
            ),
            FileRead::Failed => r == Err::<String, CurrentError>(
                CurrentError::Pointer(Error::Io),
            ),
        },
{
    match cache::read(pointer) {
        Ok(name) => Ok(name),
        Err(e) => Err(CurrentError::Pointer(e)),
    }
}

/// Reads the current record: the record named by `current_name`, with a
/// failure kept apart as a record-store failure — distinct from a pointer
/// miss reported by `current_name`.
pub fn current(name: &str, file: BodyRead) -> (r: Result<Workspace, CurrentError>)
    ensures
        !valid_name(name@) ==> r == Err::<Workspace, CurrentError>(
            CurrentError::Record(Error::Validation),
        ),
        valid_name(name@) ==> match file {
            BodyRead::Parsed(b) => r is Ok && r.unwrap()@ == with_name(b@, name@),
            BodyRead::Missing => r == Err::<Workspace, CurrentError>(
                CurrentError::Record(Error::NotFound),
            ),
            BodyRead::Unparsable => r == Err::<Workspace, CurrentError>(
                CurrentError::Record(Error::Parse),
            ),
            BodyRead::Failed => r == Err::<Workspace, CurrentError>(
                CurrentError::Record(Error::Io),
            ),
        },
{
    match read(name, file) {
        Ok(w) => Ok(w),
        Err(e) => Err(CurrentError::Record(e)),
    }
}

/// One entry of a walk of the store root, as the caller reports it: the
/// entry's path relative to the root, with forward-slash separators, and
/// whether the entry is a regular file.  Entries whose paths failed to
/// decode as UTF-8, or that raised filesystem errors during the walk, are
/// skipped with a diagnostic before the report: the walk degrades, it never
/// fails.
pub struct RawEntry {
    /// Path relative to the store root.
    pub rel_path: String,
    /// Whether the entry is a regular file.
    pub is_file: bool,
}

/// Whether `p` ends in the storage extension.
pub open spec fn has_toml_ext(p: Seq<char>) -> bool {
    p.len() >= 5 && p.subrange(p.len() - 5, p.len() as int) == ".toml"@
}

/// The record name of a path with the storage extension: the path with the
/// extension stripped.
pub open spec fn entry_name(p: Seq<char>) -> Seq<char> {
    p.subrange(0, p.len() - 5)
}

/// Whether a walked entry appears in the listing: a regular file carrying
/// the storage extension, with no control or forbidden character anywhere in
/// its path — a directory with a bad name poisons every path under it, so
/// its whole subtree is skipped.
pub open spec fn entry_listed(e: RawEntry) -> bool {
    e.is_file && chars_allowed(e.rel_path@) && has_toml_ext(e.rel_path@)
}

/// The names of the listed entries, in walk order.
pub open spec fn listed_names(es: Seq<RawEntry>) -> Seq<Seq<char>>
    decreases es.len(),
{
    if es.len() == 0 {
        Seq::empty()
    } else {
        listed_names(es.drop_last()) + (if entry_listed(es.last()) {
            seq![entry_name(es.last().rel_path@)]
        } else {
            Seq::empty()
        })
    }
}

/// The names as character sequences.
pub open spec fn views_of(names: Seq<String>) -> Seq<Seq<char>> {
    names.map_values(|s: String| s@)
}

/// Checks whether `p` ends in the storage extension.
fn ends_with_toml(p: &str) -> (r: bool)
    ensures
        r == has_toml_ext(p@),
{
    proof {
        reveal_strlit(".toml");
    }
    let n = p.unicode_len();
    if n < 5 {
        return false;
    }
    let r = p.get_char(n - 5) == '.' && p.get_char(n - 4) == 't' && p.get_char(n - 3) == 'o'
        && p.get_char(n - 2) == 'm' && p.get_char(n - 1) == 'l';
    proof {
        let sub = p@.subrange(p@.len() - 5, p@.len() as int);
        if r {
            assert(sub =~= ".toml"@);
        } else {
            assert(sub != ".toml"@) by {
                if sub == ".toml"@ {
                    assert(sub[0] == '.' && sub[1] == 't' && sub[2] == 'o' && sub[3] == 'm'
                        && sub[4] == 'l');
                }
            }
        }
    }
    r
}

/// Sorts names in the lexicographic order, keeping exactly the same names:
/// selection sort, smallest remaining name first.
fn sort_names(v: Vec<String>) -> (r: Vec<String>)
    ensures
        forall|i: int, j: int| 0 <= i < j < r@.len() ==> lex_le(r@[i]@, r@[j]@),
        views_of(r@).to_multiset() == views_of(v@).to_multiset(),
{
    broadcast use vstd::seq_lib::group_to_multiset_ensures;

    let mut input = v;
    let mut out: Vec<String> = Vec::new();
    proof {
        assert(views_of(out@) =~= Seq::<Seq<char>>::empty());
        assert(views_of(out@).to_multiset().add(views_of(input@).to_multiset()) =~= views_of(
            input@,
        ).to_multiset());
    }
    while input.len() > 0
        invariant
            forall|a: int, b: int| 0 <= a < b < out@.len() ==> lex_le(out@[a]@, out@[b]@),
            forall|a: int, b: int|
                0 <= a < out@.len() && 0 <= b < input@.len() ==> lex_le(out@[a]@, input@[b]@),
            views_of(out@).to_multiset().add(views_of(input@).to_multiset()) == views_of(
                v@,
            ).to_multiset(),
        decreases input@.len(),
    {
        let mut m: usize = 0;
        let mut j: usize = 1;
        proof {
            lemma_lex_le_refl(input@[0]@);
        }
        while j < input.len()
            invariant
                0 <= m < j <= input@.len(),
                input@.len() > 0,
                forall|t: int| 0 <= t < j ==> lex_le(input@[m as int]@, input@[t]@),
            decreases input@.len() - j,
        {
            if !str_le(input[m].as_str(), input[j].as_str()) {
                proof {
                    lemma_lex_le_total(input@[m as int]@, input@[j as int]@);
                    assert forall|t: int| 0 <= t < j implies lex_le(
                        input@[j as int]@,
                        input@[t]@,
                    ) by {
                        lemma_lex_le_trans(input@[j as int]@, input@[m as int]@, input@[t]@);
                    }
                    lemma_lex_le_refl(input@[j as int]@);
                }
                m = j;
            }
            j = j + 1;
        }
        let ghost old_input = input@;
        let ghost old_out = out@;
        let x = input.remove(m);
        out.push(x);
        proof {
            assert(views_of(input@) =~= views_of(old_input).remove(m as int));
            assert(views_of(out@) =~= views_of(old_out).push(x@));
            assert(views_of(old_input)[m as int] == x@);
            assert(views_of(old_input).contains(x@));
            views_of(old_out).to_multiset_ensures();
            views_of(old_input).to_multiset_ensures();
            let ms_out = views_of(old_out).to_multiset();
            let ms_in = views_of(old_input).to_multiset();
            assert(views_of(old_out).push(x@).to_multiset() =~= ms_out.insert(x@));
            assert(views_of(old_input).remove(m as int).to_multiset() =~= ms_in.remove(x@));
            assert(ms_in.count(x@) >= 1);
            assert(ms_out.insert(x@).add(ms_in.remove(x@)) =~= ms_out.add(ms_in));
            assert forall|a: int, b: int|
                0 <= a < out@.len() && 0 <= b < input@.len() implies lex_le(
                out@[a]@,
                input@[b]@,
            ) by {
                assert(input@[b] == if b < m {
                    old_input[b]
                } else {
                    old_input[b + 1]
                });
            }
        }
    }
    out
}

/// Lists the store: the names of all record files that the reported walk of
/// the store root saw, in lexicographic order.
///
/// Listing is best-effort and never fails: it keeps exactly the regular
/// files with the storage extension whose relative path has no control or
/// forbidden character, strips the extension from each, and sorts.  Entries
/// under a badly named directory are omitted, the rest of the listing
/// stands.
pub fn list(entries: Vec<RawEntry>) -> (r: Vec<String>)
    ensures
        forall|i: int, j: int| 0 <= i < j < r@.len() ==> lex_le(r@[i]@, r@[j]@),
        views_of(r@).to_multiset() == listed_names(entries@).to_multiset(),
{
    let mut names: Vec<String> = Vec::new();
    let mut k: usize = 0;
    proof {
        assert(entries@.take(0) =~= Seq::<RawEntry>::empty());
        assert(views_of(names@) =~= listed_names(entries@.take(0)));
    }
    while k < entries.len()
        invariant
            0 <= k <= entries@.len(),
            views_of(names@) == listed_names(entries@.take(k as int)),
        decreases entries@.len() - k,
    {
        let ghost old_names = names@;
        let e = &entries[k];
        if e.is_file && chars_ok(e.rel_path.as_str()) && ends_with_toml(e.rel_path.as_str()) {
            let n = e.rel_path.unicode_len();
            let nm = e.rel_path.substring_char(0, n - 5).to_owned();
            names.push(nm);
            proof {
                assert(views_of(names@) =~= views_of(old_names).push(entry_name(
                    entries@[k as int].rel_path@,
                )));
            }
        }
        proof {
            let taken = entries@.take(k as int + 1);
            assert(taken.drop_last() =~= entries@.take(k as int));
            assert(taken.last() == entries@[k as int]);
            if entry_listed(entries@[k as int]) {
                assert(views_of(names@) =~= listed_names(taken));
            } else {
                assert(views_of(names@) =~= listed_names(taken));
            }
        }
        k = k + 1;
    }
    proof {
        assert(entries@.take(entries@.len() as int) =~= entries@);
    }
    sort_names(names)
}

/// A model of the record directory: each resolved path maps to the record
/// body its file stores (a body never holds a name).  `store_read` and
/// `store_create` say what the executable `read` and `create` return when
/// the reported outcome describes such a directory.
pub open spec fn store_read(
    files: Map<Seq<char>, WorkspaceView>,
    root: Seq<char>,
    name: Seq<char>,
) -> Result<WorkspaceView, Error> {
    if !valid_name(name) {
        Err(Error::Validation)
    } else if !files.contains_key(record_path(root, name)) {
        Err(Error::NotFound)
    } else {
        Ok(with_name(files[record_path(root, name)], name))
    }
}

/// What creating `w` does to the modeled directory, and with what result.
pub open spec fn store_create(
    files: Map<Seq<char>, WorkspaceView>,
    root: Seq<char>,
    w: WorkspaceView,
) -> (Map<Seq<char>, WorkspaceView>, Result<(), Error>) {
    if !valid_name(w.name) {
        (files, Err(Error::Validation))
    } else if files.contains_key(record_path(root, w.name)) {
        (files, Err(Error::AlreadyExists))
    } else {
        (files.insert(record_path(root, w.name), body_view(w)), Ok(()))
    }
}

/// Law: creating a record with a valid name in a store that lacks it, then
/// reading that name, returns the record itself — its name the one asked
/// for, every other field what was passed to create.
pub proof fn lemma_create_then_read(
    files: Map<Seq<char>, WorkspaceView>,
    root: Seq<char>,
    w: WorkspaceView,
)
    requires
        valid_name(w.name),
        !files.contains_key(record_path(root, w.name)),
    ensures
        store_create(files, root, w).1 == Ok::<(), Error>(()),
        store_read(store_create(files, root, w).0, root, w.name) == Ok::<WorkspaceView, Error>(w),
{
    assert(with_name(body_view(w), w.name) == w);
}

/// Law: creating the same name twice fails the second time with
/// `AlreadyExists`, and the store — in particular the first record's file —
/// is unchanged.
pub proof fn lemma_create_twice(
    files: Map<Seq<char>, WorkspaceView>,
    root: Seq<char>,
    w1: WorkspaceView,
    w2: WorkspaceView,
)
    requires
        valid_name(w1.name),
        w2.name == w1.name,
        !files.contains_key(record_path(root, w1.name)),
    ensures
        ({
            let after = store_create(files, root, w1).0;
            &&& store_create(after, root, w2).1 == Err::<(), Error>(Error::AlreadyExists)
            &&& store_create(after, root, w2).0 == after
            &&& after[record_path(root, w1.name)] == body_view(w1)
        }),
{
}

/// Law: a name holding an ASCII control character or a forbidden character
/// is rejected by both create and read with `Validation`, and the store is
/// untouched.
pub proof fn lemma_bad_chars_rejected(
    files: Map<Seq<char>, WorkspaceView>,
    root: Seq<char>,
    w: WorkspaceView,
)
    requires
        exists|i: int|
            0 <= i < w.name.len() && (is_control_char(w.name[i]) || is_forbidden_char(w.name[i])),
    ensures
        store_read(files, root, w.name) == Err::<WorkspaceView, Error>(Error::Validation),
        store_create(files, root, w).1 == Err::<(), Error>(Error::Validation),
        store_create(files, root, w).0 == files,
{
}

/// Law: a name whose resolved path would leave the store root — an absolute
/// path, or one that climbs above the root — is rejected by both create and
/// read with `Validation`, and the store is untouched.
pub proof fn lemma_escaping_name_rejected(
    files: Map<Seq<char>, WorkspaceView>,
    root: Seq<char>,
    w: WorkspaceView,
)
    requires
        !path_stays_inside(w.name + ".toml"@),
    ensures
        store_read(files, root, w.name) == Err::<WorkspaceView, Error>(Error::Validation),
        store_create(files, root, w).1 == Err::<(), Error>(Error::Validation),
        store_create(files, root, w).0 == files,
{
}

} // verus!
