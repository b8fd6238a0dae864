//! Tests of the record store: name validation, path resolution, creation,
//! reading with name injection, and the sorted, filtered listing.

use workspacectl::disk::WriteOutcome;
use workspacectl::error::Error;
use workspacectl::workspace;
use workspacectl::workspace::BodyRead;
use workspacectl::workspace::RawEntry;
use workspacectl::workspace::Workspace;

fn record(name: &str, dir: &str) -> Workspace {
    Workspace {
        name: name.to_string(),
        dir: dir.to_string(),
        ssh: None,
        editor: None,
        shell: None,
    }
}

fn body(dir: &str) -> Workspace {
    record("", dir)
}

fn entry(path: &str, is_file: bool) -> RawEntry {
    RawEntry { rel_path: path.to_string(), is_file }
}

#[test]
fn plain_names_are_valid() {
    for name in ["a", "proj-a", "team/api", "a.b", "deep/er/nest", "under_score", "a/../b"] {
        assert!(workspace::validate_name(name), "expected {name:?} to be valid");
    }
}

#[test]
fn empty_name_resolves_inside_the_root() {
    // "" resolves to the file ".toml" directly under the store root: odd,
    // but relative and strictly inside, so validation has nothing against it
    assert!(workspace::validate_name(""));
    assert_eq!(workspace::file_path("/root", ""), Ok("/root/.toml".to_string()));
}

#[test]
fn forbidden_characters_are_rejected() {
    for name in [
        "a\nb", "a\rb", "a\tb", "a\0b", "a<b", "a>b", "a:b", "a\"b", "a|b", "a?b", "a*b",
    ] {
        assert!(!workspace::validate_name(name), "expected {name:?} to be invalid");
    }
}

#[test]
fn control_characters_are_rejected() {
    assert!(!workspace::validate_name("a\u{1}b"));
    assert!(!workspace::validate_name("a\u{1f}b"));
    assert!(!workspace::validate_name("a\u{7f}b"));
}

#[test]
fn escaping_names_are_rejected() {
    for name in ["../x", "../", "/abs", "/abs/path", "../../y", "a/../../b"] {
        assert!(!workspace::validate_name(name), "expected {name:?} to be invalid");
    }
}

#[test]
fn file_path_resolves_under_root() {
    assert_eq!(
        workspace::file_path("/home/u/.config/workspacectl", "team/api"),
        Ok("/home/u/.config/workspacectl/team/api.toml".to_string())
    );
}

#[test]
fn file_path_rejects_invalid_names() {
    assert_eq!(workspace::file_path("/root", "../x"), Err(Error::Validation));
    assert_eq!(workspace::file_path("/root", "a*b"), Err(Error::Validation));
}

#[test]
fn create_reports_written_as_ok() {
    assert_eq!(workspace::create(&record("proj-a", "/srv/a"), WriteOutcome::Written), Ok(()));
}

#[test]
fn create_of_existing_record_is_already_exists() {
    let w = record("proj-a", "/srv/a");
    assert_eq!(workspace::create(&w, WriteOutcome::Written), Ok(()));
    assert_eq!(workspace::create(&w, WriteOutcome::Exists), Err(Error::AlreadyExists));
}

#[test]
fn create_validates_before_any_write() {
    // the outcome is irrelevant for a bad name: validation comes first
    for outcome in [WriteOutcome::Written, WriteOutcome::Exists, WriteOutcome::Failed] {
        assert_eq!(
            workspace::create(&record("../escape", "/srv"), outcome),
            Err(Error::Validation)
        );
    }
    assert_eq!(
        workspace::create(&record("bad*name", "/srv"), WriteOutcome::Written),
        Err(Error::Validation)
    );
}

#[test]
fn create_other_failure_is_io() {
    assert_eq!(
        workspace::create(&record("proj-a", "/srv/a"), WriteOutcome::Failed),
        Err(Error::Io)
    );
}

#[test]
fn read_injects_the_lookup_name() {
    let w = workspace::read("team/api", BodyRead::Parsed(body("/srv/api"))).unwrap();
    assert_eq!(w.name, "team/api");
    assert_eq!(w.dir, "/srv/api");
    assert!(w.ssh.is_none());
    assert!(w.editor.is_none());
    assert!(w.shell.is_none());
}

#[test]
fn read_overwrites_any_name_in_the_body() {
    // even a body that claims a name gets the lookup name
    let w = workspace::read("right", BodyRead::Parsed(record("wrong", "/d"))).unwrap();
    assert_eq!(w.name, "right");
}

#[test]
fn create_then_read_round_trips() {
    let stored = record("team/api", "/srv/api");
    assert_eq!(workspace::create(&stored, WriteOutcome::Written), Ok(()));
    // what the store's file holds is the body: the record, name omitted
    let w = workspace::read("team/api", BodyRead::Parsed(body("/srv/api"))).unwrap();
    assert_eq!(w.name, stored.name);
    assert_eq!(w.dir, stored.dir);
}

#[test]
fn read_validates_before_touching_the_store() {
    for name in ["a\tb", "../x", "/abs", "a|b"] {
        assert_eq!(
            workspace::read(name, BodyRead::Parsed(body("/d"))),
            Err(Error::Validation),
            "expected {name:?} to be rejected"
        );
    }
}

#[test]
fn read_missing_record_is_not_found() {
    assert_eq!(workspace::read("ghost", BodyRead::Missing), Err(Error::NotFound));
}

#[test]
fn read_bad_content_is_parse() {
    assert_eq!(workspace::read("broken", BodyRead::Unparsable), Err(Error::Parse));
}

#[test]
fn read_other_failure_is_io() {
    assert_eq!(workspace::read("denied", BodyRead::Failed), Err(Error::Io));
}

#[test]
fn list_is_sorted_and_keeps_only_records() {
    let names = workspace::list(vec![
        entry("zeta.toml", true),
        entry("team", false),
        entry("team/api.toml", true),
        entry("notes.txt", true),
        entry("alpha.toml", true),
    ]);
    assert_eq!(names, vec!["alpha", "team/api", "zeta"]);
}

#[test]
fn list_skips_entries_with_forbidden_characters() {
    let names = workspace::list(vec![
        entry("ok.toml", true),
        entry("bad|dir", false),
        entry("bad|dir/inner.toml", true),
        entry("also*bad.toml", true),
    ]);
    assert_eq!(names, vec!["ok"]);
}

#[test]
fn list_skips_directories_even_with_extension() {
    let names = workspace::list(vec![entry("dir.toml", false), entry("file.toml", true)]);
    assert_eq!(names, vec!["file"]);
}

#[test]
fn list_of_nothing_is_empty() {
    assert_eq!(workspace::list(Vec::new()), Vec::<String>::new());
}

#[test]
fn example_create_then_list_includes_the_record() {
    let w = record("team/api", "/srv/api");
    assert_eq!(workspace::create(&w, WriteOutcome::Written), Ok(()));
    let names = workspace::list(vec![entry("team/api.toml", true)]);
    assert!(names.iter().any(|n| n == "team/api"));
}

#[test]
fn list_sorts_nested_names_lexicographically() {
    let names = workspace::list(vec![
        entry("b.toml", true),
        entry("a/z.toml", true),
        entry("a.b.toml", true),
        entry("a/a.toml", true),
    ]);
    assert_eq!(names, vec!["a.b", "a/a", "a/z", "b"]);
}
