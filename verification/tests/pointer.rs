//! Tests of the pointer store: the trimming discipline of reads and writes,
//! the round trip, and the failure taxonomy.

use workspacectl::cache;
use workspacectl::cache::Key;
use workspacectl::disk::FileRead;
use workspacectl::error::Error;

#[test]
fn key_filename_is_current() {
    assert_eq!(Key::Current.filename(), "current");
}

#[test]
fn pointer_file_path_joins_root_and_key() {
    assert_eq!(cache::file_path("/home/u/.cache/workspacectl", Key::Current), "/home/u/.cache/workspacectl/current");
}

#[test]
fn write_trims_and_appends_newline() {
    assert_eq!(cache::write("proj-a\n"), "proj-a\n");
    assert_eq!(cache::write("  proj-a  "), "proj-a\n");
    assert_eq!(cache::write("\t proj-a \r\n"), "proj-a\n");
    assert_eq!(cache::write("proj-a"), "proj-a\n");
}

#[test]
fn write_of_blank_value_is_bare_newline() {
    assert_eq!(cache::write("   \n"), "\n");
    assert_eq!(cache::write(""), "\n");
}

#[test]
fn read_trims_content() {
    assert_eq!(cache::read(FileRead::Found("proj-a\n".to_string())), Ok("proj-a".to_string()));
    assert_eq!(cache::read(FileRead::Found("  spaced  ".to_string())), Ok("spaced".to_string()));
    assert_eq!(cache::read(FileRead::Found("".to_string())), Ok("".to_string()));
}

#[test]
fn write_then_read_round_trips_to_trimmed_value() {
    for raw in ["proj-a\n", "proj-a", "  proj-a", "proj-a  \r\n", "\tproj-a\t", "a b"] {
        let stored = cache::write(raw);
        let back = cache::read(FileRead::Found(stored)).unwrap();
        assert_eq!(back, raw.trim());
    }
}

#[test]
fn example_write_current_then_read_returns_value() {
    let stored = cache::write("proj-a\n");
    assert_eq!(cache::read(FileRead::Found(stored)), Ok("proj-a".to_string()));
}

#[test]
fn read_missing_pointer_is_not_found() {
    assert_eq!(cache::read(FileRead::Missing), Err(Error::NotFound));
}

#[test]
fn read_bad_bytes_is_encoding() {
    assert_eq!(cache::read(FileRead::NotUtf8), Err(Error::Encoding));
}

#[test]
fn pointer_read_other_failure_is_io() {
    assert_eq!(cache::read(FileRead::Failed), Err(Error::Io));
}
