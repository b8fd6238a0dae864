//! Tests of the operations that compose the two stores: resolving the
//! current record, opening a workspace, assembling a new record, and the
//! spawn commands built from a record.

use workspacectl::config;
use workspacectl::disk::FileRead;
use workspacectl::error::CurrentError;
use workspacectl::error::Error;
use workspacectl::init;
use workspacectl::open;
use workspacectl::workspace;
use workspacectl::workspace::BodyRead;
use workspacectl::workspace::Editor;
use workspacectl::workspace::Shell;
use workspacectl::workspace::Ssh;
use workspacectl::workspace::Workspace;

fn body(dir: &str) -> Workspace {
    Workspace {
        name: String::new(),
        dir: dir.to_string(),
        ssh: None,
        editor: None,
        shell: None,
    }
}

#[test]
fn current_name_comes_from_the_pointer() {
    let r = workspace::current_name(FileRead::Found("proj-a\n".to_string()));
    assert_eq!(r, Ok("proj-a".to_string()));
}

#[test]
fn current_name_keeps_pointer_failures_apart() {
    assert_eq!(
        workspace::current_name(FileRead::Missing),
        Err(CurrentError::Pointer(Error::NotFound))
    );
    assert_eq!(
        workspace::current_name(FileRead::NotUtf8),
        Err(CurrentError::Pointer(Error::Encoding))
    );
    assert_eq!(
        workspace::current_name(FileRead::Failed),
        Err(CurrentError::Pointer(Error::Io))
    );
}

#[test]
fn current_returns_the_named_record() {
    let w = workspace::current("proj-a", BodyRead::Parsed(body("/srv/a"))).unwrap();
    assert_eq!(w.name, "proj-a");
    assert_eq!(w.dir, "/srv/a");
}

#[test]
fn current_keeps_record_failures_apart() {
    assert_eq!(
        workspace::current("proj-a", BodyRead::Missing),
        Err(CurrentError::Record(Error::NotFound))
    );
    assert_eq!(
        workspace::current("proj-a", BodyRead::Unparsable),
        Err(CurrentError::Record(Error::Parse))
    );
    assert_eq!(
        workspace::current("../x", BodyRead::Missing),
        Err(CurrentError::Record(Error::Validation))
    );
}

#[test]
fn open_returns_the_pointer_content_to_write() {
    let r = open("proj-a", BodyRead::Parsed(body("/srv/a")));
    assert_eq!(r, Ok("proj-a\n".to_string()));
}

#[test]
fn open_of_missing_record_writes_nothing() {
    assert_eq!(open("ghost", BodyRead::Missing), Err(Error::NotFound));
    assert_eq!(open("../x", BodyRead::Missing), Err(Error::Validation));
    assert_eq!(open("broken", BodyRead::Unparsable), Err(Error::Parse));
}

#[test]
fn init_local_uses_the_last_path_segment_as_name() {
    let w = init(None, "/home/u/work/api".to_string(), None, None).unwrap();
    assert_eq!(w.name, "api");
    assert_eq!(w.dir, "/home/u/work/api");
    assert!(w.ssh.is_none());
}

#[test]
fn init_local_makes_the_directory_home_relative() {
    let w = init(
        None,
        "/home/u/work/api".to_string(),
        None,
        Some("/home/u".to_string()),
    )
    .unwrap();
    assert_eq!(w.name, "api");
    assert_eq!(w.dir, "work/api");
}

#[test]
fn init_local_keeps_directories_outside_home() {
    let w = init(
        None,
        "/srv/api".to_string(),
        None,
        Some("/home/u".to_string()),
    )
    .unwrap();
    assert_eq!(w.dir, "/srv/api");
}

#[test]
fn init_local_prefers_the_explicit_name() {
    let w = init(
        None,
        "/home/u/work/api".to_string(),
        Some("my-api".to_string()),
        Some("/home/u".to_string()),
    )
    .unwrap();
    assert_eq!(w.name, "my-api");
}

#[test]
fn init_local_without_inferable_name_fails() {
    assert_eq!(init(None, "/".to_string(), None, None), Err(Error::Validation));
}

#[test]
fn init_local_of_home_itself_has_empty_directory() {
    let w = init(
        None,
        "/home/u".to_string(),
        None,
        Some("/home/u".to_string()),
    )
    .unwrap();
    assert_eq!(w.name, "u");
    assert_eq!(w.dir, "");
}

#[test]
fn init_local_with_explicit_name_never_infers() {
    // the path's last segment is empty, but no inference is needed
    let w = init(None, "/".to_string(), Some("root".to_string()), None).unwrap();
    assert_eq!(w.name, "root");
    assert_eq!(w.dir, "/");
}

#[test]
fn init_ssh_builds_a_remote_record() {
    let w = init(
        Some("build.example".to_string()),
        "work/api".to_string(),
        None,
        None,
    )
    .unwrap();
    assert_eq!(w.name, "api");
    assert_eq!(w.dir, "work/api");
    let ssh = w.ssh.unwrap();
    assert_eq!(ssh.host, "build.example");
    assert!(ssh.command.is_none());
    assert!(ssh.user.is_none());
    assert!(ssh.port.is_none());
    assert!(ssh.identity_file.is_none());
    assert!(w.editor.is_none());
    assert!(w.shell.is_none());
}

#[test]
fn config_path_is_under_the_root() {
    assert_eq!(
        config::config_path("/home/u/.config/workspacectl"),
        "/home/u/.config/workspacectl/config.toml"
    );
}

#[test]
fn terminal_local_runs_the_shell_in_the_directory() {
    let mut w = body("work/api");
    w.name = "api".to_string();
    let c = workspacectl::terminal(&w);
    assert_eq!(c.program, "kitty");
    assert_eq!(c.args, vec!["/usr/bin/bash"]);
    assert_eq!(c.workdir, Some("work/api".to_string()));
}

#[test]
fn terminal_remote_goes_through_ssh() {
    let w = Workspace {
        name: "api".to_string(),
        dir: "work/api".to_string(),
        ssh: Some(Ssh {
            command: None,
            user: None,
            host: "build.example".to_string(),
            port: None,
            identity_file: None,
        }),
        editor: None,
        shell: Some(Shell { command: "/bin/zsh".to_string() }),
    };
    let c = workspacectl::terminal(&w);
    assert_eq!(c.program, "kitty");
    assert_eq!(
        c.args,
        vec!["ssh", "-t", "build.example", "cd work/api; exec /bin/zsh --login"]
    );
    assert_eq!(c.workdir, None);
}

#[test]
fn editor_local_opens_in_the_directory() {
    let mut w = body("work/api");
    w.name = "api".to_string();
    w.editor = Some(Editor { command: "hx".to_string() });
    let c = workspacectl::editor(&w);
    assert_eq!(c.program, "kitty");
    assert_eq!(c.args, vec!["--title", "hx work/api", "hx", "."]);
    assert_eq!(c.workdir, Some("work/api".to_string()));
}

#[test]
fn editor_remote_goes_through_ssh() {
    let w = Workspace {
        name: "api".to_string(),
        dir: "work/api".to_string(),
        ssh: Some(Ssh {
            command: None,
            user: None,
            host: "build.example".to_string(),
            port: None,
            identity_file: None,
        }),
        editor: None,
        shell: None,
    };
    let c = workspacectl::editor(&w);
    assert_eq!(c.args[0], "--title");
    assert_eq!(c.args[1], "build.example: vim work/api");
    assert_eq!(
        &c.args[2..],
        &[
            "ssh".to_string(),
            "-t".to_string(),
            "build.example".to_string(),
            "cd work/api; exec /usr/bin/bash --login -c 'vim .'".to_string()
        ]
    );
    assert_eq!(c.workdir, None);
}

#[test]
fn app_dir_name_is_fixed() {
    assert_eq!(workspacectl::app_dir_name(), "workspacectl");
}
