//! A personal registry of named workspace records.
//!
//! The registry is a file-backed store: each record lives in one file under a
//! store root, its name derived from the file's path, and a single "pointer"
//! value remembers which record is currently open.  This crate holds the
//! store's logic — name validation with a path-traversal guard, path
//! resolution, the pointer value's trimming discipline, the sorted and
//! filtered listing, the error taxonomy, and a model of the atomic-write
//! protocol — all of it verified.  The surrounding program performs the
//! actual file reads and writes and reports their outcomes to these
//! functions.

use vstd::prelude::*;

pub mod atomic;
pub mod cache;
pub mod config;
pub mod disk;
pub mod error;
pub mod text;
pub mod workspace;

use crate::error::Error;
use crate::text::trim_spec;
use crate::workspace::BodyRead;
use crate::workspace::Ssh;
use crate::workspace::SshView;
use crate::workspace::Workspace;
use crate::workspace::WorkspaceView;
use crate::workspace::valid_name;

verus! {

/// The name every store directory of this crate lives under, joined to the
/// platform's configuration or cache directory by the surrounding program.
pub fn app_dir_name() -> (r: &'static str)
    ensures
        r@ == "workspacectl"@,
{
    "workspacectl"
}

/// The part of `s` after its last `/`: empty when `s` ends in `/` or is
/// empty.
pub open spec fn last_segment(s: Seq<char>) -> Seq<char>
    decreases s.len(),
{
    if s.len() == 0 {
        s
    } else if s.last() == '/' {
        Seq::empty()
    } else {
        last_segment(s.drop_last()).push(s.last())
    }
}

/// The last segment is the suffix after the last `/`.
proof fn lemma_last_segment_subrange(s: Seq<char>, pos: int)
    requires
        0 <= pos <= s.len(),
        forall|k: int| pos <= k < s.len() ==> s[k] != '/',
        pos == 0 || s[pos - 1] == '/',
    ensures
        last_segment(s) == s.subrange(pos, s.len() as int),
    decreases s.len(),
{
    if pos == s.len() {
        assert(s.subrange(pos, s.len() as int) =~= Seq::<char>::empty());
        if s.len() > 0 {
            assert(s.last() == '/');
        } else {
            assert(last_segment(s) =~= s.subrange(0, 0));
        }
    } else {
        assert(s.last() != '/');
        lemma_last_segment_subrange(s.drop_last(), pos);
        assert(s.drop_last().subrange(pos, s.drop_last().len() as int).push(s.last()) =~= s
            .subrange(pos, s.len() as int));
    }
}

/// The part of `s` after its last `/`.
fn last_segment_str(s: &str) -> (r: &str)
    ensures
        r@ == last_segment(s@),
{
    let n = s.unicode_len();
    let mut pos: usize = n;
    while pos > 0 && !(s.get_char(pos - 1) == '/')
        invariant
            0 <= pos <= n,
            n == s@.len(),
            forall|k: int| pos <= k < n ==> s@[k] != '/',
        decreases pos,
    {
        pos = pos - 1;
    }
    proof {
        lemma_last_segment_subrange(s@, pos as int);
    }
    s.substring_char(pos, n)
}

/// `path` made relative to the home directory when it lies under it: the
/// part after `<home>/`, empty when `path` is the home directory itself,
/// and `path` unchanged otherwise or when no home directory is known.
pub open spec fn strip_home(path: Seq<char>, home: Option<Seq<char>>) -> Seq<char> {
    match home {
        Some(h) => {
            if path == h {
                Seq::empty()
            } else if path.len() > h.len() && path.subrange(0, h.len() as int) == h && path[h.len() as int]
                == '/' {
                path.subrange(h.len() as int + 1, path.len() as int)
            } else {
                path
            }
        },
        None => path,
    }
}

/// Whether `p` begins with all of `h`.
fn starts_with(p: &str, h: &str) -> (r: bool)
    ensures
        r == (p@.len() >= h@.len() && p@.subrange(0, h@.len() as int) == h@),
{
    let np = p.unicode_len();
    let nh = h.unicode_len();
    if np < nh {
        return false;
    }
    let mut i: usize = 0;
    while i < nh
        invariant
            0 <= i <= nh <= np,
            np == p@.len(),
            nh == h@.len(),
            forall|k: int| 0 <= k < i ==> p@[k] == h@[k],
        decreases nh - i,
    {
        if !(p.get_char(i) == h.get_char(i)) {
            proof {
                assert(p@.subrange(0, h@.len() as int)[i as int] != h@[i as int]);
            }
            return false;
        }
        i = i + 1;
    }
    proof {
        assert(p@.subrange(0, h@.len() as int) =~= h@);
    }
    true
}

/// `path` made relative to the home directory `home` when it lies under it.
fn strip_home_str(path: &str, home: &str) -> (r: String)
    ensures
        r@ == strip_home(path@, Some(home@)),
{
    let np = path.unicode_len();
    let nh = home.unicode_len();
    if starts_with(path, home) {
        if np == nh {
            proof {
                assert(path@.subrange(0, nh as int) =~= path@);
            }
            return String::new();
        }
        if path.get_char(nh) == '/' {
            proof {
                assert(path@ != home@);
            }
            return path.substring_char(nh + 1, np).to_owned();
        }
    }
    proof {
        if path@ == home@ {
            assert(path@.subrange(0, nh as int) =~= home@);
        }
    }
    path.to_owned()
}

/// Builds the record for a new workspace from the creation request, its
/// paths already resolved by the caller: for a local workspace `path` is the
/// canonical absolute directory, for a remote one the remote path as given.
///
/// The name defaults to the last `/`-separated segment of `path`.  A local
/// workspace's directory is made relative to `home` when it lies under it;
/// a local request whose path has an empty last segment and no explicit name
/// fails with `Validation`, since no name can be inferred.  The record is
/// assembled only: creating it in the store is `workspace::create`.
pub fn init(ssh: Option<String>, path: String, name: Option<String>, home: Option<String>) -> (r:
    Result<Workspace, Error>)
    ensures
        match ssh {
            Some(host) => r is Ok && {
                let w = r.unwrap();
                &&& w@.name == (match name {
                    Some(n) => n@,
                    None => last_segment(path@),
                })
                &&& w@.dir == path@
                &&& w@.ssh == Some(
                    SshView {
                        command: None,
                        user: None,
                        host: host@,
                        port: None,
                        identity_file: None,
                    },
                )
                &&& w@.editor is None
                &&& w@.shell is None
            },
            None => {
                if name is None && last_segment(path@).len() == 0 {
                    r == Err::<Workspace, Error>(Error::Validation)
                } else {
                    r is Ok && {
                        let w = r.unwrap();
                        &&& w@.name == (match name {
                            Some(n) => n@,
                            None => last_segment(path@),
                        })
                        &&& w@.dir == strip_home(
                            path@,
                            match home {
                                Some(h) => Some(h@),
                                None => None,
                            },
                        )
                        &&& w@.ssh is None
                        &&& w@.editor is None
                        &&& w@.shell is None
                    }
                }
            },
        },
{
    match ssh {
        Some(host) => {
            let nm = match name {
                Some(n) => n,
                None => last_segment_str(path.as_str()).to_owned(),
            };
            Ok(
                Workspace {
                    name: nm,
                    dir: path,
                    ssh: Some(
                        Ssh {
                            command: None,
                            user: None,
                            host,
                            port: None,
                            identity_file: None,
                        },
                    ),
                    editor: None,
                    shell: None,
                },
            )
        },
        None => {
            let nm = match name {
                Some(n) => n,
                None => {
                    let seg = last_segment_str(path.as_str());
                    if seg.is_empty() {
                        return Err(Error::Validation);
                    }
                    seg.to_owned()
                },
            };
            let dir = match home {
                Some(h) => strip_home_str(path.as_str(), h.as_str()),
                None => path,
            };
            Ok(Workspace { name: nm, dir, ssh: None, editor: None, shell: None })
        },
    }
}

/// Opens the workspace named `name`: checks that its record reads back (the
/// outcome reported in `file`), then returns the exact content the pointer
/// store's `Current` file must now hold, which the caller writes in one
/// atomic overwrite.  Fails as a read of `name` fails, and nothing may be
/// written.
pub fn open(name: &str, file: BodyRead) -> (r: Result<String, Error>)
    ensures
        !valid_name(name@) ==> r == Err::<String, Error>(Error::Validation),
        valid_name(name@) ==> match file {
            BodyRead::Parsed(_) => r is Ok && r.unwrap()@ == trim_spec(name@) + "\n"@,
            BodyRead::Missing => r == Err::<String, Error>(Error::NotFound),
            BodyRead::Unparsable => r == Err::<String, Error>(Error::Parse),
            BodyRead::Failed => r == Err::<String, Error>(Error::Io),
        },
{
    match workspace::read(name, file) {
        Ok(_) => Ok(cache::write(name)),
        Err(e) => Err(e),
    }
}

/// Law: the pointer content `open` stores for a valid name is a single
/// line.  A valid name holds no newline — newline is a forbidden character
/// — and trimming keeps only characters of the name, so the only newline in
/// the stored content is the final one.
pub proof fn lemma_open_pointer_single_line(name: Seq<char>)
    requires
        valid_name(name),
    ensures
        forall|i: int| 0 <= i < trim_spec(name).len() ==> #[trigger] trim_spec(name)[i] != '\n',
{
    crate::text::lemma_trim_chars(name);
    assert forall|i: int| 0 <= i < trim_spec(name).len() implies trim_spec(name)[i] != '\n' by {
        if trim_spec(name)[i] == '\n' {
            let c = trim_spec(name)[i];
            assert(name.contains(c));
            let j = choose|j: int| 0 <= j < name.len() && name[j] == c;
            assert(crate::workspace::is_forbidden_char(name[j]));
        }
    }
}

/// A command for the surrounding program to spawn: the program, its
/// arguments in order, and the directory to run it in, if any.
pub struct Command {
    pub program: String,
    pub args: Vec<String>,
    pub workdir: Option<String>,
}

/// The shell a workspace's terminal runs: the configured command, or the
/// default shell.
pub open spec fn shell_command_of(w: WorkspaceView) -> Seq<char> {
    match w.shell {
        Some(sh) => sh.command,
        None => "/usr/bin/bash"@,
    }
}

/// The editor a workspace's editor session runs: the configured command, or
/// the default editor.
pub open spec fn editor_command_of(w: WorkspaceView) -> Seq<char> {
    match w.editor {
        Some(e) => e.command,
        None => "vim"@,
    }
}

/// The command that opens a terminal in workspace `w`: over ssh for a remote
/// workspace, in the workspace directory for a local one.
pub fn terminal(w: &Workspace) -> (c: Command)
    ensures
        c.program@ == "kitty"@,
        match w@.ssh {
            Some(s) => {
                &&& c.args@.len() == 4
                &&& c.args@[0]@ == "ssh"@
                &&& c.args@[1]@ == "-t"@
                &&& c.args@[2]@ == s.host
                &&& c.args@[3]@ == "cd "@ + w@.dir + "; exec "@ + shell_command_of(w@)
                    + " --login"@
                &&& c.workdir is None
            },
            None => {
                &&& c.args@.len() == 1
                &&& c.args@[0]@ == shell_command_of(w@)
                &&& c.workdir is Some
                &&& c.workdir.unwrap()@ == w@.dir
            },
        },
{
    let shell_cmd: String = match &w.shell {
        Some(sh) => sh.command.clone(),
        None => "/usr/bin/bash".to_owned(),
    };
    match &w.ssh {
        Some(s) => {
            let mut tail = "cd ".to_owned();
            tail.append(w.dir.as_str());
            tail.append("; exec ");
            tail.append(shell_cmd.as_str());
            tail.append(" --login");
            let mut args: Vec<String> = Vec::new();
            args.push("ssh".to_owned());
            args.push("-t".to_owned());
            args.push(s.host.clone());
            args.push(tail);
            Command { program: "kitty".to_owned(), args, workdir: None }
        },
        None => {
            let mut args: Vec<String> = Vec::new();
            args.push(shell_cmd);
            Command { program: "kitty".to_owned(), args, workdir: Some(w.dir.clone()) }
        },
    }
}

/// The command that opens an editor in workspace `w`: over ssh for a remote
/// workspace, in the workspace directory for a local one.  For a local
/// workspace the caller resolves `workdir` against the home directory and
/// canonicalizes it before spawning.
pub fn editor(w: &Workspace) -> (c: Command)
    ensures
        c.program@ == "kitty"@,
        match w@.ssh {
            Some(s) => {
                &&& c.args@.len() == 6
                &&& c.args@[0]@ == "--title"@
                &&& c.args@[1]@ == s.host + ": "@ + editor_command_of(w@) + " "@ + w@.dir
                &&& c.args@[2]@ == "ssh"@
                &&& c.args@[3]@ == "-t"@
                &&& c.args@[4]@ == s.host
                &&& c.args@[5]@ == "cd "@ + w@.dir + "; exec /usr/bin/bash --login -c '"@
                    + editor_command_of(w@) + " .'"@
                &&& c.workdir is None
            },
            None => {
                &&& c.args@.len() == 4
                &&& c.args@[0]@ == "--title"@
                &&& c.args@[1]@ == editor_command_of(w@) + " "@ + w@.dir
                &&& c.args@[2]@ == editor_command_of(w@)
                &&& c.args@[3]@ == "."@
                &&& c.workdir is Some
                &&& c.workdir.unwrap()@ == w@.dir
            },
        },
{
    let editor_cmd: String = match &w.editor {
        Some(e) => e.command.clone(),
        None => "vim".to_owned(),
    };
    match &w.ssh {
        Some(s) => {
            let mut title = s.host.clone();
            title.append(": ");
            title.append(editor_cmd.as_str());
            title.append(" ");
            title.append(w.dir.as_str());
            let mut tail = "cd ".to_owned();
            tail.append(w.dir.as_str());
            tail.append("; exec /usr/bin/bash --login -c '");
            tail.append(editor_cmd.as_str());
            tail.append(" .'");
            let mut args: Vec<String> = Vec::new();
            args.push("--title".to_owned());
            args.push(title);
            args.push("ssh".to_owned());
            args.push("-t".to_owned());
            args.push(s.host.clone());
            args.push(tail);
            Command { program: "kitty".to_owned(), args, workdir: None }
        },
        None => {
            let mut title = editor_cmd.clone();
            title.append(" ");
            title.append(w.dir.as_str());
            let mut args: Vec<String> = Vec::new();
            args.push("--title".to_owned());
            args.push(title);
            args.push(editor_cmd);
            args.push(".".to_owned());
            Command { program: "kitty".to_owned(), args, workdir: Some(w.dir.clone()) }
        },
    }
}

} // verus!
