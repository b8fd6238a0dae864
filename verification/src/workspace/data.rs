//! The record types the store persists: a workspace definition and its
//! optional connection, editor and shell settings.

use vstd::prelude::*;

verus! {

/// A named workspace record.
///
/// The name is not stored inside the serialized file: it is derived from the
/// file's path relative to the store root, with the extension stripped.  A
/// freshly decoded record carries an empty name until the store injects the
/// name it was looked up under.
#[derive(Debug, Clone, PartialEq)]
pub struct Workspace {
    /// Name of the workspace, defined by the file's path.
    pub name: String,
    /// Root directory for the workspace: a local path, or a remote path when
    /// an ssh configuration is present.
    pub dir: String,
    /// SSH configuration for a remote workspace.
    pub ssh: Option<Ssh>,
    /// Editor configuration.
    pub editor: Option<Editor>,
    /// Shell configuration.
    pub shell: Option<Shell>,
}

/// SSH connection options of a remote workspace.
#[derive(Debug, Clone, PartialEq)]
pub struct Ssh {
    /// The ssh command to run instead of `ssh`, if any.
    pub command: Option<String>,
    /// Destination user.
    pub user: Option<String>,
    /// Destination host.
    pub host: String,
    /// Destination port.
    pub port: Option<u16>,
    /// Identity file to offer.
    pub identity_file: Option<String>,
}

/// Editor configuration.
#[derive(Debug, Clone, PartialEq)]
pub struct Editor {
    /// Editor command.
    pub command: String,
}

/// Shell configuration.
#[derive(Debug, Clone, PartialEq)]
pub struct Shell {
    /// Shell command.
    pub command: String,
}

/// The mathematical value of a `Workspace`: every string as its character
/// sequence.
pub struct WorkspaceView {
    pub name: Seq<char>,
    pub dir: Seq<char>,
    pub ssh: Option<SshView>,
    pub editor: Option<EditorView>,
    pub shell: Option<ShellView>,
}

/// The mathematical value of an `Ssh`.
pub struct SshView {
    pub command: Option<Seq<char>>,
    pub user: Option<Seq<char>>,
    pub host: Seq<char>,
    pub port: Option<u16>,
    pub identity_file: Option<Seq<char>>,
}

/// The mathematical value of an `Editor`.
pub struct EditorView {
    pub command: Seq<char>,
}

/// The mathematical value of a `Shell`.
pub struct ShellView {
    pub command: Seq<char>,
}

impl View for Ssh {
    type V = SshView;

    open spec fn view(&self) -> SshView {
        SshView {
            command: match self.command {
                Some(c) => Some(c@),
                None => None,
            },
            user: match self.user {
                Some(u) => Some(u@),
                None => None,
            },
            host: self.host@,
            port: self.port,
            identity_file: match self.identity_file {
                Some(f) => Some(f@),
                None => None,
            },
        }
    }
}

impl View for Editor {
    type V = EditorView;

    open spec fn view(&self) -> EditorView {
        EditorView { command: self.command@ }
    }
}

impl View for Shell {
    type V = ShellView;

    open spec fn view(&self) -> ShellView {
        ShellView { command: self.command@ }
    }
}

impl View for Workspace {
    type V = WorkspaceView;

    open spec fn view(&self) -> WorkspaceView {
        WorkspaceView {
            name: self.name@,
            dir: self.dir@,
            ssh: match self.ssh {
                Some(s) => Some(s@),
                None => None,
            },
            editor: match self.editor {
                Some(e) => Some(e@),
                None => None,
            },
            shell: match self.shell {
                Some(s) => Some(s@),
                None => None,
            },
        }
    }
}

/// The record as its file stores it: every field but the name, which the
/// serialized form omits.
pub open spec fn body_view(w: WorkspaceView) -> WorkspaceView {
    WorkspaceView { name: Seq::empty(), ..w }
}

/// The record `w` under the name it was looked up by.
pub open spec fn with_name(w: WorkspaceView, name: Seq<char>) -> WorkspaceView {
    WorkspaceView { name: name, ..w }
}

} // verus!
