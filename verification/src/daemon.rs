//! The daemon's reactions to the tray and to the desktop's settings, and where its
//! files are.

use vstd::prelude::*;
use vstd::string::*;

use crate::text::str_eq;
use crate::tray::TrayAction;

verus! {

/// Commands to the thread that talks to the compositor.
#[derive(Debug, Clone, Copy, PartialEq, Eq, Structural)]
pub enum DaemonCommand {
    ToggleMode,
    Deploy,
    Shutdown,
    /// The desktop prefers dark colours, or no longer does.
    DarkMode(bool),
}

/// What the daemon does about an entry of the tray's menu.
#[derive(Debug, Clone, Copy, PartialEq, Eq, Structural)]
pub enum Reaction {
    /// Send a command and go on.
    Send(DaemonCommand),
    /// Start the settings program and go on.
    LaunchSettings,
    /// Send a command and stop.
    SendAndStop(DaemonCommand),
}

/// Chooses the reaction to an entry of the tray's menu.
pub fn react(action: TrayAction) -> (reaction: Reaction)
    ensures
        reaction == match action {
            TrayAction::ToggleMode => Reaction::Send(DaemonCommand::ToggleMode),
            TrayAction::Settings => Reaction::LaunchSettings,
            TrayAction::Deploy => Reaction::Send(DaemonCommand::Deploy),
            TrayAction::Exit => Reaction::SendAndStop(DaemonCommand::Shutdown),
        },
{
    match action {
        TrayAction::ToggleMode => Reaction::Send(DaemonCommand::ToggleMode),
        TrayAction::Settings => Reaction::LaunchSettings,
        TrayAction::Deploy => Reaction::Send(DaemonCommand::Deploy),
        TrayAction::Exit => Reaction::SendAndStop(DaemonCommand::Shutdown),
    }
}

// ── Colour scheme ──────────────────────────────────────────────────────────

/// Namespace of the desktop's appearance settings.
pub const APPEARANCE_NAMESPACE: &'static str = "org.freedesktop.appearance";

/// Key of the setting that tells light from dark.
pub const COLOR_SCHEME_KEY: &'static str = "color-scheme";

/// The value of the setting that asks for dark colours. Zero is no preference,
/// two asks for light colours.
pub const PREFER_DARK: u32 = 1;

/// The command for a value of the colour scheme setting. `None` is a value that is
/// not a number.
pub fn color_scheme_command(mode: Option<u32>) -> (command: Option<DaemonCommand>)
    ensures
        command == match mode {
            Some(mode) => Some(DaemonCommand::DarkMode(mode == PREFER_DARK)),
            None => None::<DaemonCommand>,
        },
{
    match mode {
        Some(mode) => Some(DaemonCommand::DarkMode(mode == PREFER_DARK)),
        None => None,
    }
}

/// The command for a changed setting; settings other than the colour scheme have
/// none.
pub fn setting_changed(namespace: &str, key: &str, mode: Option<u32>) -> (command: Option<
    DaemonCommand,
>)
    ensures
        command == if namespace@ == APPEARANCE_NAMESPACE@ && key@ == COLOR_SCHEME_KEY@
            && mode is Some {
            Some(DaemonCommand::DarkMode(mode == Some(PREFER_DARK)))
        } else {
            None::<DaemonCommand>
        },
{
    if str_eq(namespace, APPEARANCE_NAMESPACE) && str_eq(key, COLOR_SCHEME_KEY) {
        color_scheme_command(mode)
    } else {
        None
    }
}

// ── Paths ──────────────────────────────────────────────────────────────────

/// The home directory, or the root where none is known.
pub open spec fn home_or_root(home: Option<&str>) -> Seq<char> {
    match home {
        Some(home) => home@,
        None => "/"@,
    }
}

/// A relative path below a directory: with one separator between the two, and none
/// where the directory is empty.
pub open spec fn joined(dir: Seq<char>, child: Seq<char>) -> Seq<char> {
    if dir.len() == 0 || dir.last() == '/' {
        dir + child
    } else {
        dir.push('/') + child
    }
}

fn home_path(home: Option<&str>) -> (path: String)
    ensures
        path@ == home_or_root(home),
{
    match home {
        Some(home) => home.to_string(),
        None => "/".to_string(),
    }
}

/// Where the settings program is, given the home directory.
pub fn setup_path(home: Option<&str>) -> (path: String)
    ensures
        path@ == home_or_root(home) + "/.local/bin/xime-setup"@,
{
    let mut path = home_path(home);
    path.append("/.local/bin/xime-setup");
    path
}

/// The directory of the database and the logs, given the home directory.
pub fn default_db_dir(home: Option<&str>) -> (path: String)
    ensures
        path@ == joined(home_or_root(home), ".config/xime"@),
{
    let mut path = home_path(home);
    let n: usize = path.as_str().unicode_len();
    if n > 0 && path.as_str().get_char(n - 1) != '/' {
        path.append("/");
        proof {
            reveal_strlit("/");
            assert(path@ =~= home_or_root(home).push('/'));
        }
    }
    path.append(".config/xime");
    path
}

/// The home directory is used as it is, and the root where none is known.
pub proof fn law_home(home: &str)
    ensures
        home_or_root(Some(home)) == home@,
        home_or_root(None) == "/"@,
{
}

/// A joined path begins with the directory and ends with the child. Between them is one
/// separator where the directory does not end with one already; an empty directory
/// adds nothing.
pub proof fn law_joined_paths(dir: Seq<char>, child: Seq<char>)
    ensures
        dir.len() == 0 ==> joined(dir, child) == child,
        dir.len() > 0 && dir.last() == '/' ==> joined(dir, child) == dir + child,
        dir.len() > 0 && dir.last() != '/' ==> joined(dir, child) == dir + seq!['/'] + child,
{
    assert(Seq::<char>::empty() + child =~= child);
    assert(dir.len() == 0 ==> dir + child =~= child);
    assert(dir.push('/') + child =~= dir + seq!['/'] + child);
}

} // verus!
