//! Start-up and activation decisions: the command line, whether this
//! process may become the resident daemon, and what an activation request
//! does to the surface.

use vstd::prelude::*;

use crate::paths::{join_spec, join_path, opt_view};
use crate::navigation::Page;
use crate::terminal::{after_reset, TerminalBox, TerminalView};
use crate::text::{chars_eq_str, chars_of};

verus! {

/// What the first command-line argument asks for.
#[derive(Debug, PartialEq, Eq)]
pub enum CliCommand {
    /// No argument: run as the resident daemon.
    Daemon,
    /// `toggle`: show the launcher if hidden, hide it if visible.
    Toggle,
    /// `-h`, `--help`, `help`.
    Help,
    /// `-V`, `--version`.
    Version,
    /// Anything else: refused.
    Unknown(String),
}

pub enum CliView {
    Daemon,
    Toggle,
    Help,
    Version,
    Unknown(Seq<char>),
}

pub open spec fn cli_view(c: CliCommand) -> CliView {
    match c {
        CliCommand::Daemon => CliView::Daemon,
        CliCommand::Toggle => CliView::Toggle,
        CliCommand::Help => CliView::Help,
        CliCommand::Version => CliView::Version,
        CliCommand::Unknown(s) => CliView::Unknown(s@),
    }
}

pub open spec fn cli_spec(arg: Option<Seq<char>>) -> CliView {
    match arg {
        None => CliView::Daemon,
        Some(a) => if a == "toggle"@ {
            CliView::Toggle
        } else if a == "-h"@ || a == "--help"@ || a == "help"@ {
            CliView::Help
        } else if a == "-V"@ || a == "--version"@ {
            CliView::Version
        } else {
            CliView::Unknown(a)
        },
    }
}

pub fn parse_cli(arg: Option<&str>) -> (c: CliCommand)
    ensures
        cli_view(c) == cli_spec(match arg {
            Some(a) => Some(a@),
            None => None,
        }),
{
    match arg {
        None => CliCommand::Daemon,
        Some(a) => {
            let cs = chars_of(a);
            let s = cs.as_slice();
            if chars_eq_str(s, "toggle") {
                CliCommand::Toggle
            } else if chars_eq_str(s, "-h") || chars_eq_str(s, "--help") || chars_eq_str(s, "help") {
                CliCommand::Help
            } else if chars_eq_str(s, "-V") || chars_eq_str(s, "--version") {
                CliCommand::Version
            } else {
                CliCommand::Unknown(a.to_owned())
            }
        },
    }
}

/// The tag the panel applet puts on the launcher it spawns.
pub open spec fn blessed(spawn_tag: Option<Seq<char>>) -> bool {
    spawn_tag == Some("applet"@)
}

fn is_blessed(spawn_tag: Option<&str>) -> (b: bool)
    ensures
        b == blessed(match spawn_tag {
            Some(t) => Some(t@),
            None => None,
        }),
{
    match spawn_tag {
        Some(t) => {
            let cs = chars_of(t);
            chars_eq_str(cs.as_slice(), "applet")
        },
        None => false,
    }
}

/// A launcher exec'd as a cosmic-panel child without the applet's blessing
/// must not become the daemon.
pub fn refuse_panel_birth(panel_child: bool, spawn_tag: Option<&str>) -> (b: bool)
    ensures
        b == (panel_child && !blessed(match spawn_tag {
            Some(t) => Some(t@),
            None => None,
        })),
{
    panel_child && !is_blessed(spawn_tag)
}

/// Inside Flatpak only the applet's spawn can create layer surfaces.
pub fn sandbox_unblessed(in_flatpak: bool, spawn_tag: Option<&str>) -> (b: bool)
    ensures
        b == (in_flatpak && !blessed(match spawn_tag {
            Some(t) => Some(t@),
            None => None,
        })),
{
    in_flatpak && !is_blessed(spawn_tag)
}

/// How taking the daemon lock went.
#[derive(Clone, Copy, Debug, PartialEq, Eq, Structural)]
pub enum LockOutcome {
    /// This process holds the lock.
    Won,
    /// Another live process holds it.
    Lost,
    /// The lock could not even be tried.
    Unavailable,
}

/// What the process does after trying the lock.
#[derive(Clone, Copy, Debug, PartialEq, Eq, Structural)]
pub enum Residency {
    /// Run as the daemon.
    Daemon,
    /// Give the lock back and exit: this birth cannot show surfaces.
    ReleaseAndRefuse,
    /// Exit without doing anything (a warm-up twin).
    ExitQuietly,
    /// Deliver the activation to the running daemon, then exit.
    Forward,
    /// Exit: this birth cannot show surfaces and no lock is held.
    Refuse,
}

pub open spec fn residency_spec(lock: LockOutcome, unblessed: bool, warm_up: bool) -> Residency {
    match lock {
        LockOutcome::Won => if unblessed {
            Residency::ReleaseAndRefuse
        } else {
            Residency::Daemon
        },
        LockOutcome::Lost => if warm_up {
            Residency::ExitQuietly
        } else {
            Residency::Forward
        },
        LockOutcome::Unavailable => if unblessed {
            Residency::Refuse
        } else {
            Residency::Daemon
        },
    }
}

pub fn residency(lock: LockOutcome, unblessed: bool, warm_up: bool) -> (r: Residency)
    ensures
        r == residency_spec(lock, unblessed, warm_up),
{
    match lock {
        LockOutcome::Won => if unblessed {
            Residency::ReleaseAndRefuse
        } else {
            Residency::Daemon
        },
        LockOutcome::Lost => if warm_up {
            Residency::ExitQuietly
        } else {
            Residency::Forward
        },
        LockOutcome::Unavailable => if unblessed {
            Residency::Refuse
        } else {
            Residency::Daemon
        },
    }
}

/// The directory of the daemon lock: the per-app runtime directory inside
/// Flatpak, the runtime directory natively.
pub open spec fn lock_dir_spec(flatpak_id: Option<Seq<char>>, runtime_dir: Option<Seq<char>>) -> Option<Seq<char>> {
    match runtime_dir {
        None => None,
        Some(r) => match flatpak_id {
            Some(id) => Some(join_spec(join_spec(r, "app"@), id)),
            None => Some(r),
        },
    }
}

pub fn lock_dir(flatpak_id: Option<String>, runtime_dir: Option<String>) -> (r: Option<String>)
    ensures
        opt_view(r) == lock_dir_spec(opt_view(flatpak_id), opt_view(runtime_dir)),
{
    match runtime_dir {
        None => None,
        Some(r) => match flatpak_id {
            Some(id) => {
                let app = join_path(r.as_str(), "app");
                Some(join_path(app.as_str(), id.as_str()))
            },
            None => Some(r),
        },
    }
}

// ---------------------------------------------------------------------------
// Activation
// ---------------------------------------------------------------------------

/// A D-Bus activation request.
pub enum Activation {
    Activate,
    /// `ActivateAction` with its action name.
    Action(String),
}

/// What an activation does.
#[derive(Clone, Copy, Debug, PartialEq, Eq, Structural)]
pub enum ActivationEffect {
    Nothing,
    /// Hide the surface.
    Dismiss,
    /// Reset search, terminal and page, then create the surface on the next
    /// event-loop turn.
    ShowDeferred,
    /// Reset search, terminal and page, then create the surface now.
    ShowNow,
}

/// Activate is idempotent (a second one while open does nothing); the
/// `toggle` action hides an open surface and shows a closed one; other
/// actions are ignored.
pub open spec fn activation_spec(surface_open: bool, is_activate: bool, action: Seq<char>) -> ActivationEffect {
    if is_activate {
        if surface_open {
            ActivationEffect::Nothing
        } else {
            ActivationEffect::ShowDeferred
        }
    } else if action == "toggle"@ {
        if surface_open {
            ActivationEffect::Dismiss
        } else {
            ActivationEffect::ShowNow
        }
    } else {
        ActivationEffect::Nothing
    }
}

pub fn activation_effect(surface_open: bool, request: &Activation) -> (e: ActivationEffect)
    ensures
        e == match request {
            Activation::Activate => activation_spec(surface_open, true, Seq::empty()),
            Activation::Action(a) => activation_spec(surface_open, false, a@),
        },
{
    match request {
        Activation::Activate => if surface_open {
            ActivationEffect::Nothing
        } else {
            ActivationEffect::ShowDeferred
        },
        Activation::Action(a) => {
            let cs = chars_of(a.as_str());
            if chars_eq_str(cs.as_slice(), "toggle") {
                if surface_open {
                    ActivationEffect::Dismiss
                } else {
                    ActivationEffect::ShowNow
                }
            } else {
                ActivationEffect::Nothing
            }
        },
    }
}

/// The part of the launcher's state that an activation changes.
pub struct Shell {
    /// Whether the launcher surface is shown.
    pub surface_open: bool,
    /// The page the dot strip has selected.
    pub page: Page,
    /// The command box.
    pub terminal: TerminalBox,
}

impl Shell {
    /// A hidden launcher on the Monitors page with an empty command box.
    pub fn new() -> (s: Self)
        ensures
            !s.surface_open,
            s.page == Page::Monitors,
            s.terminal@ == (TerminalView {
                input: seq![],
                scrollback: seq![],
                running: false,
                generation: 0,
            }),
    {
        Shell { surface_open: false, page: Page::Monitors, terminal: TerminalBox::new() }
    }

    /// Carry out an activation request on the state and say what is left
    /// for the caller to do with the surface. A show starts fresh: Monitors
    /// page, empty command box (any command in flight is forgotten), surface
    /// marked open. A dismiss marks it closed and changes nothing else;
    /// nothing changes when there is nothing to do.
    pub fn activate(&mut self, request: &Activation) -> (e: ActivationEffect)
        ensures
            e == match request {
                Activation::Activate => activation_spec(old(self).surface_open, true, Seq::empty()),
                Activation::Action(a) => activation_spec(old(self).surface_open, false, a@),
            },
            match e {
                ActivationEffect::ShowDeferred | ActivationEffect::ShowNow => {
                    &&& final(self).surface_open
                    &&& final(self).page == Page::Monitors
                    &&& final(self).terminal@ == after_reset(old(self).terminal@)
                },
                ActivationEffect::Dismiss => {
                    &&& !final(self).surface_open
                    &&& final(self).page == old(self).page
                    &&& final(self).terminal@ == old(self).terminal@
                },
                ActivationEffect::Nothing => {
                    &&& final(self).surface_open == old(self).surface_open
                    &&& final(self).page == old(self).page
                    &&& final(self).terminal@ == old(self).terminal@
                },
            },
    {
        let e = activation_effect(self.surface_open, request);
        match e {
            ActivationEffect::ShowDeferred | ActivationEffect::ShowNow => {
                self.terminal.reset();
                self.page = Page::Monitors;
                self.surface_open = true;
            },
            ActivationEffect::Dismiss => {
                self.surface_open = false;
            },
            ActivationEffect::Nothing => {},
        }
        e
    }
}

/// Toggling twice from either state comes back to it: an open surface is
/// dismissed and then shown again; a closed one is shown and then dismissed.
pub proof fn law_toggle_twice(surface_open: bool)
    ensures
        activation_spec(surface_open, false, "toggle"@) == if surface_open {
            ActivationEffect::Dismiss
        } else {
            ActivationEffect::ShowNow
        },
        activation_spec(!surface_open, false, "toggle"@) == if surface_open {
            ActivationEffect::ShowNow
        } else {
            ActivationEffect::Dismiss
        },
        activation_spec(true, true, Seq::empty()) == ActivationEffect::Nothing,
{
}

} // verus!
