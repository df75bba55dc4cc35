//! The searchable catalog: one entry per launchable app, file or command.

use vstd::prelude::*;

verus! {

/// Where a catalog entry came from.
#[derive(Clone, Copy, Debug, PartialEq, Eq, Structural, Hash)]
pub enum AppSource {
    Desktop,
    Flatpak,
    Steam,
    AppImage,
    Binary,
    Script,
    JetBrains,
    Wine,
    Proton,
    File,
    Folder,
}

/// One launchable entry. The fuzzy-matcher haystack the UI keeps beside it
/// is rebuilt from `name` and is not part of the model.
#[derive(Debug)]
pub struct AppEntry {
    pub id: String,
    pub name: String,
    /// The command line that launches the entry (`exec` in the desktop-entry
    /// sense; that word is reserved in this language).
    pub exec_line: String,
    pub icon_path: String,
    pub source: AppSource,
    pub lower_name: String,
    pub keywords: Vec<String>,
    pub categories: Vec<String>,
    pub launch_count: u32,
    pub last_launched: Option<u64>,
    /// Path to the source .desktop file, if this app has one (user apps).
    pub desktop_path: Option<String>,
}

} // verus!
