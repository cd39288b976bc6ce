//! The state the editor's interface keeps between events: which tab is
//! open, which file each selector points at, and the loaded records. The
//! rendering and event plumbing live outside this crate; what they store
//! and update is modelled here.

use vstd::prelude::*;

pub mod about;
pub mod cheats;
pub mod file;
pub mod file_select;
pub mod files;
pub mod options;

verus! {

/// Which tab of the editor is open.
#[derive(Clone, Copy, Debug, PartialEq, Eq, Structural)]
pub enum TabId {
    About,
    Cheats,
    Options,
    Files,
}

impl Default for TabId {
    fn default() -> (r: Self)
        ensures
            r == TabId::Files,
    {
        TabId::Files
    }
}

/// Which part of the save file an event concerns.
#[derive(Clone, Copy, Debug, PartialEq, Eq, Structural)]
pub enum SaveSection {
    Files,
    Options,
    File1,
    File2,
    File3,
}

/// Which of the two file selectors an event belongs to: one for the save
/// file, one for the settings file.
#[derive(Clone, Copy, Debug, PartialEq, Eq, Structural)]
pub enum FileSelectId {
    Save(SaveSection),
    Bfs,
}

/// Whether a message came from a direct click or from a finished task.
#[derive(Clone, Copy, Debug, PartialEq, Eq, Structural)]
pub enum MessageSource {
    Click,
    Task,
}

} // verus!
