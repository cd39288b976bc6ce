use vstd::prelude::*;

use crate::gui::FileSelectId;

verus! {

/// The fixed texts a file tab's selector row shows.
pub struct DisplayStrings {
    pub placeholder: &'static str,
    pub open: &'static str,
    pub save: &'static str,
    pub reload: &'static str,
    pub dialog_title: &'static str,
    pub dialog_filter_save: &'static str,
    pub dialog_filter_all: &'static str,
}

/// How far a file tab's selection has come: no path yet, a usable one, or
/// a failure while reaching or reading it.
#[derive(Clone, Copy, Debug, PartialEq, Eq, Structural)]
pub enum State {
    NoPath,
    ValidPath,
    FilesystemError,
    ApplicationError,
}

/// The state of one file tab: the chosen path, the texts, how far the
/// selection has come, and which file the tab belongs to.
pub struct File {
    pub path: String,
    pub display_strings: DisplayStrings,
    pub state: State,
    pub id: FileSelectId,
}

impl File {
    /// A fresh file tab over the given texts, with no path chosen yet.
    pub fn new(id: FileSelectId, display_strings: DisplayStrings) -> (r: Self)
        ensures
            r.id == id,
            r.display_strings == display_strings,
            r.path@.len() == 0,
            r.state == State::NoPath,
    {
        Self { path: String::new(), display_strings, state: State::NoPath, id }
    }
}

} // verus!
