use vstd::prelude::*;

use crate::gui::FileSelectId;
use crate::util::file::path_exists;

verus! {

/// The fixed texts a file selector shows.
pub struct DisplayStrings {
    pub placeholder: &'static str,
    pub open_label: &'static str,
    pub open_tooltip: &'static str,
    pub save_label: &'static str,
    pub save_tooltip: &'static str,
    pub reload_label: &'static str,
    pub reload_tooltip: &'static str,
    pub dialog_title: &'static str,
    pub dialog_file_name: &'static str,
    pub dialog_filter_file: &'static str,
    pub dialog_filter_ext: &'static str,
    pub dialog_filter_all: &'static str,
    pub modal_description: &'static str,
}

/// The state of one file selector: the path typed or picked so far, the
/// texts, and which selector it is.
pub struct FileSelect {
    pub path: String,
    pub display_strings: DisplayStrings,
    pub id: FileSelectId,
}

impl FileSelect {
    /// A fresh selector over the given texts, with an empty path.
    pub fn new(id: FileSelectId, display_strings: DisplayStrings) -> (r: Self)
        ensures
            r.id == id,
            r.display_strings == display_strings,
            r.path@.len() == 0,
    {
        Self { path: String::new(), display_strings, id }
    }

    /// Points the selector at another part of the save.
    pub fn set_id(&mut self, id: FileSelectId)
        ensures
            final(self).id == id,
            final(self).path == old(self).path,
            final(self).display_strings == old(self).display_strings,
    {
        self.id = id;
    }

    /// Whether anything exists on disk at the selected path. The answer
    /// depends on the file system, so nothing is promised about it.
    pub fn does_path_exist(&self) -> bool {
        path_exists(self.path.as_str())
    }

    /// The selected path.
    pub fn get_state(&self) -> (r: String)
        ensures
            r@ == self.path@,
    {
        self.path.clone()
    }

    /// Replaces the selected path.
    pub fn set_state(&mut self, state: String)
        ensures
            final(self).path == state,
            final(self).id == old(self).id,
            final(self).display_strings == old(self).display_strings,
    {
        self.path = state;
    }
}

} // verus!
