use vstd::prelude::*;

use crate::data::file::{spec_file_default, File};

verus! {

/// The fixed texts the files tab shows.
pub struct DisplayStrings {
    pub title: &'static str,
    pub progress: &'static str,
    pub file_titel: &'static str,
    pub intro_label: &'static str,
    pub intro_tooltip: &'static str,
    pub gems_label: &'static str,
    pub gems_tooltip: &'static str,
    pub cycle_gems_label: &'static str,
    pub cycle_gems_tooltip: &'static str,
    pub max_label: &'static str,
    pub max_tooltip: &'static str,
    pub save_label: &'static str,
    pub save_tooltip: &'static str,
    pub ending_label: &'static str,
    pub ending_tooltip: &'static str,
    pub lives_label: &'static str,
    pub lives_tooltip: &'static str,
    pub cycle_lives_label: &'static str,
    pub cycle_lives_tooltip: &'static str,
    pub reset_label: &'static str,
    pub reset_tooltip: &'static str,
    pub reload_label: &'static str,
    pub reload_tooltip: &'static str,
}

/// The state of the files tab: the three loaded slots and the texts.
pub struct Files {
    pub files_state: [File; 3],
    pub display_strings: DisplayStrings,
    pub can_reload: bool,
}

impl Files {
    /// A fresh files tab over the given texts, with three default slots
    /// and reloading allowed.
    pub fn new(display_strings: DisplayStrings) -> (r: Self)
        ensures
            r.display_strings == display_strings,
            r.files_state@ =~= seq![spec_file_default(), spec_file_default(), spec_file_default()],
            r.can_reload,
    {
        let f = File::default();
        Self { files_state: [f, f, f], display_strings, can_reload: true }
    }

    /// The loaded slots the tab holds.
    pub fn get_state(&self) -> (r: [File; 3])
        ensures
            r == self.files_state,
    {
        self.files_state
    }

    /// Replaces the loaded slots with freshly decoded ones.
    pub fn set_state(&mut self, state: [File; 3])
        ensures
            final(self).files_state == state,
            final(self).display_strings == old(self).display_strings,
            final(self).can_reload == old(self).can_reload,
    {
        self.files_state = state;
    }
}

} // verus!
