use vstd::prelude::*;

use crate::data;
use crate::data::cheats::CheatsEnabled;

verus! {

/// The fixed texts the cheats tab shows.
pub struct DisplayStrings {
    pub title: &'static str,
    pub checkbox: &'static str,
    pub description: &'static str,
}

/// The state of the cheats tab: the loaded cheats record and the texts.
pub struct Cheats {
    pub cheats_state: data::cheats::Cheats,
    pub display_strings: DisplayStrings,
}

impl Cheats {
    /// A fresh cheats tab over the given texts, with cheats disabled.
    pub fn new(display_strings: DisplayStrings) -> (r: Self)
        ensures
            r.display_strings == display_strings,
            r.cheats_state.cheats_enabled == CheatsEnabled::Disabled,
    {
        Self { cheats_state: data::cheats::Cheats::default(), display_strings }
    }

    /// The loaded settings the tab holds.
    pub fn get_state(&self) -> (r: data::BfsSettings)
        ensures
            r.cheats == self.cheats_state,
    {
        data::BfsSettings { cheats: self.cheats_state }
    }

    /// Replaces the loaded settings with freshly decoded ones.
    pub fn set_state(&mut self, state: data::BfsSettings)
        ensures
            final(self).cheats_state == state.cheats,
            final(self).display_strings == old(self).display_strings,
    {
        self.cheats_state = state.cheats;
    }
}

} // verus!
