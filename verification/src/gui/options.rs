use vstd::prelude::*;

verus! {

/// The fixed texts the options tab shows.
pub struct DisplayStrings {
    pub title: &'static str,
    pub language: &'static str,
    pub scale: &'static str,
    pub fullscreen: &'static str,
    pub left_handed: &'static str,
    pub sound_volume: &'static str,
    pub sound_toggle: &'static str,
    pub music_volume: &'static str,
    pub music_toggle: &'static str,
    pub reset_label: &'static str,
    pub reset_tooltip: &'static str,
}

} // verus!
