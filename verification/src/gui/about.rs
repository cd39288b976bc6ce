use vstd::prelude::*;

verus! {

/// The fixed texts the about tab shows.
pub struct DisplayStrings {
    pub title: &'static str,
    pub description: &'static str,
}

/// The state of the about tab: its texts alone.
pub struct About {
    pub display_strings: DisplayStrings,
}

impl About {
    /// A fresh about tab over the given texts.
    pub fn new(display_strings: DisplayStrings) -> (r: Self)
        ensures
            r.display_strings == display_strings,
    {
        Self { display_strings }
    }
}

} // verus!
