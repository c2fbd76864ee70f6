use vstd::prelude::*;

use crate::config::bar_settings::IconTraySettings;

verus! {

/// A bar segment where window icons are to be shown (it shows nothing yet).
#[derive(Clone, Debug)]
pub struct IconTraySegment {
    pub icons: Vec<u32>,
    pub settings: IconTraySettings,
}

impl IconTraySegment {
    /// An icon tray with no icons, holding the settings `s`.
    pub fn from(s: IconTraySettings) -> (r: Self)
        ensures
            r.icons@.len() == 0,
            r.settings == s,
    {
        IconTraySegment { icons: Vec::new(), settings: s }
    }
}

} // verus!
