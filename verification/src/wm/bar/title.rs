use vstd::prelude::*;

use crate::config::bar_settings::WindowTitleSettings;

verus! {

/// A bar segment that shows the title of the focused window.
#[derive(Clone, Debug)]
pub struct TitlebarSegment {
    pub title: String,
    pub settings: WindowTitleSettings,
}

impl TitlebarSegment {
    /// A title segment with the given settings and an empty title.
    pub fn from(s: WindowTitleSettings) -> (r: Self)
        ensures
            r.title@ == ""@,
            r.settings@ == s@,
    {
        TitlebarSegment { title: String::from_str(""), settings: s }
    }

    /// Sets the shown title.
    pub fn set_title(&mut self, title: String)
        ensures
            final(self).title@ == title@,
            final(self).settings@ == old(self).settings@,
    {
        self.title = title;
    }

    /// The shown title.
    pub fn get_text(&self) -> (r: String)
        ensures
            r@ == self.title@,
    {
        self.title.clone()
    }

    /// A copy of the segment.
    pub fn duplicate(&self) -> (r: Self)
        ensures
            r.title@ == self.title@,
            r.settings@ == self.settings@,
    {
        TitlebarSegment { title: self.title.clone(), settings: self.settings.duplicate() }
    }
}

} // verus!
