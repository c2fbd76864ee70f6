pub mod format;
pub mod title;
pub mod tray;
pub mod widgets;
pub mod workspace_info;

use vstd::prelude::*;

use crate::config::bar_settings::{BarSettings, SegmentSettings, SegmentSettingsType};
use crate::error::Error;
use crate::text::str_eq;
use crate::wm::geometry::Geometry;
use crate::wm::workspace::WorkspaceId;
use title::TitlebarSegment;
use tray::IconTraySegment;
use widgets::{widgets_text, WidgetSegment};
use workspace_info::{entries, workspaces_text, WorkspaceEntry, WorkspaceInfo, WorkspaceInfoSegment};

verus! {

/// Where a segment stands within the bar.
#[derive(Clone, Copy, Debug, PartialEq, Eq, PartialOrd, Ord, Structural)]
pub enum SegmentPosition {
    /// Located on the left most part of the status bar.
    Left,
    /// Located in the exact middle of the status bar.
    Middle,
    /// Located on the right most part of the status bar.
    Right,
}

/// The place of a position from left to right: left first, then middle, then right.
pub open spec fn position_rank(p: SegmentPosition) -> int {
    match p {
        SegmentPosition::Left => 0,
        SegmentPosition::Middle => 1,
        SegmentPosition::Right => 2,
    }
}

/// The position named by a config word.
pub open spec fn position_named(s: Seq<char>) -> Option<SegmentPosition> {
    if s == "right"@ {
        Some(SegmentPosition::Right)
    } else if s == "left"@ {
        Some(SegmentPosition::Left)
    } else if s == "middle"@ {
        Some(SegmentPosition::Middle)
    } else {
        None
    }
}

impl SegmentPosition {
    /// The position named by `value`: `right`, `left` or `middle`.
    pub fn try_from(value: String) -> (r: Result<SegmentPosition, Error>)
        ensures
            match position_named(value@) {
                Some(p) => r == Ok::<SegmentPosition, Error>(p),
                None => r matches Err(Error::InvalidPosition(x)) && x@ == value@,
            },
    {
        let v = value.as_str();
        if str_eq(v, "right") {
            Ok(SegmentPosition::Right)
        } else if str_eq(v, "left") {
            Ok(SegmentPosition::Left)
        } else if str_eq(v, "middle") {
            Ok(SegmentPosition::Middle)
        } else {
            Err(Error::InvalidPosition(value))
        }
    }

    /// The place of the position from left to right.
    pub fn rank(&self) -> (r: u8)
        ensures
            r == position_rank(*self),
    {
        match self {
            SegmentPosition::Left => 0,
            SegmentPosition::Middle => 1,
            SegmentPosition::Right => 2,
        }
    }
}

/// What a bar segment shows.
#[derive(Clone, Debug)]
pub enum SegmentType {
    /// The workspaces and their names.
    Workspace(WorkspaceInfo),
    /// The title of the focused window.
    WindowTitle(TitlebarSegment),
    /// Widgets that show the output of commands.
    Widget(WidgetSegment),
    /// A place where window icons are to be shown.
    IconTray(IconTraySegment),
}

/// A bar segment: what it shows and where.
#[derive(Debug, Clone)]
pub struct Segment {
    pub segment_type: SegmentType,
    pub position: SegmentPosition,
}

/// The text a segment shows, or `None` when its format leaves a placeholder open.
pub open spec fn segment_text(s: Segment) -> Option<Seq<char>> {
    match s.segment_type {
        SegmentType::Widget(w) => Some(widgets_text(w.widgets@)),
        SegmentType::IconTray(_) => Some("[DEBUG]"@),
        SegmentType::Workspace(ws) => workspaces_text(entries(ws.workspaces@), ws.settings@.format),
        SegmentType::WindowTitle(t) => Some(t.title@),
    }
}

impl Segment {
    /// The segment for the settings of a bar segment; its position must be `left`,
    /// `middle` or `right`.
    pub fn try_from(settings: SegmentSettings) -> (r: Result<Segment, Error>)
        ensures
            match position_named(settings.position@) {
                Some(p) => r matches Ok(s) && s.position == p && segment_made_from(s, settings),
                None => r matches Err(Error::InvalidPosition(x)) && x@ == settings.position@,
            },
    {
        let SegmentSettings { segment_type, position, name: _ } = settings;
        let position = match SegmentPosition::try_from(position) {
            Ok(p) => p,
            Err(e) => return Err(e),
        };
        let t = match segment_type {
            SegmentSettingsType::Widget(ws) => SegmentType::Widget(WidgetSegment::from(ws)),
            SegmentSettingsType::Workspace(ws) => SegmentType::Workspace(WorkspaceInfo::from(ws)),
            SegmentSettingsType::Title(t) => SegmentType::WindowTitle(TitlebarSegment::from(t)),
            SegmentSettingsType::IconTray(t) => SegmentType::IconTray(IconTraySegment::from(t)),
        };
        Ok(Segment { segment_type: t, position })
    }

    /// The text the segment shows.
    pub fn _get_drawable_text(&self) -> (r: Result<String, Error>)
        ensures
            match segment_text(*self) {
                Some(t) => r matches Ok(x) && x@ == t,
                None => r is Err,
            },
    {
        match &self.segment_type {
            SegmentType::Widget(widget) => Ok(widget._get_text()),
            SegmentType::IconTray(_) => Ok(String::from_str("[DEBUG]")),
            SegmentType::Workspace(ws) => ws._get_text(),
            SegmentType::WindowTitle(title) => Ok(title.get_text()),
        }
    }

    /// A copy of the segment.
    pub fn duplicate(&self) -> (r: Self)
        ensures
            r.position == self.position,
            same_content(r.segment_type, self.segment_type),
    {
        let t = match &self.segment_type {
            SegmentType::Widget(w) => SegmentType::Widget(w.duplicate()),
            SegmentType::IconTray(t) => SegmentType::IconTray(IconTraySegment { icons: clone_u32s(&t.icons), settings: IconTraySegment::from_settings_copy(&t.settings) }),
            SegmentType::Workspace(ws) => SegmentType::Workspace(ws.duplicate()),
            SegmentType::WindowTitle(title) => SegmentType::WindowTitle(title.duplicate()),
        };
        Segment { segment_type: t, position: self.position }
    }
}

/// Do two segment contents show the same thing with the same settings?
pub open spec fn same_content(a: SegmentType, b: SegmentType) -> bool {
    match (a, b) {
        (SegmentType::Widget(x), SegmentType::Widget(y)) => x.widgets@.len() == y.widgets@.len() && forall|i: int|
            0 <= i < x.widgets@.len() ==> {
                &&& (#[trigger] x.widgets@[i]).settings@ == y.widgets@[i].settings@
                &&& x.widgets@[i].value@ == y.widgets@[i].value@
                &&& x.widgets@[i].last_update == y.widgets@[i].last_update
            },
        (SegmentType::IconTray(x), SegmentType::IconTray(y)) => x.icons@ == y.icons@,
        (SegmentType::Workspace(x), SegmentType::Workspace(y)) => entries(x.workspaces@) == entries(y.workspaces@) && x.settings@ == y.settings@,
        (SegmentType::WindowTitle(x), SegmentType::WindowTitle(y)) => x.title@ == y.title@ && x.settings@ == y.settings@,
        _ => false,
    }
}

/// Is `s` the segment made from the settings `settings`: the same kind, with the settings'
/// values, nothing shown yet?
pub open spec fn segment_made_from(s: Segment, settings: SegmentSettings) -> bool {
    match (s.segment_type, settings.segment_type) {
        (SegmentType::Widget(w), SegmentSettingsType::Widget(ws)) => w.widgets@.len() == ws@.len() && forall|i: int|
            0 <= i < ws@.len() ==> {
                &&& (#[trigger] w.widgets@[i]).settings@ == ws@[i]@
                &&& w.widgets@[i].value@ == ""@
                &&& w.widgets@[i].last_update == 0
            },
        (SegmentType::Workspace(w), SegmentSettingsType::Workspace(ws)) => w.workspaces@.len() == 0 && w.settings@ == ws@,
        (SegmentType::WindowTitle(t), SegmentSettingsType::Title(ts)) => t.title@ == ""@ && t.settings@ == ts@,
        (SegmentType::IconTray(t), SegmentSettingsType::IconTray(_)) => t.icons@.len() == 0,
        _ => false,
    }
}

impl IconTraySegment {
    /// A copy of icon tray settings.
    pub fn from_settings_copy(s: &crate::config::bar_settings::IconTraySettings) -> (r: crate::config::bar_settings::IconTraySettings)
        ensures
            r == *s,
    {
        crate::config::bar_settings::IconTraySettings {  }
    }
}

/// A copy of a list of numbers.
fn clone_u32s(v: &Vec<u32>) -> (r: Vec<u32>)
    ensures
        r@ == v@,
{
    let mut r: Vec<u32> = Vec::new();
    let mut i: usize = 0;
    while i < v.len()
        invariant
            i <= v@.len(),
            r@ == v@.subrange(0, i as int),
        decreases v@.len() - i,
    {
        r.push(v[i]);
        i = i + 1;
        proof {
            assert(r@ =~= v@.subrange(0, i as int));
        }
    }
    proof {
        assert(v@.subrange(0, v@.len() as int) =~= v@);
    }
    r
}

/// The entries that `create_workspaces` adds for a list of workspace names and ids.
pub open spec fn new_entries(ids: Seq<(String, u32)>) -> Seq<WorkspaceEntry> {
    Seq::new(ids.len(), |i: int| WorkspaceEntry { name: ids[i].0@, workspace_id: ids[i].1, focused: false, open: false, urgent: false })
}

/// A workspace entry after the bar learns the focused and the open workspace: the focused
/// one is marked focused and open, every other one neither; then the open one is marked
/// open and every other one not open. An unknown workspace changes nothing.
pub open spec fn entry_after_update(e: WorkspaceEntry, focused: Option<WorkspaceId>, open: Option<WorkspaceId>) -> WorkspaceEntry {
    let f = match focused {
        Some(id) => WorkspaceEntry { open: e.workspace_id == id, focused: e.workspace_id == id, ..e },
        None => e,
    };
    match open {
        Some(id) => WorkspaceEntry { open: f.workspace_id == id, ..f },
        None => f,
    }
}

/// Being made from segment settings depends only on their views.
proof fn lemma_made_from_view(s: Segment, a: SegmentSettings, b: SegmentSettings)
    requires
        a@ == b@,
        segment_made_from(s, a),
    ensures
        segment_made_from(s, b),
{
    match (s.segment_type, a.segment_type, b.segment_type) {
        (SegmentType::Widget(w), SegmentSettingsType::Widget(x), SegmentSettingsType::Widget(y)) => {
            assert(x@.map_values(|v: crate::config::bar_settings::WidgetSettings| v@) == y@.map_values(|v: crate::config::bar_settings::WidgetSettings| v@));
            assert forall|i: int| 0 <= i < y@.len() implies #[trigger] y@[i]@ == x@[i]@ by {
                assert(x@.map_values(|v: crate::config::bar_settings::WidgetSettings| v@)[i] == x@[i]@);
                assert(y@.map_values(|v: crate::config::bar_settings::WidgetSettings| v@)[i] == y@[i]@);
            }
        },
        _ => {},
    }
}

/// A status bar: its segments, the monitor it is on, its window and settings.
#[derive(Clone, Debug)]
pub struct Bar {
    /// All the segments located in a single bar window.
    pub segments: Vec<Segment>,
    /// Unique identifier of the bar.
    pub id: u32,
    /// Identifier of the monitor this bar is located on.
    pub monitor: u32,
    /// X11 window id of the bar window.
    pub window_id: Option<u32>,
    /// Size of the bar window.
    pub geometry: Option<Geometry>,
    /// Settings.
    pub settings: Option<BarSettings>,
}

/// The segments of `segs` at the position `p`, as indices, in order.
pub open spec fn indices_at(segs: Seq<Segment>, p: SegmentPosition) -> Seq<usize>
    decreases segs.len(),
{
    if segs.len() == 0 {
        seq![]
    } else if segs.last().position == p {
        indices_at(segs.drop_last(), p).push((segs.len() - 1) as usize)
    } else {
        indices_at(segs.drop_last(), p)
    }
}

impl Bar {
    /// A bar for the settings `bar_settings`, with one segment per settings segment, in
    /// order. Every segment position must be `left`, `middle` or `right`.
    pub fn new(id: u32, monitor: u32, bar_settings: &BarSettings) -> (r: Result<Self, Error>)
        ensures
            match r {
                Ok(b) => {
                    &&& b.id == id
                    &&& b.monitor == monitor
                    &&& b.window_id is None
                    &&& b.geometry is None
                    &&& b.settings matches Some(s) && s@ == bar_settings@
                    &&& b.segments@.len() == bar_settings.segments@.len()
                    &&& forall|i: int| 0 <= i < b.segments@.len() ==> {
                        &&& position_named(bar_settings.segments@[i].position@) == Some((#[trigger] b.segments@[i]).position)
                        &&& segment_made_from(b.segments@[i], bar_settings.segments@[i])
                    }
                },
                Err(e) => e is InvalidPosition && exists|i: int| 0 <= i < bar_settings.segments@.len() && position_named(bar_settings.segments@[i].position@) is None,
            },
    {
        let mut segments: Vec<Segment> = Vec::new();
        let mut i: usize = 0;
        while i < bar_settings.segments.len()
            invariant
                i <= bar_settings.segments@.len(),
                segments@.len() == i,
                forall|j: int| 0 <= j < i ==> {
                    &&& position_named(bar_settings.segments@[j].position@) == Some((#[trigger] segments@[j]).position)
                    &&& segment_made_from(segments@[j], bar_settings.segments@[j])
                },
            decreases bar_settings.segments@.len() - i,
        {
            let settings = bar_settings.segments[i].duplicate();
            assert(settings@ == bar_settings.segments@[i as int]@);
            let segment = match Segment::try_from(settings) {
                Ok(s) => s,
                Err(e) => return Err(e),
            };
            proof {
                lemma_made_from_view(segment, settings, bar_settings.segments@[i as int]);
            }
            segments.push(segment);
            i = i + 1;
        }
        Ok(Bar { id, monitor, segments, window_id: None, geometry: None, settings: Some(bar_settings.duplicate()) })
    }


    /// The bar's settings.
    pub fn settings(&self) -> (r: Result<&BarSettings, Error>)
        ensures
            match self.settings {
                Some(s) => r matches Ok(x) && *x == s,
                None => r matches Err(Error::NoBarSettings),
            },
    {
        match &self.settings {
            Some(s) => Ok(s),
            None => Err(Error::NoBarSettings),
        }
    }

    /// The bar's identifier.
    pub fn _id(&self) -> (r: u32)
        ensures
            r == self.id,
    {
        self.id
    }

    /// The monitor the bar is on.
    pub fn monitor(&self) -> (r: u32)
        ensures
            r == self.monitor,
    {
        self.monitor
    }

    /// The X window of the bar.
    pub fn _window_id(&self) -> (r: Result<u32, Error>)
        ensures
            match self.window_id {
                Some(w) => r == Ok::<u32, Error>(w),
                None => r matches Err(Error::NoBarWindow),
            },
    {
        match self.window_id {
            Some(w) => Ok(w),
            None => Err(Error::NoBarWindow),
        }
    }

    /// The geometry of the bar window.
    pub fn geometry(&self) -> (r: Result<Geometry, Error>)
        ensures
            match self.geometry {
                Some(g) => r == Ok::<Geometry, Error>(g),
                None => r matches Err(Error::NoBarGeometry),
            },
    {
        match self.geometry {
            Some(g) => Ok(g),
            None => Err(Error::NoBarGeometry),
        }
    }

    /// Sets the X window of the bar.
    pub fn set_window_id(&mut self, wid: u32)
        ensures
            final(self).window_id == Some(wid),
            final(self).segments == old(self).segments,
            final(self).geometry == old(self).geometry,
    {
        self.window_id = Some(wid);
    }

    /// Sets the geometry of the bar window.
    pub fn set_geometry(&mut self, geometry: Geometry)
        ensures
            final(self).geometry == Some(geometry),
            final(self).segments == old(self).segments,
            final(self).window_id == old(self).window_id,
    {
        self.geometry = Some(geometry);
    }

    /// Adds the workspaces `workspace_ids` (name and id, in order) to every workspace
    /// segment of the bar.
    pub fn create_workspaces(&mut self, workspace_ids: Vec<(String, u32)>)
        ensures
            final(self).segments@.len() == old(self).segments@.len(),
            final(self).id == old(self).id,
            final(self).monitor == old(self).monitor,
            forall|i: int| 0 <= i < old(self).segments@.len() ==> {
                &&& (#[trigger] final(self).segments@[i]).position == old(self).segments@[i].position
                &&& match (final(self).segments@[i].segment_type, old(self).segments@[i].segment_type) {
                    (SegmentType::Workspace(a), SegmentType::Workspace(b)) => entries(a.workspaces@) == entries(b.workspaces@) + new_entries(workspace_ids@) && a.settings@ == b.settings@,
                    _ => final(self).segments@[i] == old(self).segments@[i],
                }
            },
    {
        let ghost old_segs = self.segments@;
        let mut i: usize = 0;
        while i < self.segments.len()
            invariant
                old_segs == old(self).segments@,
                self.id == old(self).id,
                self.monitor == old(self).monitor,
                self.segments@.len() == old_segs.len(),
                i <= old_segs.len(),
                forall|j: int| 0 <= j < i ==> {
                    &&& (#[trigger] self.segments@[j]).position == old_segs[j].position
                    &&& match (self.segments@[j].segment_type, old_segs[j].segment_type) {
                        (SegmentType::Workspace(a), SegmentType::Workspace(b)) => entries(a.workspaces@) == entries(b.workspaces@) + new_entries(workspace_ids@) && a.settings@ == b.settings@,
                        _ => self.segments@[j] == old_segs[j],
                    }
                },
                forall|j: int| i <= j < old_segs.len() ==> #[trigger] self.segments@[j] == old_segs[j],
            decreases old_segs.len() - i,
        {
            if let SegmentType::Workspace(info) = &self.segments[i].segment_type {
                let mut info2 = info.duplicate();
                let ghost start = entries(info2.workspaces@);
                let mut k: usize = 0;
                proof {
                    assert(new_entries(workspace_ids@).subrange(0, 0) =~= Seq::<WorkspaceEntry>::empty());
                    assert(start + Seq::<WorkspaceEntry>::empty() =~= start);
                }
                while k < workspace_ids.len()
                    invariant
                        k <= workspace_ids@.len(),
                        entries(info2.workspaces@) == start + new_entries(workspace_ids@).subrange(0, k as int),
                        info2.settings@ == info.settings@,
                    decreases workspace_ids@.len() - k,
                {
                    let segment = WorkspaceInfoSegment::new(workspace_ids[k].0.as_str(), workspace_ids[k].1);
                    info2.add(segment);
                    proof {
                        assert(new_entries(workspace_ids@).subrange(0, k + 1) =~= new_entries(workspace_ids@).subrange(0, k as int).push(segment@));
                    }
                    k = k + 1;
                }
                proof {
                    assert(new_entries(workspace_ids@).subrange(0, workspace_ids@.len() as int) =~= new_entries(workspace_ids@));
                }
                let position = self.segments[i].position;
                self.segments.set(i, Segment { segment_type: SegmentType::Workspace(info2), position });
            }
            i = i + 1;
        }
    }

    /// Tells every workspace segment which workspace is focused and which is open.
    pub fn update_workspace_info(&mut self, focused_workspace: Option<WorkspaceId>, open_workspace: Option<WorkspaceId>) -> (r: Result<(), Error>)
        ensures
            r is Ok,
            final(self).segments@.len() == old(self).segments@.len(),
            final(self).id == old(self).id,
            final(self).monitor == old(self).monitor,
            forall|i: int| 0 <= i < old(self).segments@.len() ==> {
                &&& (#[trigger] final(self).segments@[i]).position == old(self).segments@[i].position
                &&& match (final(self).segments@[i].segment_type, old(self).segments@[i].segment_type) {
                    (SegmentType::Workspace(a), SegmentType::Workspace(b)) => {
                        &&& entries(a.workspaces@).len() == entries(b.workspaces@).len()
                        &&& forall|k: int| 0 <= k < entries(b.workspaces@).len() ==> #[trigger] entries(a.workspaces@)[k] == entry_after_update(entries(b.workspaces@)[k], focused_workspace, open_workspace)
                        &&& a.settings@ == b.settings@
                    },
                    _ => final(self).segments@[i] == old(self).segments@[i],
                }
            },
    {
        let ghost old_segs = self.segments@;
        let mut i: usize = 0;
        while i < self.segments.len()
            invariant
                old_segs == old(self).segments@,
                self.id == old(self).id,
                self.monitor == old(self).monitor,
                self.segments@.len() == old_segs.len(),
                i <= old_segs.len(),
                forall|j: int| 0 <= j < i ==> {
                    &&& (#[trigger] self.segments@[j]).position == old_segs[j].position
                    &&& match (self.segments@[j].segment_type, old_segs[j].segment_type) {
                        (SegmentType::Workspace(a), SegmentType::Workspace(b)) => {
                            &&& entries(a.workspaces@).len() == entries(b.workspaces@).len()
                            &&& forall|k: int| 0 <= k < entries(b.workspaces@).len() ==> #[trigger] entries(a.workspaces@)[k] == entry_after_update(entries(b.workspaces@)[k], focused_workspace, open_workspace)
                            &&& a.settings@ == b.settings@
                        },
                        _ => self.segments@[j] == old_segs[j],
                    }
                },
                forall|j: int| i <= j < old_segs.len() ==> #[trigger] self.segments@[j] == old_segs[j],
            decreases old_segs.len() - i,
        {
            if let SegmentType::Workspace(info) = &self.segments[i].segment_type {
                let mut info2 = info.duplicate();
                let _ = info2.set_focused(focused_workspace);
                let _ = info2.set_open(open_workspace);
                let position = self.segments[i].position;
                self.segments.set(i, Segment { segment_type: SegmentType::Workspace(info2), position });
            }
            i = i + 1;
        }
        Ok(())
    }

    /// Shows `window_title` in every title segment.
    pub fn update_window_title(&mut self, window_title: String)
        ensures
            final(self).segments@.len() == old(self).segments@.len(),
            final(self).id == old(self).id,
            final(self).monitor == old(self).monitor,
            forall|i: int| 0 <= i < old(self).segments@.len() ==> {
                &&& (#[trigger] final(self).segments@[i]).position == old(self).segments@[i].position
                &&& match (final(self).segments@[i].segment_type, old(self).segments@[i].segment_type) {
                    (SegmentType::WindowTitle(a), SegmentType::WindowTitle(b)) => a.title@ == window_title@ && a.settings@ == b.settings@,
                    _ => final(self).segments@[i] == old(self).segments@[i],
                }
            },
    {
        let ghost old_segs = self.segments@;
        let mut i: usize = 0;
        while i < self.segments.len()
            invariant
                old_segs == old(self).segments@,
                self.id == old(self).id,
                self.monitor == old(self).monitor,
                self.segments@.len() == old_segs.len(),
                i <= old_segs.len(),
                forall|j: int| 0 <= j < i ==> {
                    &&& (#[trigger] self.segments@[j]).position == old_segs[j].position
                    &&& match (self.segments@[j].segment_type, old_segs[j].segment_type) {
                        (SegmentType::WindowTitle(a), SegmentType::WindowTitle(b)) => a.title@ == window_title@ && a.settings@ == b.settings@,
                        _ => self.segments@[j] == old_segs[j],
                    }
                },
                forall|j: int| i <= j < old_segs.len() ==> #[trigger] self.segments@[j] == old_segs[j],
            decreases old_segs.len() - i,
        {
            if let SegmentType::WindowTitle(title) = &self.segments[i].segment_type {
                let mut t2 = title.duplicate();
                t2.set_title(window_title.clone());
                let position = self.segments[i].position;
                self.segments.set(i, Segment { segment_type: SegmentType::WindowTitle(t2), position });
            }
            i = i + 1;
        }
    }

    /// Tells the bar the focused and open workspace and the focused window's title. The
    /// widgets are updated by the caller, which runs their commands.
    pub fn update(&mut self, focused_workspace: Option<WorkspaceId>, open_workspace: Option<WorkspaceId>, window_title: String) -> (r: Result<(), Error>)
        ensures
            r is Ok,
            final(self).segments@.len() == old(self).segments@.len(),
            forall|i: int| 0 <= i < old(self).segments@.len() ==> {
                &&& (#[trigger] final(self).segments@[i]).position == old(self).segments@[i].position
                &&& match (final(self).segments@[i].segment_type, old(self).segments@[i].segment_type) {
                    (SegmentType::Workspace(a), SegmentType::Workspace(b)) => {
                        &&& entries(a.workspaces@).len() == entries(b.workspaces@).len()
                        &&& forall|k: int| 0 <= k < entries(b.workspaces@).len() ==> #[trigger] entries(a.workspaces@)[k] == entry_after_update(entries(b.workspaces@)[k], focused_workspace, open_workspace)
                        &&& a.settings@ == b.settings@
                    },
                    (SegmentType::WindowTitle(a), SegmentType::WindowTitle(b)) => a.title@ == window_title@ && a.settings@ == b.settings@,
                    _ => final(self).segments@[i] == old(self).segments@[i],
                }
            },
    {
        let _ = self.update_workspace_info(focused_workspace, open_workspace);
        self.update_window_title(window_title);
        Ok(())
    }

    /// The indices of the segments from left to right: the left ones, then the middle
    /// ones, then the right ones, each group in the bar's order.
    pub fn sorted_indices(&self) -> (r: Vec<usize>)
        ensures
            r@ == indices_at(self.segments@, SegmentPosition::Left) + indices_at(self.segments@, SegmentPosition::Middle) + indices_at(self.segments@, SegmentPosition::Right),
    {
        let left = self.indices_at(SegmentPosition::Left);
        let middle = self.indices_at(SegmentPosition::Middle);
        let right = self.indices_at(SegmentPosition::Right);
        let mut r = left;
        let mut m = middle;
        let mut rr = right;
        r.append(&mut m);
        r.append(&mut rr);
        r
    }

    /// The indices of the segments at the position `p`, in order.
    fn indices_at(&self, p: SegmentPosition) -> (r: Vec<usize>)
        ensures
            r@ == indices_at(self.segments@, p),
    {
        let ghost segs = self.segments@;
        let mut r: Vec<usize> = Vec::new();
        let mut i: usize = 0;
        proof {
            assert(segs.subrange(0, 0) =~= Seq::<Segment>::empty());
        }
        while i < self.segments.len()
            invariant
                segs == self.segments@,
                i <= segs.len(),
                r@ == indices_at(segs.subrange(0, i as int), p),
            decreases segs.len() - i,
        {
            proof {
                assert(segs.subrange(0, i + 1).drop_last() =~= segs.subrange(0, i as int));
            }
            if self.segments[i].position == p {
                r.push(i);
            }
            i = i + 1;
        }
        proof {
            assert(segs.subrange(0, segs.len() as int) =~= segs);
        }
        r
    }
}

} // verus!
