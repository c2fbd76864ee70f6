use vstd::prelude::*;

use crate::error::Error;
use crate::wm::geometry::Geometry;
use crate::wm::workspace::WorkspaceId;

verus! {

pub type MonitorId = u32;

/// What the X server reports of a monitor: its area and its outputs.
#[derive(Debug, Clone)]
pub struct MonitorInfo {
    pub x: i16,
    pub y: i16,
    pub width: u16,
    pub height: u16,
    pub outputs: Vec<u32>,
}

/// The mathematical content of a monitor.
pub struct MonitorModel {
    pub size: Geometry,
    pub id: MonitorId,
    pub outputs: Seq<u32>,
    pub workspaces: Seq<WorkspaceId>,
    pub open_workspace: Option<WorkspaceId>,
    pub focused: bool,
}

/// The monitor with the workspace `w` placed on it (unless it is there already).
pub open spec fn with_workspace(m: MonitorModel, w: WorkspaceId) -> MonitorModel {
    MonitorModel {
        workspaces: if m.workspaces.contains(w) {
            m.workspaces
        } else {
            m.workspaces.push(w)
        },
        ..m
    }
}

/// The monitor showing the workspace `w`, as `set_open_workspace(Some(w))` leaves it when
/// `w` is on it.
pub open spec fn showing(m: MonitorModel, w: WorkspaceId) -> MonitorModel {
    MonitorModel { open_workspace: Some(w), ..m }
}

/// A monitor: its area, id and outputs, the workspaces placed on it (no workspace twice),
/// the one shown and whether it has the focus.
#[derive(Debug, Clone, Default)]
pub struct Monitor {
    size: Geometry,
    id: MonitorId,
    outputs: Vec<u32>,
    workspaces: Vec<WorkspaceId>,
    open_workspace: Option<WorkspaceId>,
    focused: bool,
}

impl View for Monitor {
    type V = MonitorModel;

    closed spec fn view(&self) -> MonitorModel {
        MonitorModel {
            size: self.size,
            id: self.id,
            outputs: self.outputs@,
            workspaces: self.workspaces@,
            open_workspace: self.open_workspace,
            focused: self.focused,
        }
    }
}

impl Monitor {
    fn new(size: Geometry, id: MonitorId, outputs: Vec<u32>) -> (r: Self)
        ensures
            r@ == (MonitorModel {
                size,
                id,
                outputs: outputs@,
                workspaces: Seq::<WorkspaceId>::empty(),
                open_workspace: None,
                focused: false,
            }),
    {
        Monitor { size, id, outputs, workspaces: Vec::new(), open_workspace: None, focused: false }
    }

    /// A monitor, without workspaces and unfocused, from what the X server reports.
    pub fn from_monitor_info(info: MonitorInfo, id: MonitorId) -> (r: Result<Self, Error>)
        ensures
            r matches Ok(m) && m@ == (MonitorModel {
                size: Geometry { x: info.x, y: info.y, width: info.width, height: info.height },
                id,
                outputs: info.outputs@,
                workspaces: Seq::<WorkspaceId>::empty(),
                open_workspace: None,
                focused: false,
            }),
    {
        let size = Geometry { x: info.x, y: info.y, width: info.width, height: info.height };
        Ok(Self::new(size, id, info.outputs))
    }

    /// Place a workspace on the monitor, unless it is there already.
    pub fn add_workspace(&mut self, workspace: WorkspaceId)
        ensures
            final(self)@ == with_workspace(old(self)@, workspace),
    {
        if self.contains(&workspace) {
            return;
        }
        self.workspaces.push(workspace);
    }

    /// The workspace shown on the monitor.
    pub fn get_open_workspace(&self) -> (r: Result<WorkspaceId, Error>)
        ensures
            match self@.open_workspace {
                Some(id) => r == Ok::<WorkspaceId, Error>(id),
                None => r matches Err(Error::NoOpenWorkspace),
            },
    {
        if let Some(id) = self.open_workspace {
            return Ok(id);
        }
        Err(Error::NoOpenWorkspace)
    }

    /// Show a workspace of the monitor; with `None`, show its first workspace.
    pub fn set_open_workspace(&mut self, id: Option<WorkspaceId>) -> (r: Result<(), Error>)
        ensures
            match id {
                Some(new_id) => if old(self)@.workspaces.contains(new_id) {
                    r is Ok && final(self)@ == showing(old(self)@, new_id)
                } else {
                    r matches Err(Error::WorkspaceNotOnMonitor) && final(self)@ == old(self)@
                },
                None => if old(self)@.workspaces.len() > 0 {
                    r is Ok && final(self)@ == (MonitorModel {
                        open_workspace: Some(old(self)@.workspaces[0]),
                        ..old(self)@
                    })
                } else {
                    r matches Err(Error::MonitorWithoutWorkspaces) && final(self)@ == old(self)@
                },
            },
    {
        if let Some(new_id) = id {
            if !self.contains(&new_id) {
                return Err(Error::WorkspaceNotOnMonitor);
            }
            self.open_workspace = Some(new_id);
            Ok(())
        } else if self.workspaces.len() > 0 {
            self.open_workspace = Some(self.workspaces[0]);
            Ok(())
        } else {
            Err(Error::MonitorWithoutWorkspaces)
        }
    }

    pub fn is_focused(&self) -> (r: bool)
        ensures
            r == self@.focused,
    {
        self.focused
    }

    pub fn focus(&mut self, focus: bool)
        ensures
            final(self)@ == (MonitorModel { focused: focus, ..old(self)@ }),
    {
        self.focused = focus;
    }

    pub fn size(&self) -> (r: Geometry)
        ensures
            r == self@.size,
    {
        self.size
    }

    pub fn id(&self) -> (r: u32)
        ensures
            r == self@.id,
    {
        self.id
    }

    /// The workspace is placed on this monitor.
    pub fn contains(&self, workspace: &u32) -> (r: bool)
        ensures
            r == self@.workspaces.contains(*workspace),
    {
        let mut i: usize = 0;
        while i < self.workspaces.len()
            invariant
                i <= self.workspaces@.len(),
                forall|j: int| 0 <= j < i ==> self.workspaces@[j] != *workspace,
            decreases self.workspaces@.len() - i,
        {
            if self.workspaces[i] == *workspace {
                return true;
            }
            i = i + 1;
        }
        false
    }
}

} // verus!
