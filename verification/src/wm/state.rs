use vstd::prelude::*;

use crate::error::{Error, ErrorModel};
use crate::wm::actions::{Action, Direction};
use crate::parsers::views;
use crate::wm::container::{
    first_with_window, has_id, has_window, ids_unique, index_of_id, next_index, previous_index, Container,
};
use crate::wm::workspace::{layout_applied, lemma_first_window_unique, next_layout};
use crate::wm::layouts::{layout_named, LayoutEffect, LayoutType};
use crate::wm::container::{in_layout_count, new_container, swapped, Client, ContainerId, CT_MASK_TILING};
use crate::wm::geometry::attributes_of;
use crate::config::Config;
use crate::text::spec_to_lowercase;
use crate::wm::monitors::{with_workspace, Monitor, MonitorInfo, MonitorModel};
use crate::config::workspace_settings::WorkspaceSettings;
use crate::numbers::{parse_uint, parse_usize};
use crate::wm::layouts::{layout_mask_from, string_views, LayoutMask};
use crate::wm::geometry::Geometry;
use crate::wm::workspace::{Workspace, WorkspaceId};

verus! {

/// The window manager's state that does not depend on the X connection: the workspaces,
/// the monitors, which workspace has the focus, client ids handed out, and whether a
/// floating window is being dragged or resized.
pub struct State {
    workspaces: Vec<Workspace>,
    focused_workspace: Option<WorkspaceId>,
    last_client_id: u64,
    is_dragging: bool,
    is_resizing: bool,
    monitors: Vec<Monitor>,
    floating_modifier: u16,
}

impl State {
    /// Every workspace's containers are well formed.
    #[verifier::type_invariant]
    closed spec fn inv(&self) -> bool {
        forall|i: int| 0 <= i < self.workspaces@.len() ==> (#[trigger] self.workspaces@[i]).wf()
    }

    /// The workspaces, in order.
    pub closed spec fn spec_workspaces(&self) -> Seq<Workspace> {
        self.workspaces@
    }

    /// The monitors, in order.
    pub closed spec fn spec_monitors(&self) -> Seq<MonitorModel> {
        monitors_view(self.monitors@)
    }

    /// The workspace that has the focus.
    pub closed spec fn spec_focused(&self) -> Option<WorkspaceId> {
        self.focused_workspace
    }

    /// The last client id handed out.
    pub closed spec fn spec_last_client_id(&self) -> u64 {
        self.last_client_id
    }

    /// Is a floating window being dragged?
    pub closed spec fn spec_dragging(&self) -> bool {
        self.is_dragging
    }

    /// Is a floating window being resized?
    pub closed spec fn spec_resizing(&self) -> bool {
        self.is_resizing
    }

    /// The modifier mask that moves and resizes floating windows with the mouse.
    pub closed spec fn spec_floating_modifier(&self) -> u16 {
        self.floating_modifier
    }
}

/// What the X server must do to show a newly focused workspace: unmap the windows of the
/// workspace that goes away, map those of the one that comes, and move the pointer.
#[derive(Debug, Clone)]
pub struct FocusPlan {
    pub unmap: Vec<u32>,
    pub map: Vec<u32>,
    pub warp: Option<(i16, i16)>,
}

/// The monitors of a list, taken by views.
pub open spec fn monitors_view(ms: Seq<Monitor>) -> Seq<MonitorModel> {
    ms.map_values(|m: Monitor| m@)
}

/// The windows of a list of containers, in order (empty containers have none).
pub open spec fn window_list(cs: Seq<Container>) -> Seq<u32>
    decreases cs.len(),
{
    if cs.len() == 0 {
        seq![]
    } else {
        match cs.last().container_type.spec_window_id() {
            Some(w) => window_list(cs.drop_last()).push(w),
            None => window_list(cs.drop_last()),
        }
    }
}

/// The first workspace of `ws` with the id `id`.
pub open spec fn workspace_index(ws: Seq<Workspace>, id: WorkspaceId) -> Option<int>
    decreases ws.len(),
{
    if ws.len() == 0 {
        None
    } else {
        match workspace_index(ws.drop_last(), id) {
            Some(i) => Some(i),
            None => if ws.last().spec_id() == id {
                Some(ws.len() - 1)
            } else {
                None
            },
        }
    }
}

/// The first monitor of `ms` that satisfies `p`.
pub open spec fn first_monitor(ms: Seq<MonitorModel>, p: spec_fn(MonitorModel) -> bool) -> Option<int>
    decreases ms.len(),
{
    if ms.len() == 0 {
        None
    } else {
        match first_monitor(ms.drop_last(), p) {
            Some(i) => Some(i),
            None => if p(ms.last()) {
                Some(ms.len() - 1)
            } else {
                None
            },
        }
    }
}

/// The focused monitor, or else the first one.
pub open spec fn focused_or_first(ms: Seq<MonitorModel>) -> Option<int> {
    match first_monitor(ms, |m: MonitorModel| m.focused) {
        Some(i) => Some(i),
        None => if ms.len() > 0 {
            Some(0)
        } else {
            None
        },
    }
}

/// The first monitor with the id `mid`.
pub open spec fn monitor_with_id(ms: Seq<MonitorModel>, mid: u32) -> Option<int> {
    first_monitor(ms, |m: MonitorModel| m.id == mid)
}

/// The first monitor that holds the workspace `id`.
pub open spec fn monitor_holding(ms: Seq<MonitorModel>, id: WorkspaceId) -> Option<int> {
    first_monitor(ms, |m: MonitorModel| m.workspaces.contains(id))
}

/// The windows of the workspace `id`, or none when there is no such workspace.
pub open spec fn windows_of(ws: Seq<Workspace>, id: Option<WorkspaceId>) -> Seq<u32> {
    match id {
        Some(i) => match workspace_index(ws, i) {
            Some(k) => window_list(ws[k].containers_view()),
            None => seq![],
        },
        None => seq![],
    }
}

/// The monitors, the focused workspace and the outcome after asking to focus the
/// workspace `id` (before the pointer moves): the windows to unmap and to map, or an
/// error.
pub struct FocusStep {
    pub early: bool,
    pub monitors: Seq<MonitorModel>,
    pub focused: Option<WorkspaceId>,
    pub result: Result<(Seq<u32>, Seq<u32>), ErrorModel>,
}

/// Focusing the workspace `id`. If it is focused already nothing happens. When it is on
/// the monitor that has the focus (or the first monitor), the focused workspace's windows
/// are unmapped, its windows are mapped and it becomes that monitor's open workspace. When
/// it is on another monitor and open there, that monitor just takes the focus; otherwise
/// that monitor's open workspace is replaced by it and takes the focus.
pub open spec fn focus_step(ws: Seq<Workspace>, ms: Seq<MonitorModel>, focused: Option<WorkspaceId>, id: WorkspaceId) -> FocusStep {
    let unchanged = |r: Result<(Seq<u32>, Seq<u32>), ErrorModel>| FocusStep { early: false, monitors: ms, focused, result: r };
    if id == (match focused {
        Some(f) => f,
        None => 0,
    }) {
        FocusStep { early: true, monitors: ms, focused, result: Ok((seq![], seq![])) }
    } else {
        match focused_or_first(ms) {
            None => unchanged(Err(ErrorModel::NoMonitors)),
            Some(cur) => match monitor_holding(ms, id) {
                None => unchanged(Err(ErrorModel::WorkspaceOnNoMonitor)),
                Some(n) => {
                    let cur_id = ms[cur].id;
                    let new_id = ms[n].id;
                    if cur_id == new_id {
                        match workspace_index(ws, id) {
                            None => unchanged(Err(ErrorModel::NoWorkspaceWithId(id))),
                            Some(t) => {
                                let c = monitor_with_id(ms, cur_id)->Some_0;
                                if !ms[c].workspaces.contains(id) {
                                    unchanged(Err(ErrorModel::WorkspaceNotOnMonitor))
                                } else {
                                    FocusStep {
                                        early: false,
                                        monitors: ms.update(c, MonitorModel { open_workspace: Some(id), focused: true, ..ms[c] }),
                                        focused: Some(id),
                                        result: Ok((windows_of(ws, focused), window_list(ws[t].containers_view()))),
                                    }
                                }
                            },
                        }
                    } else {
                        let c2 = monitor_with_id(ms, new_id)->Some_0;
                        match ms[c2].open_workspace {
                            None => unchanged(Err(ErrorModel::NoOpenWorkspace)),
                            Some(open) => {
                                if open == id {
                                    let ms1 = ms.update(c2, MonitorModel { focused: true, ..ms[c2] });
                                    let c1 = monitor_with_id(ms1, cur_id)->Some_0;
                                    FocusStep {
                                        early: false,
                                        monitors: ms1.update(c1, MonitorModel { focused: false, ..ms1[c1] }),
                                        focused: Some(id),
                                        result: Ok((seq![], seq![])),
                                    }
                                } else {
                                    match workspace_index(ws, id) {
                                        None => unchanged(Err(ErrorModel::NoWorkspaceWithId(id))),
                                        Some(t) => {
                                            let ms1 = ms.update(c2, MonitorModel { focused: true, ..ms[c2] });
                                            if !ms1[c2].workspaces.contains(id) {
                                                FocusStep { early: false, monitors: ms1, focused, result: Err(ErrorModel::WorkspaceNotOnMonitor) }
                                            } else {
                                                let ms2 = ms1.update(c2, MonitorModel { open_workspace: Some(id), ..ms1[c2] });
                                                let c1 = monitor_with_id(ms2, cur_id)->Some_0;
                                                FocusStep {
                                                    early: false,
                                                    monitors: ms2.update(c1, MonitorModel { focused: false, ..ms2[c1] }),
                                                    focused: Some(id),
                                                    result: Ok((windows_of(ws, Some(open)), window_list(ws[t].containers_view()))),
                                                }
                                            }
                                        },
                                    }
                                }
                            },
                        }
                    }
                },
            },
        }
    }
}

/// The windows to unmap and to map and where the pointer goes, or the error, when the
/// workspace `id` is focused (moving the pointer to its middle when `warp` asks for it).
pub open spec fn focus_result(
    ws: Seq<Workspace>,
    ms: Seq<MonitorModel>,
    focused: Option<WorkspaceId>,
    id: WorkspaceId,
    warp: bool,
) -> Result<(Seq<u32>, Seq<u32>, Option<(i16, i16)>), ErrorModel> {
    let step = focus_step(ws, ms, focused, id);
    match step.result {
        Err(e) => Err(e),
        Ok((u, m)) => if step.early {
            Ok((seq![], seq![], None))
        } else {
            match workspace_index(ws, id) {
                None => Err(ErrorModel::FocusedWorkspaceMissing),
                Some(k) => Ok((u, m, if warp {
                    Some(middle_of(ws[k].spec_screen()))
                } else {
                    None
                })),
            }
        },
    }
}

/// A focus plan as plain values.
pub open spec fn plan_view(p: FocusPlan) -> (Seq<u32>, Seq<u32>, Option<(i16, i16)>) {
    (p.unmap@, p.map@, p.warp)
}

/// `after` keeps the client ids, the floating modifier and the drag and resize flags of
/// `before`.
pub open spec fn keeps_counters(before: State, after: State) -> bool {
    &&& after.spec_last_client_id() == before.spec_last_client_id()
    &&& after.spec_floating_modifier() == before.spec_floating_modifier()
    &&& after.spec_dragging() == before.spec_dragging()
    &&& after.spec_resizing() == before.spec_resizing()
}

/// Nothing of the state changes.
pub open spec fn unchanged(before: State, after: State) -> bool {
    &&& after.spec_workspaces() == before.spec_workspaces()
    &&& after.spec_monitors() == before.spec_monitors()
    &&& after.spec_focused() == before.spec_focused()
    &&& keeps_counters(before, after)
}

/// The state after focusing the workspace `workspace_id` (moving the pointer when
/// `warp_pointer` asks for it) and the result, as `focus_step` and `focus_result` describe
/// them.
pub open spec fn focus_outcome(before: State, after: State, workspace_id: WorkspaceId, warp_pointer: bool, r: Result<FocusPlan, Error>) -> bool {
    &&& after.spec_workspaces() == before.spec_workspaces()
    &&& after.spec_monitors() == focus_step(before.spec_workspaces(), before.spec_monitors(), before.spec_focused(), workspace_id).monitors
    &&& after.spec_focused() == focus_step(before.spec_workspaces(), before.spec_monitors(), before.spec_focused(), workspace_id).focused
    &&& (match focus_result(before.spec_workspaces(), before.spec_monitors(), before.spec_focused(), workspace_id, warp_pointer) {
        Ok(t) => r matches Ok(p) && plan_view(p) == t,
        Err(e) => r matches Err(x) && x@ == e,
    })
    &&& after.spec_last_client_id() == before.spec_last_client_id()
    &&& after.spec_floating_modifier() == before.spec_floating_modifier()
    &&& after.spec_dragging() == before.spec_dragging()
    &&& after.spec_resizing() == before.spec_resizing()
}

/// The state after moving the focus in the direction `direction`, and the window that gets it.
pub open spec fn focus_direction_outcome(before: State, after: State, direction: Direction, r: Result<Option<u32>, Error>) -> bool {
    &&& keeps_counters(before, after)
    &&& after.spec_monitors() == before.spec_monitors()
    &&& after.spec_focused() == before.spec_focused()
    &&& (match focused_index(before.spec_workspaces(), before.spec_focused()) {
        None => r matches Err(Error::FocusedWorkspaceMissing) && after.spec_workspaces() == before.spec_workspaces(),
        Some(k) => match focus_target(before.spec_workspaces()[k], direction) {
            Err(e) => r matches Err(x) && x@ == e && after.spec_workspaces() == before.spec_workspaces(),
            Ok(None) => r matches Ok(None) && after.spec_workspaces() == before.spec_workspaces(),
            Ok(Some(t)) => r == Ok::<Option<u32>, Error>(Some(t))
                && after.spec_workspaces().len() == before.spec_workspaces().len()
                && refocused(before.spec_workspaces()[k], after.spec_workspaces()[k], t)
                && forall|j: int| 0 <= j < before.spec_workspaces().len() && j != k ==> #[trigger] after.spec_workspaces()[j] == before.spec_workspaces()[j],
        },
    })
}

/// The state after swapping the focused client with its neighbour in the direction
/// `direction`, and the effects.
pub open spec fn swap_outcome(before: State, after: State, direction: Direction, r: Result<Vec<LayoutEffect>, Error>) -> bool {
    &&& keeps_counters(before, after)
    &&& after.spec_monitors() == before.spec_monitors()
    &&& after.spec_focused() == before.spec_focused()
    &&& (match focused_index(before.spec_workspaces(), before.spec_focused()) {
        None => r matches Err(Error::FocusedWorkspaceMissing) && after.spec_workspaces() == before.spec_workspaces(),
        Some(k) => {
            let w = before.spec_workspaces()[k];
            let cs = w.containers_view();
            if w.spec_focus().len() == 0 {
                r matches Ok(e) && e@.len() == 0 && after.spec_workspaces() == before.spec_workspaces()
            } else if !has_window(cs, w.spec_focus()[0]) {
                r matches Err(Error::NoContainerForWindow(x)) && x == w.spec_focus()[0] && after.spec_workspaces() == before.spec_workspaces()
            } else {
                let i = first_window(cs, w.spec_focus()[0]);
                let j = step_index(cs.len() as int, i, direction);
                r matches Ok(e) && only_changed_at(before.spec_workspaces(), after.spec_workspaces(), k)
                    && relaid_with_containers(w, swapped(cs, cs[i].container_id, cs[j].container_id), after.spec_workspaces()[k], e@)
            }
        },
    })
}

/// The state after switching the focused workspace to the layout named `layout`, and the
/// effects.
pub open spec fn change_layout_outcome(before: State, after: State, layout: String, r: Result<Vec<LayoutEffect>, Error>) -> bool {
    &&& keeps_counters(before, after)
    &&& after.spec_monitors() == before.spec_monitors()
    &&& after.spec_focused() == before.spec_focused()
    &&& (match focused_index(before.spec_workspaces(), before.spec_focused()) {
        None => r matches Err(Error::FocusedWorkspaceMissing) && after.spec_workspaces() == before.spec_workspaces(),
        Some(k) => {
            let w = before.spec_workspaces()[k];
            match layout_named(spec_to_lowercase(layout@)) {
                None => r matches Err(Error::UnknownLayout(x)) && x@ == layout@
                    && only_changed_at(before.spec_workspaces(), after.spec_workspaces(), k)
                    && same_workspace(w, after.spec_workspaces()[k]),
                Some(l) => {
                    let nl = if l.spec_mask() & w.spec_allowed_layouts() != 0 {
                        l
                    } else {
                        w.spec_layout()
                    };
                    r matches Ok(e) && only_changed_at(before.spec_workspaces(), after.spec_workspaces(), k)
                        && relaid_with_layout(w, nl, after.spec_workspaces()[k], e@)
                },
            }
        },
    })
}

/// The state after switching the focused workspace to its next allowed layout, and the
/// effects.
pub open spec fn cycle_layout_outcome(before: State, after: State, r: Result<Vec<LayoutEffect>, Error>) -> bool {
    &&& keeps_counters(before, after)
    &&& after.spec_monitors() == before.spec_monitors()
    &&& after.spec_focused() == before.spec_focused()
    &&& (match focused_index(before.spec_workspaces(), before.spec_focused()) {
        None => r matches Err(Error::FocusedWorkspaceMissing) && after.spec_workspaces() == before.spec_workspaces(),
        Some(k) => {
            let w = before.spec_workspaces()[k];
            if w.spec_allowed_layouts() == 0 {
                r matches Err(Error::NoLayouts) && only_changed_at(before.spec_workspaces(), after.spec_workspaces(), k)
                    && same_workspace(w, after.spec_workspaces()[k])
            } else {
                match next_layout(w.spec_allowed_layouts(), w.spec_layout()) {
                    Some(Err(n)) => r matches Err(Error::InvalidLayoutId(x)) && x == n
                        && only_changed_at(before.spec_workspaces(), after.spec_workspaces(), k)
                        && same_workspace(w, after.spec_workspaces()[k]),
                    other => {
                        let nl = match other {
                            Some(Ok(l)) => l,
                            _ => w.spec_layout(),
                        };
                        r matches Ok(e) && only_changed_at(before.spec_workspaces(), after.spec_workspaces(), k)
                            && relaid_with_layout(w, nl, after.spec_workspaces()[k], e@)
                    },
                }
            }
        },
    })
}

/// The state after making the focused client float or putting it back into the layout, and
/// the result.
pub open spec fn toggle_float_outcome(before: State, after: State, r: Result<(u32, Vec<LayoutEffect>), Error>) -> bool {
    &&& keeps_counters(before, after)
    &&& after.spec_monitors() == before.spec_monitors()
    &&& after.spec_focused() == before.spec_focused()
    &&& (match focused_index(before.spec_workspaces(), before.spec_focused()) {
        None => r matches Err(Error::FocusedWorkspaceMissing) && after.spec_workspaces() == before.spec_workspaces(),
        Some(k) => {
            let w = before.spec_workspaces()[k];
            let cs = w.containers_view();
            if w.spec_focus().len() == 0 {
                r matches Err(Error::NoFocusedClient) && after.spec_workspaces() == before.spec_workspaces()
            } else if !has_window(cs, w.spec_focus()[0]) {
                r matches Err(Error::NoContainerForWindow(x)) && x == w.spec_focus()[0] && after.spec_workspaces() == before.spec_workspaces()
            } else {
                let i = first_window(cs, w.spec_focus()[0]);
                r matches Ok((win, e)) && win == w.spec_focus()[0]
                    && only_changed_at(before.spec_workspaces(), after.spec_workspaces(), k)
                    && toggled(cs[i]) is Some
                    && relaid_with_containers(w, cs.update(i, toggled(cs[i])->Some_0), after.spec_workspaces()[k], e@)
            }
        },
    })
}

/// The state after moving the focused client to the workspace `workspace_id`, and the
/// result.
pub open spec fn move_outcome(before: State, after: State, workspace_id: WorkspaceId, r: Result<(u32, Result<MovePlan, Error>), Error>) -> bool {
    &&& keeps_the_rest(before, after)
    &&& after.spec_dragging() == before.spec_dragging()
    &&& after.spec_resizing() == before.spec_resizing()
    &&& ({
        let ws = before.spec_workspaces();
        match focused_index(ws, before.spec_focused()) {
            None => r matches Err(Error::FocusedWorkspaceMissing) && after.spec_workspaces() == ws,
            Some(s) => if ws[s].spec_focus().len() == 0 {
                r matches Err(Error::NoFocusedClient) && after.spec_workspaces() == ws
            } else {
                match workspace_index(ws, workspace_id) {
                    None => r matches Err(Error::NoWorkspaceWithId(x)) && x == workspace_id && after.spec_workspaces() == ws,
                    Some(t) => {
                        let win = ws[s].spec_focus()[0];
                        if !has_window(ws[s].containers_view(), win) {
                            r matches Ok((w, Err(Error::NoClientToRemove(x)))) && w == win && x == win
                                && after.spec_workspaces() == ws
                        } else {
                            r matches Ok((w, Ok(p))) && w == win
                                && window_moved(ws, s, t, win, p.source@, p.target@, after.spec_workspaces())
                                && match shown_on_monitor(before.spec_monitors(), workspace_id) {
                                    Ok(b) => p.shown == Ok::<bool, Error>(b),
                                    Err(e) => p.shown matches Err(x) && x@ == e,
                                }
                        }
                    },
                }
            },
        }
    })
}

/// The point at the middle of an area, where the pointer goes (coordinates wrap).
pub open spec fn middle_of(g: crate::wm::geometry::Geometry) -> (i16, i16) {
    (g.x.wrapping_add((g.width / 2) as i16), g.y.wrapping_add((g.height / 2) as i16))
}

/// The first monitor that satisfies `p` satisfies it and is one of the list; when one
/// satisfies it, there is a first.
proof fn lemma_first_monitor(ms: Seq<MonitorModel>, p: spec_fn(MonitorModel) -> bool)
    ensures
        first_monitor(ms, p) matches Some(i) ==> 0 <= i < ms.len() && p(ms[i]),
        (exists|i: int| 0 <= i < ms.len() && p(ms[i])) ==> first_monitor(ms, p) is Some,
    decreases ms.len(),
{
    if ms.len() > 0 {
        lemma_first_monitor(ms.drop_last(), p);
        if exists|i: int| 0 <= i < ms.len() && p(ms[i]) {
            let i = choose|i: int| 0 <= i < ms.len() && p(ms[i]);
            if i < ms.len() - 1 {
                assert(ms.drop_last()[i] == ms[i]);
            }
        }
    }
}

proof fn lemma_first_monitor_prefix(ms: Seq<MonitorModel>, k: int, p: spec_fn(MonitorModel) -> bool)
    requires
        0 < k <= ms.len(),
        first_monitor(ms.subrange(0, k - 1), p) is None,
        p(ms[k - 1]),
    ensures
        first_monitor(ms, p) == Some(k - 1),
    decreases ms.len(),
{
    if ms.len() > k {
        assert(ms.drop_last().subrange(0, k - 1) =~= ms.subrange(0, k - 1));
        assert(ms.drop_last()[k - 1] == ms[k - 1]);
        lemma_first_monitor_prefix(ms.drop_last(), k, p);
    } else {
        assert(ms.drop_last() =~= ms.subrange(0, k - 1));
    }
}

proof fn lemma_workspace_index(ws: Seq<Workspace>, id: WorkspaceId)
    ensures
        workspace_index(ws, id) matches Some(i) ==> 0 <= i < ws.len() && ws[i].spec_id() == id,
    decreases ws.len(),
{
    if ws.len() > 0 {
        lemma_workspace_index(ws.drop_last(), id);
    }
}

proof fn lemma_workspace_index_prefix(ws: Seq<Workspace>, k: int, id: WorkspaceId)
    requires
        0 < k <= ws.len(),
        workspace_index(ws.subrange(0, k - 1), id) is None,
        ws[k - 1].spec_id() == id,
    ensures
        workspace_index(ws, id) == Some(k - 1),
    decreases ws.len(),
{
    if ws.len() > k {
        assert(ws.drop_last().subrange(0, k - 1) =~= ws.subrange(0, k - 1));
        assert(ws.drop_last()[k - 1] == ws[k - 1]);
        lemma_workspace_index_prefix(ws.drop_last(), k, id);
    } else {
        assert(ws.drop_last() =~= ws.subrange(0, k - 1));
    }
}

/// The windows of a list of containers, in order.
fn windows_in(cs: &[Container]) -> (r: Vec<u32>)
    ensures
        r@ == window_list(cs@),
{
    let mut r: Vec<u32> = Vec::new();
    let mut i: usize = 0;
    proof {
        assert(cs@.subrange(0, 0) =~= Seq::<Container>::empty());
    }
    while i < cs.len()
        invariant
            i <= cs@.len(),
            r@ == window_list(cs@.subrange(0, i as int)),
        decreases cs@.len() - i,
    {
        proof {
            assert(cs@.subrange(0, i + 1).drop_last() =~= cs@.subrange(0, i as int));
        }
        if let Some(w) = cs[i].data().window_id() {
            r.push(w);
        }
        i = i + 1;
    }
    proof {
        assert(cs@.subrange(0, cs@.len() as int) =~= cs@);
    }
    r
}

impl State {
    /// The index of the first workspace with the id `id`.
    pub fn workspace_position(&self, id: WorkspaceId) -> (r: Option<usize>)
        ensures
            match workspace_index(self.spec_workspaces(), id) {
                Some(i) => r matches Some(x) && x == i,
                None => r is None,
            },
            r matches Some(x) ==> x < self.spec_workspaces().len() && self.spec_workspaces()[x as int].spec_id() == id,
    {
        proof {
            lemma_workspace_index(self.workspaces@, id);
        }
        let ghost ws = self.workspaces@;
        let mut i: usize = 0;
        proof {
            assert(ws.subrange(0, 0) =~= Seq::<Workspace>::empty());
        }
        while i < self.workspaces.len()
            invariant
                ws == self.workspaces@,
                i <= ws.len(),
                workspace_index(ws.subrange(0, i as int), id) is None,
            decreases ws.len() - i,
        {
            proof {
                assert(ws.subrange(0, i + 1).drop_last() =~= ws.subrange(0, i as int));
            }
            if self.workspaces[i].id() == id {
                proof {
                    lemma_workspace_index_prefix(ws, i as int + 1, id);
                }
                return Some(i);
            }
            i = i + 1;
        }
        proof {
            assert(ws.subrange(0, ws.len() as int) =~= ws);
        }
        None
    }

    /// The windows of the workspace `id`, or none when there is no such workspace.
    fn windows_of_workspace(&self, id: Option<WorkspaceId>) -> (r: Vec<u32>)
        ensures
            r@ == windows_of(self.spec_workspaces(), id),
    {
        match id {
            Some(i) => match self.workspace_position(i) {
                Some(k) => {
                    proof {
                        lemma_workspace_index(self.workspaces@, i);
                    }
                    match self.workspaces[k].iter_containers() {
                        Ok(cs) => windows_in(cs),
                        Err(_) => Vec::new(),
                    }
                },
                None => Vec::new(),
            },
            None => Vec::new(),
        }
    }

    /// The index of the focused monitor, or else of the first one.
    fn focused_or_first_monitor(&self) -> (r: Option<usize>)
        ensures
            match focused_or_first(self.spec_monitors()) {
                Some(i) => r matches Some(x) && x == i,
                None => r is None,
            },
    {
        let ghost ms = monitors_view(self.monitors@);
        let ghost p = |m: MonitorModel| m.focused;
        let mut i: usize = 0;
        proof {
            assert(ms.subrange(0, 0) =~= Seq::<MonitorModel>::empty());
        }
        while i < self.monitors.len()
            invariant
                ms == monitors_view(self.monitors@),
                p == (|m: MonitorModel| m.focused),
                i <= ms.len(),
                first_monitor(ms.subrange(0, i as int), p) is None,
            decreases ms.len() - i,
        {
            proof {
                assert(ms.subrange(0, i + 1).drop_last() =~= ms.subrange(0, i as int));
            }
            if self.monitors[i].is_focused() {
                proof {
                    lemma_first_monitor_prefix(ms, i as int + 1, p);
                }
                return Some(i);
            }
            i = i + 1;
        }
        proof {
            assert(ms.subrange(0, ms.len() as int) =~= ms);
        }
        if self.monitors.len() > 0 {
            Some(0)
        } else {
            None
        }
    }

    /// The index of the first monitor that holds the workspace `id`.
    fn monitor_holding(&self, id: WorkspaceId) -> (r: Option<usize>)
        ensures
            match monitor_holding(self.spec_monitors(), id) {
                Some(i) => r matches Some(x) && x == i,
                None => r is None,
            },
    {
        let ghost ms = monitors_view(self.monitors@);
        let ghost p = |m: MonitorModel| m.workspaces.contains(id);
        let mut i: usize = 0;
        proof {
            assert(ms.subrange(0, 0) =~= Seq::<MonitorModel>::empty());
        }
        while i < self.monitors.len()
            invariant
                ms == monitors_view(self.monitors@),
                p == (|m: MonitorModel| m.workspaces.contains(id)),
                i <= ms.len(),
                first_monitor(ms.subrange(0, i as int), p) is None,
            decreases ms.len() - i,
        {
            proof {
                assert(ms.subrange(0, i + 1).drop_last() =~= ms.subrange(0, i as int));
            }
            if self.monitors[i].contains(&id) {
                proof {
                    lemma_first_monitor_prefix(ms, i as int + 1, p);
                }
                return Some(i);
            }
            i = i + 1;
        }
        proof {
            assert(ms.subrange(0, ms.len() as int) =~= ms);
        }
        None
    }

    /// The index of the first monitor with the id `mid`.
    fn monitor_index_with_id(&self, mid: u32) -> (r: Option<usize>)
        ensures
            match monitor_with_id(self.spec_monitors(), mid) {
                Some(i) => r matches Some(x) && x == i,
                None => r is None,
            },
    {
        let ghost ms = monitors_view(self.monitors@);
        let ghost p = |m: MonitorModel| m.id == mid;
        let mut i: usize = 0;
        proof {
            assert(ms.subrange(0, 0) =~= Seq::<MonitorModel>::empty());
        }
        while i < self.monitors.len()
            invariant
                ms == monitors_view(self.monitors@),
                p == (|m: MonitorModel| m.id == mid),
                i <= ms.len(),
                first_monitor(ms.subrange(0, i as int), p) is None,
            decreases ms.len() - i,
        {
            proof {
                assert(ms.subrange(0, i + 1).drop_last() =~= ms.subrange(0, i as int));
            }
            if self.monitors[i].id() == mid {
                proof {
                    lemma_first_monitor_prefix(ms, i as int + 1, p);
                }
                return Some(i);
            }
            i = i + 1;
        }
        proof {
            assert(ms.subrange(0, ms.len() as int) =~= ms);
        }
        None
    }
}

impl State {
    /// Gives or takes the focus of monitor `c`.
    fn set_monitor_focus(&mut self, c: usize, focus: bool)
        requires
            c < old(self).spec_monitors().len(),
        ensures
            final(self).spec_monitors() == old(self).spec_monitors().update(c as int, MonitorModel { focused: focus, ..old(self).spec_monitors()[c as int] }),
            final(self).spec_workspaces() == old(self).spec_workspaces(),
            final(self).spec_focused() == old(self).spec_focused(),
            final(self).spec_monitors().len() == old(self).spec_monitors().len(),
            final(self).spec_last_client_id() == old(self).spec_last_client_id(),
            final(self).spec_floating_modifier() == old(self).spec_floating_modifier(),
            final(self).spec_dragging() == old(self).spec_dragging(),
            final(self).spec_resizing() == old(self).spec_resizing(),
    {
        proof {
            use_type_invariant(&*self);
        }
        let ghost ms = monitors_view(self.monitors@);
        let mut monitors: Vec<Monitor> = Vec::new();
        std::mem::swap(&mut monitors, &mut self.monitors);
        let mut m = monitors.remove(c);
        m.focus(focus);
        monitors.insert(c, m);
        self.monitors = monitors;
        proof {
            assert(monitors_view(self.monitors@) =~= ms.update(c as int, MonitorModel { focused: focus, ..ms[c as int] }));
        }
    }

    /// Makes the workspace `id` the open workspace of monitor `c`, if it is on it.
    fn set_monitor_open(&mut self, c: usize, id: WorkspaceId) -> (r: Result<(), Error>)
        requires
            c < old(self).spec_monitors().len(),
        ensures
            if old(self).spec_monitors()[c as int].workspaces.contains(id) {
                r is Ok && final(self).spec_monitors() == old(self).spec_monitors().update(c as int, MonitorModel { open_workspace: Some(id), ..old(self).spec_monitors()[c as int] })
            } else {
                r matches Err(Error::WorkspaceNotOnMonitor) && final(self).spec_monitors() == old(self).spec_monitors()
            },
            final(self).spec_workspaces() == old(self).spec_workspaces(),
            final(self).spec_focused() == old(self).spec_focused(),
            final(self).spec_monitors().len() == old(self).spec_monitors().len(),
            final(self).spec_last_client_id() == old(self).spec_last_client_id(),
            final(self).spec_floating_modifier() == old(self).spec_floating_modifier(),
            final(self).spec_dragging() == old(self).spec_dragging(),
            final(self).spec_resizing() == old(self).spec_resizing(),
    {
        proof {
            use_type_invariant(&*self);
        }
        let ghost ms = monitors_view(self.monitors@);
        let mut monitors: Vec<Monitor> = Vec::new();
        std::mem::swap(&mut monitors, &mut self.monitors);
        let mut m = monitors.remove(c);
        let r = m.set_open_workspace(Some(id));
        monitors.insert(c, m);
        self.monitors = monitors;
        proof {
            if ms[c as int].workspaces.contains(id) {
                assert(monitors_view(self.monitors@) =~= ms.update(c as int, MonitorModel { open_workspace: Some(id), ..ms[c as int] }));
            } else {
                assert(monitors_view(self.monitors@) =~= ms);
            }
        }
        r
    }

    /// Focuses the workspace `workspace_id`, as `focus_step` describes, and says what the X
    /// server must do: which windows to unmap and map, and where the pointer goes when
    /// `warp_pointer` asks for it (the middle of the newly focused workspace).
    pub fn focus_workspace(&mut self, workspace_id: WorkspaceId, warp_pointer: bool) -> (r: Result<FocusPlan, Error>)
        ensures
            focus_outcome(*old(self), *final(self), workspace_id, warp_pointer, r),

    {
        proof {
            use_type_invariant(&*self);
        }
        let ghost ws = self.workspaces@;
        let ghost ms = monitors_view(self.monitors@);
        let ghost focused0 = self.focused_workspace;
        let current = match self.focused_workspace {
            Some(f) => f,
            None => 0,
        };
        if workspace_id == current {
            return Ok(FocusPlan { unmap: Vec::new(), map: Vec::new(), warp: None });
        }
        let cur = match self.focused_or_first_monitor() {
            Some(c) => c,
            None => return Err(Error::NoMonitors),
        };
        proof {
            lemma_first_monitor(ms, |m: MonitorModel| m.focused);
        }
        let n = match self.monitor_holding(workspace_id) {
            Some(n) => n,
            None => return Err(Error::WorkspaceOnNoMonitor),
        };
        proof {
            lemma_first_monitor(ms, |m: MonitorModel| m.workspaces.contains(workspace_id));
        }
        let cur_id = self.monitors[cur].id();
        let new_id = self.monitors[n].id();
        assert(ms[cur as int] == self.monitors@[cur as int]@);
        assert(ms[n as int] == self.monitors@[n as int]@);
        let unmap: Vec<u32>;
        let map: Vec<u32>;
        if cur_id == new_id {
            unmap = self.windows_of_workspace(self.focused_workspace);
            let t = match self.workspace_position(workspace_id) {
                Some(t) => t,
                None => return Err(Error::NoWorkspaceWithId(workspace_id)),
            };
            proof {
                lemma_workspace_index(ws, workspace_id);
            }
            map = match self.workspaces[t].iter_containers() {
                Ok(cs) => windows_in(cs),
                Err(_) => Vec::new(),
            };
            proof {
                lemma_first_monitor(ms, |m: MonitorModel| m.id == cur_id);
                assert((|m: MonitorModel| m.id == cur_id)(ms[cur as int]));
            }
            let c = self.monitor_index_with_id(cur_id).unwrap();
            match self.set_monitor_open(c, workspace_id) {
                Ok(()) => {},
                Err(e) => return Err(e),
            }
            self.set_monitor_focus(c, true);
            self.focused_workspace = Some(workspace_id);
            proof {
                assert(monitors_view(self.monitors@) =~= ms.update(c as int, MonitorModel { open_workspace: Some(workspace_id), focused: true, ..ms[c as int] }));
            }
        } else {
            proof {
                lemma_first_monitor(ms, |m: MonitorModel| m.id == new_id);
                assert((|m: MonitorModel| m.id == new_id)(ms[n as int]));
            }
            let c2 = self.monitor_index_with_id(new_id).unwrap();
            assert(ms[c2 as int] == self.monitors@[c2 as int]@);
            let open_id = match self.monitors[c2].get_open_workspace() {
                Ok(o) => o,
                Err(e) => return Err(e),
            };
            if open_id == workspace_id {
                self.set_monitor_focus(c2, true);
                let ghost ms1 = monitors_view(self.monitors@);
                proof {
                    lemma_first_monitor(ms1, |m: MonitorModel| m.id == cur_id);
                    assert(ms1[cur as int].id == cur_id);
                    assert((|m: MonitorModel| m.id == cur_id)(ms1[cur as int]));
                }
                let c1 = self.monitor_index_with_id(cur_id).unwrap();
                self.set_monitor_focus(c1, false);
                self.focused_workspace = Some(workspace_id);
                unmap = Vec::new();
                map = Vec::new();
            } else {
                let t = match self.workspace_position(workspace_id) {
                    Some(t) => t,
                    None => return Err(Error::NoWorkspaceWithId(workspace_id)),
                };
                proof {
                    lemma_workspace_index(ws, workspace_id);
                }
                unmap = self.windows_of_workspace(Some(open_id));
                map = match self.workspaces[t].iter_containers() {
                    Ok(cs) => windows_in(cs),
                    Err(_) => Vec::new(),
                };
                self.set_monitor_focus(c2, true);
                match self.set_monitor_open(c2, workspace_id) {
                    Ok(()) => {},
                    Err(e) => return Err(e),
                }
                let ghost ms2 = monitors_view(self.monitors@);
                proof {
                    lemma_first_monitor(ms2, |m: MonitorModel| m.id == cur_id);
                    assert(ms2[cur as int].id == cur_id);
                    assert((|m: MonitorModel| m.id == cur_id)(ms2[cur as int]));
                }
                let c1 = self.monitor_index_with_id(cur_id).unwrap();
                self.set_monitor_focus(c1, false);
                self.focused_workspace = Some(workspace_id);
            }
        }
        let k = match self.workspace_position(workspace_id) {
            Some(k) => k,
            None => return Err(Error::FocusedWorkspaceMissing),
        };
        proof {
            lemma_workspace_index(ws, workspace_id);
        }
        let warp = if warp_pointer {
            let size = self.workspaces[k].screen();
            Some((size.x.wrapping_add((size.width / 2) as i16), size.y.wrapping_add((size.height / 2) as i16)))
        } else {
            None
        };
        Ok(FocusPlan { unmap, map, warp })
    }
}

/// The position of the focused workspace.
pub open spec fn focused_index(ws: Seq<Workspace>, focused: Option<WorkspaceId>) -> Option<int> {
    match focused {
        Some(f) => workspace_index(ws, f),
        None => None,
    }
}

/// The first position of `cs` holding the window `wid`.
pub open spec fn first_window(cs: Seq<Container>, wid: u32) -> int {
    choose|i: int| first_with_window(cs, wid, i)
}

/// The position next to `i` in the direction `d`, going round.
pub open spec fn step_index(len: int, i: int, d: Direction) -> int {
    match d {
        Direction::Next => next_index(len, i),
        Direction::Previous => previous_index(len, i),
    }
}

/// The window that moving the focus in the direction `d` gives the focus to: the window
/// of the container next to the focused client's container. `Ok(None)` when no client has
/// the focus or the neighbouring container is empty.
pub open spec fn focus_target(w: Workspace, d: Direction) -> Result<Option<u32>, ErrorModel> {
    let cs = w.containers_view();
    if w.spec_focus().len() == 0 {
        Ok(None)
    } else if !has_window(cs, w.spec_focus()[0]) {
        Err(ErrorModel::NoContainerForWindow(w.spec_focus()[0]))
    } else {
        let i = first_window(cs, w.spec_focus()[0]);
        Ok(cs[step_index(cs.len() as int, i, d)].container_type.spec_window_id())
    }
}

/// `b` is `a` with the window `t` focused.
pub open spec fn refocused(a: Workspace, b: Workspace, t: u32) -> bool {
    &&& b.spec_focus() == seq![t] + crate::wm::focus_stack::seq_without(a.spec_focus(), t)
    &&& b.spec_containers() == a.spec_containers()
    &&& b.spec_layout() == a.spec_layout()
    &&& b.spec_allowed_layouts() == a.spec_allowed_layouts()
    &&& b.spec_screen() == a.spec_screen()
    &&& b.spec_name() == a.spec_name()
    &&& b.spec_id() == a.spec_id()
}

/// In a list with no two equal ids, the position of a container's id is its position.
pub proof fn lemma_index_of_own_id(s: Seq<Container>, i: int)
    requires
        ids_unique(s),
        0 <= i < s.len(),
    ensures
        has_id(s, s[i].container_id),
        index_of_id(s, s[i].container_id) == i,
{
    assert(has_id(s, s[i].container_id));
}

impl State {
    /// A state with no workspaces or monitors, nothing focused, no client ids handed out,
    /// nothing dragged or resized, and the Super key's mask (64) as the floating modifier.
    pub fn new() -> (r: Self)
        ensures
            r.spec_workspaces().len() == 0,
            r.spec_monitors().len() == 0,
            r.spec_focused() is None,
            r.spec_last_client_id() == 0,
            !r.spec_dragging(),
            !r.spec_resizing(),
            r.spec_floating_modifier() == 64,
    {
        let r = State {
            workspaces: Vec::new(),
            focused_workspace: None,
            last_client_id: 0,
            is_dragging: false,
            is_resizing: false,
            monitors: Vec::new(),
            floating_modifier: 64,
        };
        proof {
            assert(monitors_view(r.monitors@) =~= Seq::<MonitorModel>::empty());
        }
        r
    }

    /// The workspaces.
    pub fn workspaces(&self) -> (r: &Vec<Workspace>)
        ensures
            r@ == self.spec_workspaces(),
    {
        &self.workspaces
    }

    /// The monitors.
    pub fn monitors(&self) -> (r: &Vec<Monitor>)
        ensures
            monitors_view(r@) == self.spec_monitors(),
    {
        &self.monitors
    }

    /// The workspace that has the focus.
    pub fn focused_workspace(&self) -> (r: Option<WorkspaceId>)
        ensures
            r == self.spec_focused(),
    {
        self.focused_workspace
    }

    /// The modifier mask that moves and resizes floating windows with the mouse.
    pub fn floating_modifier(&self) -> (r: u16)
        ensures
            r == self.spec_floating_modifier(),
    {
        self.floating_modifier
    }

    /// Sets the modifier mask that moves and resizes floating windows with the mouse.
    pub fn set_floating_modifier(&mut self, mask: u16)
        ensures
            final(self).spec_floating_modifier() == mask,
            final(self).spec_workspaces() == old(self).spec_workspaces(),
            final(self).spec_monitors() == old(self).spec_monitors(),
            final(self).spec_focused() == old(self).spec_focused(),
    {
        proof {
            use_type_invariant(&*self);
        }
        self.floating_modifier = mask;
    }

    /// Is a floating window being dragged?
    pub fn is_dragging(&self) -> (r: bool)
        ensures
            r == self.spec_dragging(),
    {
        self.is_dragging
    }

    /// Is a floating window being resized?
    pub fn is_resizing(&self) -> (r: bool)
        ensures
            r == self.spec_resizing(),
    {
        self.is_resizing
    }

    /// Hands out a new client id: one more than the last one.
    pub fn new_client_id(&mut self) -> (r: u64)
        requires
            old(self).spec_last_client_id() < u64::MAX,
        ensures
            r == old(self).spec_last_client_id() + 1,
            final(self).spec_last_client_id() == r,
            final(self).spec_workspaces() == old(self).spec_workspaces(),
            final(self).spec_monitors() == old(self).spec_monitors(),
            final(self).spec_focused() == old(self).spec_focused(),
            final(self).spec_floating_modifier() == old(self).spec_floating_modifier(),
            final(self).spec_dragging() == old(self).spec_dragging(),
            final(self).spec_resizing() == old(self).spec_resizing(),
    {
        proof {
            use_type_invariant(&*self);
        }
        self.last_client_id = self.last_client_id + 1;
        self.last_client_id
    }

    /// The index of the first workspace that holds the window `wid`.
    pub fn workspace_for_window(&self, wid: u32) -> (r: Option<usize>)
        ensures
            match r {
                Some(i) => i < self.spec_workspaces().len() && has_window(self.spec_workspaces()[i as int].containers_view(), wid)
                    && forall|j: int| 0 <= j < i ==> !has_window(#[trigger] self.spec_workspaces()[j].containers_view(), wid),
                None => forall|j: int| 0 <= j < self.spec_workspaces().len() ==> !has_window(#[trigger] self.spec_workspaces()[j].containers_view(), wid),
            },
    {
        let mut i: usize = 0;
        while i < self.workspaces.len()
            invariant
                i <= self.workspaces@.len(),
                forall|j: int| 0 <= j < i ==> !has_window(#[trigger] self.workspaces@[j].containers_view(), wid),
            decreases self.workspaces@.len() - i,
        {
            if self.workspaces[i].contains_window(wid) {
                return Some(i);
            }
            i = i + 1;
        }
        None
    }

    /// The index of the workspace that has the focus.
    pub fn focused_position(&self) -> (r: Option<usize>)
        ensures
            match self.spec_focused() {
                Some(f) => match workspace_index(self.spec_workspaces(), f) {
                    Some(k) => r matches Some(x) && x == k,
                    None => r is None,
                },
                None => r is None,
            },
            r matches Some(x) ==> x < self.spec_workspaces().len() && self.spec_workspaces()[x as int].spec_id() == self.spec_focused()->Some_0,
    {
        proof {
            if let Some(f) = self.focused_workspace {
                lemma_workspace_index(self.workspaces@, f);
            }
        }
        match self.focused_workspace {
            Some(f) => self.workspace_position(f),
            None => None,
        }
    }

    /// Takes workspace `k` out of the list.
    fn take_workspace(&mut self, k: usize) -> (r: Workspace)
        requires
            k < old(self).spec_workspaces().len(),
        ensures
            r == old(self).spec_workspaces()[k as int],
            r.wf(),
            final(self).spec_workspaces() == old(self).spec_workspaces().remove(k as int),
            final(self).spec_monitors() == old(self).spec_monitors(),
            final(self).spec_focused() == old(self).spec_focused(),
            final(self).spec_last_client_id() == old(self).spec_last_client_id(),
            final(self).spec_dragging() == old(self).spec_dragging(),
            final(self).spec_resizing() == old(self).spec_resizing(),
            final(self).spec_floating_modifier() == old(self).spec_floating_modifier(),
    {
        proof {
            use_type_invariant(&*self);
        }
        let mut ws: Vec<Workspace> = Vec::new();
        std::mem::swap(&mut ws, &mut self.workspaces);
        let w = ws.remove(k);
        proof {
            assert forall|i: int| 0 <= i < ws@.len() implies (#[trigger] ws@[i]).wf() by {
                if i < k {
                    assert(ws@[i] == old(self).workspaces@[i]);
                } else {
                    assert(ws@[i] == old(self).workspaces@[i + 1]);
                }
            }
        }
        self.workspaces = ws;
        w
    }

    /// Puts a workspace into the list at position `k`.
    fn put_workspace(&mut self, k: usize, w: Workspace)
        requires
            k <= old(self).spec_workspaces().len(),
            w.wf(),
        ensures
            final(self).spec_workspaces() == old(self).spec_workspaces().insert(k as int, w),
            final(self).spec_monitors() == old(self).spec_monitors(),
            final(self).spec_focused() == old(self).spec_focused(),
            final(self).spec_last_client_id() == old(self).spec_last_client_id(),
            final(self).spec_dragging() == old(self).spec_dragging(),
            final(self).spec_resizing() == old(self).spec_resizing(),
            final(self).spec_floating_modifier() == old(self).spec_floating_modifier(),
    {
        proof {
            use_type_invariant(&*self);
        }
        let mut ws: Vec<Workspace> = Vec::new();
        std::mem::swap(&mut ws, &mut self.workspaces);
        ws.insert(k, w);
        proof {
            assert forall|i: int| 0 <= i < ws@.len() implies (#[trigger] ws@[i]).wf() by {
                if i < k {
                    assert(ws@[i] == old(self).workspaces@[i]);
                } else if i > k {
                    assert(ws@[i] == old(self).workspaces@[i - 1]);
                }
            }
        }
        self.workspaces = ws;
    }

    /// Moves the focus to the neighbouring client in the direction `direction` (going
    /// round) and returns the window that gets the input focus.
    pub fn action_focus(&mut self, direction: Direction) -> (r: Result<Option<u32>, Error>)
        ensures
            focus_direction_outcome(*old(self), *final(self), direction, r),

    {
        proof {
            use_type_invariant(&*self);
        }
        let ghost ws0 = self.workspaces@;
        let k = match self.focused_position() {
            Some(k) => k,
            None => return Err(Error::FocusedWorkspaceMissing),
        };
        proof {
            lemma_workspace_index(ws0, self.focused_workspace->Some_0);
        }
        let ghost w = ws0[k as int];
        let ghost cs = w.containers_view();
        assert(w.wf());
        let window = match self.workspaces[k].focus().focused_client() {
            Some(x) => x,
            None => return Ok(None),
        };
        let container = match self.workspaces[k].find_by_window_id(window) {
            Ok(c) => c,
            Err(e) => return Err(e),
        };
        proof {
            lemma_first_window_unique(cs, window);
        }
        let cid = *container.id();
        proof {
            let i = first_window(cs, window);
            assert(*container == cs[i]);
            lemma_index_of_own_id(cs, i);
        }
        let next = match direction {
            Direction::Next => self.workspaces[k].next_container(cid),
            Direction::Previous => self.workspaces[k].previous_container(cid),
        };
        let target = match next {
            Ok(c) => c.data().window_id(),
            Err(e) => return Err(e),
        };
        match target {
            Some(t) => {
                let mut wk = self.take_workspace(k);
                wk.set_focused_client(t);
                self.put_workspace(k, wk);
                proof {
                    assert(self.spec_workspaces() =~= ws0.update(k as int, wk));
                }
                Ok(Some(t))
            },
            None => Ok(None),
        }
    }
}

/// Only the workspace at position `k` may differ between `before` and `after`.
pub open spec fn only_changed_at(before: Seq<Workspace>, after: Seq<Workspace>, k: int) -> bool {
    &&& after.len() == before.len()
    &&& forall|j: int| 0 <= j < before.len() && j != k ==> #[trigger] after[j] == before[j]
}

/// `b` is `a` with its containers replaced by `cs` (no new ids handed out).
pub open spec fn with_containers(a: Workspace, b: Workspace, cs: Seq<Container>) -> bool {
    &&& b.containers_view() == cs
    &&& b.spec_containers().spec_last_id() == a.spec_containers().spec_last_id()
    &&& b.spec_containers().spec_workspace_id() == a.spec_containers().spec_workspace_id()
    &&& b.spec_layout() == a.spec_layout()
    &&& b.spec_allowed_layouts() == a.spec_allowed_layouts()
    &&& b.spec_screen() == a.spec_screen()
    &&& b.spec_name() == a.spec_name()
    &&& b.spec_id() == a.spec_id()
    &&& b.spec_focus() == a.spec_focus()
}

/// `after` is what laying out `w` with its containers replaced by `cs` gives, with the
/// effects `e`.
pub open spec fn relaid_with_containers(w: Workspace, cs: Seq<Container>, after: Workspace, e: Seq<LayoutEffect>) -> bool {
    exists|mid: Workspace| #[trigger] with_containers(w, mid, cs) && layout_applied(mid, after, None, e)
}

/// `after` is what laying out `w` with the layout `l` gives, with the effects `e`.
pub open spec fn relaid_with_layout(w: Workspace, l: LayoutType, after: Workspace, e: Seq<LayoutEffect>) -> bool {
    exists|mid: Workspace| #[trigger] with_layout(w, mid, l) && layout_applied(mid, after, None, e)
}

/// `a` and `b` agree in everything a workspace holds (its name by its characters).
pub open spec fn same_workspace(a: Workspace, b: Workspace) -> bool {
    &&& b.spec_containers() == a.spec_containers()
    &&& b.spec_layout() == a.spec_layout()
    &&& b.spec_allowed_layouts() == a.spec_allowed_layouts()
    &&& b.spec_screen() == a.spec_screen()
    &&& b.spec_name() == a.spec_name()
    &&& b.spec_id() == a.spec_id()
    &&& b.spec_focus() == a.spec_focus()
}

/// `b` is `a` with the layout `l`.
pub open spec fn with_layout(a: Workspace, b: Workspace, l: LayoutType) -> bool {
    &&& b.spec_containers() == a.spec_containers()
    &&& b.spec_layout() == l
    &&& b.spec_allowed_layouts() == a.spec_allowed_layouts()
    &&& b.spec_screen() == a.spec_screen()
    &&& b.spec_name() == a.spec_name()
    &&& b.spec_id() == a.spec_id()
    &&& b.spec_focus() == a.spec_focus()
}

/// Does the container take part in the layout (1) or not (0)?
pub open spec fn laid(c: Container) -> nat {
    if c.container_type is InLayout {
        1
    } else {
        0
    }
}

/// Every workspace lays out at most 65535 containers, so every layout can divide its area
/// among them (the layouts divide by the count taken as a 16-bit number).
pub open spec fn layout_room(ws: Seq<Workspace>) -> bool {
    forall|i: int| 0 <= i < ws.len() ==> in_layout_count((#[trigger] ws[i]).containers_view()) <= 65535
}

/// The workspaces with the id `id` can lay out one container more.
pub open spec fn grow_room(ws: Seq<Workspace>, id: WorkspaceId) -> bool {
    forall|i: int| 0 <= i < ws.len() && (#[trigger] ws[i]).spec_id() == id ==> in_layout_count(ws[i].containers_view()) < 65535
}

/// The container of the focused client of the focused workspace, if the workspace holds
/// its window.
pub open spec fn focused_container(ws: Seq<Workspace>, focused: Option<WorkspaceId>) -> Option<Container> {
    match focused_index(ws, focused) {
        None => None,
        Some(k) => {
            let cs = ws[k].containers_view();
            if ws[k].spec_focus().len() > 0 && has_window(cs, ws[k].spec_focus()[0]) {
                Some(cs[first_window(cs, ws[k].spec_focus()[0])])
            } else {
                None
            }
        },
    }
}

/// Putting the focused client into the layout (when it is not there) leaves at most 65535
/// containers in the layout.
pub open spec fn toggle_room(ws: Seq<Workspace>, focused: Option<WorkspaceId>) -> bool {
    match focused_container(ws, focused) {
        Some(c) => !(c.container_type is InLayout) ==> in_layout_count(ws[focused_index(ws, focused)->Some_0].containers_view()) < 65535,
        None => true,
    }
}

/// Moving the focused client (when it is in the layout) to another workspace with the id
/// `id` leaves at most 65535 containers in that workspace's layout.
pub open spec fn move_room(ws: Seq<Workspace>, focused: Option<WorkspaceId>, id: WorkspaceId) -> bool {
    match focused_container(ws, focused) {
        Some(c) => c.container_type is InLayout ==> forall|i: int|
            0 <= i < ws.len() && (#[trigger] ws[i]).spec_id() == id && Some(i) != focused_index(ws, focused)
                ==> in_layout_count(ws[i].containers_view()) < 65535,
        None => true,
    }
}

/// Taking the focused client out of its workspace leaves a layout of at most 65535
/// containers there, and the workspace `t` (with the id `id`) has room for the client.
proof fn lemma_room_after_remove(ws0: Seq<Workspace>, focused: Option<WorkspaceId>, id: WorkspaceId, s: int, t: int)
    requires
        layout_room(ws0),
        move_room(ws0, focused, id),
        focused_index(ws0, focused) == Some(s),
        0 <= s < ws0.len(),
        0 <= t < ws0.len(),
        ws0[t].spec_id() == id,
        ws0[s].spec_focus().len() > 0,
        has_window(ws0[s].containers_view(), ws0[s].spec_focus()[0]),
    ensures
        ({
            let cs = ws0[s].containers_view();
            let i = first_window(cs, ws0[s].spec_focus()[0]);
            &&& in_layout_count(cs.remove(i)) <= 65535
            &&& in_layout_count(if t == s { cs.remove(i) } else { ws0[t].containers_view() }) + laid(cs[i]) <= 65535
        }),
{
    let cs = ws0[s].containers_view();
    let win = ws0[s].spec_focus()[0];
    lemma_first_window_unique(cs, win);
    let i = first_window(cs, win);
    assert(0 <= i < cs.len());
    lemma_count_remove(cs, i);
    assert(in_layout_count(ws0[s].containers_view()) <= 65535);
    assert(in_layout_count(ws0[t].containers_view()) <= 65535);
    assert(focused_container(ws0, focused) == Some(cs[i]));
}

/// Laying a workspace out keeps which containers are in the layout.
pub proof fn lemma_count_after_layout(before: Workspace, after: Workspace, screen_size: Option<Geometry>, effects: Seq<LayoutEffect>)
    requires
        layout_applied(before, after, screen_size, effects),
    ensures
        in_layout_count(after.containers_view()) == in_layout_count(before.containers_view()),
{
    let a = before.containers_view();
    let b = after.containers_view();
    assert forall|i: int| 0 <= i < a.len() implies laid(#[trigger] b[i]) == laid(a[i]) by {
        assert(b[i] == before.spec_layout().laid_out(
            match screen_size { Some(g) => g, None => before.spec_screen() },
            in_layout_count(a),
            if before.spec_focus().len() > 0 { Some(before.spec_focus()[0]) } else { None::<u32> },
            a,
            i,
        ));
    }
    lemma_count_same_kinds(a, b);
}

/// Two lists with the same containers in the layout, place by place, count alike.
pub proof fn lemma_count_same_kinds(a: Seq<Container>, b: Seq<Container>)
    requires
        a.len() == b.len(),
        forall|i: int| 0 <= i < a.len() ==> laid(#[trigger] b[i]) == laid(a[i]),
    ensures
        in_layout_count(a) == in_layout_count(b),
    decreases a.len(),
{
    if a.len() > 0 {
        assert(laid(b[a.len() - 1]) == laid(a[a.len() - 1]));
        lemma_count_same_kinds(a.drop_last(), b.drop_last());
    }
}

/// Changing one container changes the count of laid out containers by what it changes.
pub proof fn lemma_count_update(s: Seq<Container>, i: int, c: Container)
    requires
        0 <= i < s.len(),
    ensures
        in_layout_count(s.update(i, c)) + laid(s[i]) == in_layout_count(s) + laid(c),
    decreases s.len(),
{
    if i == s.len() - 1 {
        assert(s.update(i, c).drop_last() =~= s.drop_last());
    } else {
        lemma_count_update(s.drop_last(), i, c);
        assert(s.update(i, c).drop_last() =~= s.drop_last().update(i, c));
    }
}

/// Removing one container takes its part out of the count of laid out containers.
pub proof fn lemma_count_remove(s: Seq<Container>, i: int)
    requires
        0 <= i < s.len(),
    ensures
        in_layout_count(s.remove(i)) + laid(s[i]) == in_layout_count(s),
    decreases s.len(),
{
    if i == s.len() - 1 {
        assert(s.remove(i) =~= s.drop_last());
    } else {
        lemma_count_remove(s.drop_last(), i);
        assert(s.remove(i).drop_last() =~= s.drop_last().remove(i));
        assert(s.remove(i).last() == s.last());
    }
}

/// Laid out containers of two lists one after the other.
pub proof fn lemma_count_append(s: Seq<Container>, t: Seq<Container>)
    ensures
        in_layout_count(s + t) == in_layout_count(s) + in_layout_count(t),
    decreases t.len(),
{
    if t.len() > 0 {
        lemma_count_append(s, t.drop_last());
        assert((s + t).drop_last() =~= s + t.drop_last());
    } else {
        assert(s + t =~= s);
    }
}

/// A list of containers that are all in the layout counts them all.
pub proof fn lemma_count_all_laid(t: Seq<Container>)
    requires
        forall|k: int| 0 <= k < t.len() ==> (#[trigger] t[k]).container_type is InLayout,
    ensures
        in_layout_count(t) == t.len(),
    decreases t.len(),
{
    if t.len() > 0 {
        lemma_count_all_laid(t.drop_last());
    }
}

/// The container in a list is the container toggled between floating and the layout:
/// a container in the layout floats, any other goes into the layout (an empty one cannot).
pub open spec fn toggled(c: Container) -> Option<Container> {
    let t = if c.container_type is InLayout {
        c.container_type.spec_into_floating()
    } else {
        c.container_type.spec_into_layout()
    };
    match t {
        Some(x) => Some(Container { container_type: x, ..c }),
        None => None,
    }
}

/// A layout can place the clients of a list with at most 65535 containers in the layout.
pub proof fn lemma_can_apply(l: LayoutType, s: Seq<Container>)
    requires
        in_layout_count(s) <= 65535,
    ensures
        l.can_apply(in_layout_count(s)),
{
}

impl State {
    /// Does every workspace lay out at most 65535 containers?
    pub fn has_layout_room(&self) -> (r: bool)
        ensures
            r == layout_room(self.spec_workspaces()),
    {
        let mut i: usize = 0;
        while i < self.workspaces.len()
            invariant
                i <= self.workspaces@.len(),
                forall|j: int| 0 <= j < i ==> in_layout_count((#[trigger] self.workspaces@[j]).containers_view()) <= 65535,
            decreases self.workspaces@.len() - i,
        {
            if self.workspaces[i].in_layout_len() > 65535 {
                return false;
            }
            i = i + 1;
        }
        true
    }

    /// Can the workspaces with the id `id` lay out one container more?
    pub fn has_grow_room(&self, id: WorkspaceId) -> (r: bool)
        ensures
            r == grow_room(self.spec_workspaces(), id),
    {
        let mut i: usize = 0;
        while i < self.workspaces.len()
            invariant
                i <= self.workspaces@.len(),
                forall|j: int| 0 <= j < i && (#[trigger] self.workspaces@[j]).spec_id() == id
                    ==> in_layout_count(self.workspaces@[j].containers_view()) < 65535,
            decreases self.workspaces@.len() - i,
        {
            if self.workspaces[i].id() == id && self.workspaces[i].in_layout_len() >= 65535 {
                return false;
            }
            i = i + 1;
        }
        true
    }

    /// Is the focused client's container in the layout (`None` when there is no focused
    /// client in the focused workspace)?
    fn focused_container_laid(&self) -> (r: Option<bool>)
        ensures
            r == (match focused_container(self.spec_workspaces(), self.spec_focused()) {
                Some(c) => Some(c.container_type is InLayout),
                None => None::<bool>,
            }),
    {
        proof {
            use_type_invariant(&*self);
        }
        let ghost ws0 = self.workspaces@;
        let k = match self.focused_position() {
            Some(k) => k,
            None => return None,
        };
        proof {
            lemma_workspace_index(ws0, self.focused_workspace->Some_0);
        }
        assert(ws0[k as int].wf());
        let window = match self.workspaces[k].focus().focused_client() {
            Some(x) => x,
            None => return None,
        };
        match self.workspaces[k].find_by_window_id(window) {
            Ok(c) => {
                proof {
                    let cs = ws0[k as int].containers_view();
                    lemma_first_window_unique(cs, window);
                    assert(has_window(cs, window));
                }
                Some(c.is_in_layout())
            },
            Err(_) => None,
        }
    }

    /// Is there room to toggle the focused client, as `toggle_room` says?
    pub fn has_toggle_room(&self) -> (r: bool)
        ensures
            r == toggle_room(self.spec_workspaces(), self.spec_focused()),
    {
        proof {
            use_type_invariant(&*self);
        }
        match self.focused_container_laid() {
            Some(false) => {
                let k = self.focused_position().unwrap();
                self.workspaces[k].in_layout_len() < 65535
            },
            _ => true,
        }
    }

    /// Is there room to move the focused client to the workspace `id`, as `move_room` says?
    pub fn has_move_room(&self, id: WorkspaceId) -> (r: bool)
        ensures
            r == move_room(self.spec_workspaces(), self.spec_focused(), id),
    {
        let laid = self.focused_container_laid();
        if laid != Some(true) {
            return true;
        }
        let ghost c = focused_container(self.spec_workspaces(), self.spec_focused())->Some_0;
        assert(c.container_type is InLayout);
        let k = self.focused_position();
        let mut i: usize = 0;
        while i < self.workspaces.len()
            invariant
                i <= self.workspaces@.len(),
                focused_container(self.spec_workspaces(), self.spec_focused()) == Some(c),
                c.container_type is InLayout,
                match k {
                    Some(x) => focused_index(self.spec_workspaces(), self.spec_focused()) == Some(x as int),
                    None => focused_index(self.spec_workspaces(), self.spec_focused()) is None,
                },
                forall|j: int| 0 <= j < i && (#[trigger] self.workspaces@[j]).spec_id() == id
                    && Some(j) != focused_index(self.spec_workspaces(), self.spec_focused())
                    ==> in_layout_count(self.workspaces@[j].containers_view()) < 65535,
            decreases self.workspaces@.len() - i,
        {
            let focused_here = match k {
                Some(x) => x == i,
                None => false,
            };
            if self.workspaces[i].id() == id && !focused_here && self.workspaces[i].in_layout_len() >= 65535 {
                assert(self.spec_workspaces()[i as int].spec_id() == id);
                assert(Some(i as int) != focused_index(self.spec_workspaces(), self.spec_focused()));
                assert(!(in_layout_count(self.spec_workspaces()[i as int].containers_view()) < 65535));
                return false;
            }
            i = i + 1;
        }
        true
    }

    /// Is there what the action needs to be carried out, as `action_room` says?
    pub fn has_action_room(&self, action: &Action) -> (r: bool)
        ensures
            r == action_room(self.spec_workspaces(), self.spec_focused(), *action),
    {
        match action {
            Action::Swap(_) | Action::ChangeLayout(_) | Action::CycleLayout => self.has_layout_room(),
            Action::ToggleFloat => self.has_layout_room() && self.has_toggle_room(),
            Action::Move(n) => self.has_layout_room() && self.has_insert_room() && self.has_move_room(*n as u32),
            _ => true,
        }
    }

    /// Does every workspace have an id left for another container?
    pub fn has_insert_room(&self) -> (r: bool)
        ensures
            r == insert_room(self.spec_workspaces()),
    {
        let mut i: usize = 0;
        while i < self.workspaces.len()
            invariant
                i <= self.workspaces@.len(),
                forall|j: int| 0 <= j < i ==> (#[trigger] self.workspaces@[j]).can_insert(),
            decreases self.workspaces@.len() - i,
        {
            if !self.workspaces[i].has_room_for_container() {
                return false;
            }
            i = i + 1;
        }
        true
    }

    /// The last client id handed out.
    pub fn last_client_id(&self) -> (r: u64)
        ensures
            r == self.spec_last_client_id(),
    {
        self.last_client_id
    }

    /// Swaps the focused client with its neighbour in the direction `direction` (going
    /// round) and lays the workspace out again; returns what the X server has to do.
    pub fn action_swap(&mut self, direction: Direction) -> (r: Result<Vec<LayoutEffect>, Error>)
        requires
            layout_room(old(self).spec_workspaces()),
        ensures
            swap_outcome(*old(self), *final(self), direction, r),

    {
        proof {
            use_type_invariant(&*self);
        }
        let ghost ws0 = self.workspaces@;
        let k = match self.focused_position() {
            Some(k) => k,
            None => return Err(Error::FocusedWorkspaceMissing),
        };
        proof {
            lemma_workspace_index(ws0, self.focused_workspace->Some_0);
        }
        let ghost w = ws0[k as int];
        let ghost cs = w.containers_view();
        assert(w.wf());
        let window = match self.workspaces[k].focus().focused_client() {
            Some(x) => x,
            None => return Ok(Vec::new()),
        };
        let container = match self.workspaces[k].find_by_window_id(window) {
            Ok(c) => c,
            Err(e) => return Err(e),
        };
        proof {
            lemma_first_window_unique(cs, window);
        }
        let cid = *container.id();
        proof {
            let i = first_window(cs, window);
            assert(*container == cs[i]);
            lemma_index_of_own_id(cs, i);
        }
        let next = match direction {
            Direction::Next => self.workspaces[k].next_container(cid),
            Direction::Previous => self.workspaces[k].previous_container(cid),
        };
        let other = match next {
            Ok(c) => *c.id(),
            Err(e) => return Err(e),
        };
        proof {
            let i = first_window(cs, window);
            let j = step_index(cs.len() as int, i, direction);
            assert(other == cs[j].container_id);
            lemma_index_of_own_id(cs, j);
        }
        let mut wk = self.take_workspace(k);
        let _ = wk.swap(cid, other);
        let ghost mid = wk;
        proof {
            let ia = index_of_id(cs, cid);
            let ib = index_of_id(cs, other);
            let s1 = cs.update(ia, cs[ib]);
            lemma_count_update(cs, ia, cs[ib]);
            lemma_count_update(s1, ib, cs[ia]);
            assert(s1[ib] == cs[ib]);
            assert(in_layout_count(cs) <= 65535);
            lemma_can_apply(wk.spec_layout(), wk.containers_view());
        }
        let effects = wk.apply_layout(None);
        self.put_workspace(k, wk);
        proof {
            assert(self.spec_workspaces() =~= ws0.update(k as int, wk));
            assert(with_containers(w, mid, swapped(cs, cid, other)) && layout_applied(mid, self.spec_workspaces()[k as int], None, effects@));
            assert(relaid_with_containers(w, swapped(cs, cid, other), self.spec_workspaces()[k as int], effects@));
        }
        Ok(effects)
    }

    /// Switches the focused workspace to the layout named `layout` (if allowed) and lays
    /// it out again; returns what the X server has to do.
    pub fn action_change_layout(&mut self, layout: String) -> (r: Result<Vec<LayoutEffect>, Error>)
        requires
            layout_room(old(self).spec_workspaces()),
        ensures
            change_layout_outcome(*old(self), *final(self), layout, r),

    {
        proof {
            use_type_invariant(&*self);
        }
        let ghost ws0 = self.workspaces@;
        let k = match self.focused_position() {
            Some(k) => k,
            None => return Err(Error::FocusedWorkspaceMissing),
        };
        proof {
            lemma_workspace_index(ws0, self.focused_workspace->Some_0);
        }
        let ghost w = ws0[k as int];
        let mut wk = self.take_workspace(k);
        match wk.change_layout(layout) {
            Ok(()) => {},
            Err(e) => {
                self.put_workspace(k, wk);
                proof {
                    assert(self.spec_workspaces() =~= ws0.update(k as int, wk));
                }
                return Err(e);
            },
        }
        let ghost mid = wk;
        proof {
            lemma_can_apply(wk.spec_layout(), wk.containers_view());
        }
        let effects = wk.apply_layout(None);
        self.put_workspace(k, wk);
        proof {
            assert(self.spec_workspaces() =~= ws0.update(k as int, wk));
            assert(with_layout(ws0[k as int], mid, mid.spec_layout()) && layout_applied(mid, self.spec_workspaces()[k as int], None, effects@));
            assert(relaid_with_layout(ws0[k as int], mid.spec_layout(), self.spec_workspaces()[k as int], effects@));
        }
        Ok(effects)
    }

    /// Switches the focused workspace to its next allowed layout and lays it out again;
    /// returns what the X server has to do.
    pub fn action_cycle_layout(&mut self) -> (r: Result<Vec<LayoutEffect>, Error>)
        requires
            layout_room(old(self).spec_workspaces()),
        ensures
            cycle_layout_outcome(*old(self), *final(self), r),

    {
        proof {
            use_type_invariant(&*self);
        }
        let ghost ws0 = self.workspaces@;
        let k = match self.focused_position() {
            Some(k) => k,
            None => return Err(Error::FocusedWorkspaceMissing),
        };
        proof {
            lemma_workspace_index(ws0, self.focused_workspace->Some_0);
        }
        let mut wk = self.take_workspace(k);
        match wk.cycle_layout() {
            Ok(()) => {},
            Err(e) => {
                self.put_workspace(k, wk);
                proof {
                    assert(self.spec_workspaces() =~= ws0.update(k as int, wk));
                }
                return Err(e);
            },
        }
        let ghost mid = wk;
        proof {
            lemma_can_apply(wk.spec_layout(), wk.containers_view());
        }
        let effects = wk.apply_layout(None);
        self.put_workspace(k, wk);
        proof {
            assert(self.spec_workspaces() =~= ws0.update(k as int, wk));
            assert(with_layout(ws0[k as int], mid, mid.spec_layout()) && layout_applied(mid, self.spec_workspaces()[k as int], None, effects@));
            assert(relaid_with_layout(ws0[k as int], mid.spec_layout(), self.spec_workspaces()[k as int], effects@));
        }
        Ok(effects)
    }

    /// Makes the focused client float, or puts it back into the layout, and lays the
    /// workspace out again; returns the client's window (which is raised and gets the input
    /// focus) and what the X server has to do.
    pub fn action_toggle_float(&mut self) -> (r: Result<(u32, Vec<LayoutEffect>), Error>)
        requires
            layout_room(old(self).spec_workspaces()),
            toggle_room(old(self).spec_workspaces(), old(self).spec_focused()),
        ensures
            toggle_float_outcome(*old(self), *final(self), r),

    {
        proof {
            use_type_invariant(&*self);
        }
        let ghost ws0 = self.workspaces@;
        let k = match self.focused_position() {
            Some(k) => k,
            None => return Err(Error::FocusedWorkspaceMissing),
        };
        proof {
            lemma_workspace_index(ws0, self.focused_workspace->Some_0);
        }
        let ghost w = ws0[k as int];
        let ghost cs = w.containers_view();
        assert(w.wf());
        let window = match self.workspaces[k].focus().focused_client() {
            Some(x) => x,
            None => return Err(Error::NoFocusedClient),
        };
        let found = match self.workspaces[k].find_by_window_id(window) {
            Ok(c) => *c,
            Err(e) => return Err(e),
        };
        proof {
            lemma_first_window_unique(cs, window);
            let i = first_window(cs, window);
            assert(found == cs[i]);
            lemma_index_of_own_id(cs, i);
        }
        let cid = found.container_id;
        let mut c = found;
        let changed = if c.is_in_layout() {
            c.change_to_floating()
        } else {
            c.change_to_layout()
        };
        match changed {
            Ok(()) => {},
            Err(e) => return Err(e),
        }
        let mut wk = self.take_workspace(k);
        let _ = wk.replace(cid, c);
        let ghost mid = wk;
        proof {
            let i = first_window(cs, window);
            assert(wk.containers_view() =~= cs.update(i, toggled(cs[i])->Some_0));
            assert(focused_index(ws0, old(self).spec_focused()) == Some(k as int));
            assert(focused_container(ws0, old(self).spec_focused()) == Some(cs[i]));
            assert(in_layout_count(cs) <= 65535);
            lemma_count_update(cs, i, toggled(cs[i])->Some_0);
            lemma_can_apply(wk.spec_layout(), wk.containers_view());
        }
        let effects = wk.apply_layout(None);
        self.put_workspace(k, wk);
        proof {
            assert(self.spec_workspaces() =~= ws0.update(k as int, wk));
            let i = first_window(cs, window);
            assert(with_containers(w, mid, cs.update(i, toggled(cs[i])->Some_0)) && layout_applied(mid, self.spec_workspaces()[k as int], None, effects@));
            assert(relaid_with_containers(w, cs.update(i, toggled(cs[i])->Some_0), self.spec_workspaces()[k as int], effects@));
        }
        Ok((window, effects))
    }
}

} // verus!

verus! {

/// The smallest width a floating window can be resized to.
pub const MIN_WIDTH: u16 = 160;

/// The smallest height a floating window can be resized to.
pub const MIN_HEIGHT: u16 = 90;

/// Workspace `k` is the first of the list that holds the window `wid`.
pub open spec fn first_workspace_with(ws: Seq<Workspace>, wid: u32, k: int) -> bool {
    &&& 0 <= k < ws.len()
    &&& has_window(ws[k].containers_view(), wid)
    &&& forall|j: int| 0 <= j < k ==> !has_window(#[trigger] ws[j].containers_view(), wid)
}

/// No workspace of the list holds the window `wid`.
pub open spec fn no_workspace_with(ws: Seq<Workspace>, wid: u32) -> bool {
    forall|j: int| 0 <= j < ws.len() ==> !has_window(#[trigger] ws[j].containers_view(), wid)
}

/// `after` keeps the monitors, the focused workspace, the client ids and the floating
/// modifier of `before`.
pub open spec fn keeps_the_rest(before: State, after: State) -> bool {
    &&& after.spec_monitors() == before.spec_monitors()
    &&& after.spec_focused() == before.spec_focused()
    &&& after.spec_last_client_id() == before.spec_last_client_id()
    &&& after.spec_floating_modifier() == before.spec_floating_modifier()
}

/// How far the pointer went since the last position seen: the last position (an `i16`
/// pair held as `i32`) minus the new one, wrapping.
pub open spec fn pointer_diff(last: (i32, i32), root_x: i16, root_y: i16) -> (i16, i16) {
    ((last.0 as i16).wrapping_sub(root_x), (last.1 as i16).wrapping_sub(root_y))
}

/// A drag moves a window one and a half times as far as the pointer: `d * 3 / 2` rounded
/// toward zero, held to the range of `i16`.
pub open spec fn drag_distance(d: i16) -> i16 {
    let t: int = if d >= 0 {
        (3 * d) / 2
    } else {
        -((-3 * d) / 2)
    };
    if t > i16::MAX {
        i16::MAX
    } else if t < i16::MIN {
        i16::MIN
    } else {
        t as i16
    }
}

/// The size a resize asks for: the old size minus the pointer's travel (wrapping), or
/// `None` when it is under the smallest size a window may have.
pub open spec fn resized(g: Geometry, diff: (i16, i16)) -> Option<Geometry> {
    let w = (g.width as i16).wrapping_sub(diff.0);
    let h = (g.height as i16).wrapping_sub(diff.1);
    if (w as u16) < MIN_WIDTH || (h as u16) < MIN_HEIGHT {
        None
    } else {
        Some(Geometry { width: w as u16, height: h as u16, ..g })
    }
}

/// The area a drag moves a window to.
pub open spec fn dragged(g: Geometry, dx: i16, dy: i16) -> Geometry {
    Geometry { x: g.x.wrapping_sub(dx), y: g.y.wrapping_sub(dy), ..g }
}

/// The container `c` with its client's area set to `g`.
pub open spec fn with_area(c: Container, g: Geometry) -> Container {
    Container { container_type: c.container_type.spec_with_geometry(g), ..c }
}

/// `after` is `before` with the container at position `i` of workspace `k` replaced by `c`.
pub open spec fn container_replaced(before: Seq<Workspace>, after: Seq<Workspace>, k: int, i: int, c: Container) -> bool {
    &&& only_changed_at(before, after, k)
    &&& with_containers(before[k], after[k], before[k].containers_view().update(i, c))
}

fn drag_distance_of(d: i16) -> (r: i16)
    ensures
        r == drag_distance(d),
{
    let t: i32 = if d >= 0 {
        let m: u32 = 3 * (d as u32);
        (m / 2) as i32
    } else {
        let m: u32 = 3 * ((0 - (d as i32)) as u32);
        0 - ((m / 2) as i32)
    };
    if t > 32767 {
        32767
    } else if t < -32768 {
        -32768
    } else {
        t as i16
    }
}

impl State {
    /// The first workspace holding the window `wid`, and the first container in it that
    /// holds that window.
    fn locate_window(&self, wid: u32) -> (r: Result<(usize, Container), Error>)
        ensures
            match r {
                Ok((k, c)) => first_workspace_with(self.spec_workspaces(), wid, k as int)
                    && c == self.spec_workspaces()[k as int].containers_view()[first_window(self.spec_workspaces()[k as int].containers_view(), wid)]
                    && first_with_window(self.spec_workspaces()[k as int].containers_view(), wid, first_window(self.spec_workspaces()[k as int].containers_view(), wid)),
                Err(e) => no_workspace_with(self.spec_workspaces(), wid) && e == Error::NoWorkspaceForWindow(wid),
            },
    {
        proof {
            use_type_invariant(self);
        }
        let k = match self.workspace_for_window(wid) {
            Some(k) => k,
            None => return Err(Error::NoWorkspaceForWindow(wid)),
        };
        proof {
            assert(self.workspaces@[k as int].wf());
        }
        let c = match self.workspaces[k].find_by_window_id(wid) {
            Ok(c) => *c,
            Err(e) => return Err(e),
        };
        proof {
            let cs = self.workspaces@[k as int].containers_view();
            lemma_first_window_unique(cs, wid);
        }
        Ok((k, c))
    }

    /// Replaces, in workspace `k`, the container holding the id of `c` by `c`.
    fn update_container(&mut self, k: usize, i: Ghost<int>, c: Container)
        requires
            k < old(self).spec_workspaces().len(),
            0 <= i@ < old(self).spec_workspaces()[k as int].containers_view().len(),
            old(self).spec_workspaces()[k as int].containers_view()[i@].container_id == c.container_id,
        ensures
            container_replaced(old(self).spec_workspaces(), final(self).spec_workspaces(), k as int, i@, c),
            keeps_the_rest(*old(self), *final(self)),
            final(self).spec_dragging() == old(self).spec_dragging(),
            final(self).spec_resizing() == old(self).spec_resizing(),
    {
        proof {
            use_type_invariant(&*self);
        }
        let ghost ws0 = self.workspaces@;
        let ghost cs = ws0[k as int].containers_view();
        proof {
            assert(ws0[k as int].wf());
            lemma_index_of_own_id(cs, i@);
        }
        let mut wk = self.take_workspace(k);
        let _ = wk.replace(c.container_id, c);
        proof {
            assert(wk.containers_view() =~= cs.update(i@, c));
        }
        self.put_workspace(k, wk);
        proof {
            assert(self.spec_workspaces() =~= ws0.update(k as int, wk));
        }
    }

    /// A mouse button went down on the window `window` at (`root_x`, `root_y`). On a
    /// floating window the position is remembered, and button 1 starts a drag, button 3 a
    /// resize; on any other window nothing happens.
    pub fn handle_button_press(&mut self, window: u32, detail: u8, root_x: i16, root_y: i16) -> (r: Result<(), Error>)
        ensures
            keeps_the_rest(*old(self), *final(self)),
            no_workspace_with(old(self).spec_workspaces(), window) ==> r == Err::<(), Error>(Error::NoWorkspaceForWindow(window))
                && final(self).spec_workspaces() == old(self).spec_workspaces()
                && final(self).spec_dragging() == old(self).spec_dragging()
                && final(self).spec_resizing() == old(self).spec_resizing(),
            forall|k: int| #[trigger] first_workspace_with(old(self).spec_workspaces(), window, k) ==> {
                let cs = old(self).spec_workspaces()[k].containers_view();
                let i = first_window(cs, window);
                r is Ok && if cs[i].container_type is Floating {
                    container_replaced(old(self).spec_workspaces(), final(self).spec_workspaces(), k, i,
                        Container { last_position: Some((root_x as i32, root_y as i32)), ..cs[i] })
                    && final(self).spec_dragging() == (detail == 1 || old(self).spec_dragging())
                    && final(self).spec_resizing() == (detail == 3 || old(self).spec_resizing())
                } else {
                    final(self).spec_workspaces() == old(self).spec_workspaces()
                    && final(self).spec_dragging() == old(self).spec_dragging()
                    && final(self).spec_resizing() == old(self).spec_resizing()
                }
            },
    {
        let ghost ws0 = self.spec_workspaces();
        let (k, c) = match self.locate_window(window) {
            Ok(x) => x,
            Err(e) => return Err(e),
        };
        let ghost i = first_window(ws0[k as int].containers_view(), window);
        proof {
            lemma_first_workspace_unique(ws0, window, k as int);
        }
        if !c.is_floating() {
            return Ok(());
        }
        let mut c2 = c;
        c2.change_last_position((root_x as i32, root_y as i32));
        self.update_container(k, Ghost(i), c2);
        proof {
            use_type_invariant(&*self);
        }
        if detail == 1 {
            self.is_dragging = true;
        } else if detail == 3 {
            self.is_resizing = true;
        }
        Ok(())
    }
}

impl State {
    /// A mouse button went up on the window `window` at (`root_x`, `root_y`). On a
    /// floating window, button 1 ends a drag (the window moves by the pointer's travel
    /// since the press) and button 3 ends a resize (the window's size changes by that
    /// travel, unless it would get under the smallest size). Returns the window and its
    /// new area when the X server has to move or resize it.
    pub fn handle_button_release(&mut self, window: u32, detail: u8, root_x: i16, root_y: i16) -> (r: Result<Option<(u32, Geometry)>, Error>)
        requires
            forall|k: int| #[trigger] first_workspace_with(old(self).spec_workspaces(), window, k) ==> {
                let cs = old(self).spec_workspaces()[k].containers_view();
                let c = cs[first_window(cs, window)];
                (c.container_type is Floating && (detail == 1 || detail == 3)) ==> c.last_position is Some
            },
        ensures
            keeps_the_rest(*old(self), *final(self)),
            no_workspace_with(old(self).spec_workspaces(), window) ==> r == Err::<Option<(u32, Geometry)>, Error>(Error::NoWorkspaceForWindow(window))
                && final(self).spec_workspaces() == old(self).spec_workspaces()
                && final(self).spec_dragging() == old(self).spec_dragging()
                && final(self).spec_resizing() == old(self).spec_resizing(),
            forall|k: int| #[trigger] first_workspace_with(old(self).spec_workspaces(), window, k) ==> {
                let ws = old(self).spec_workspaces();
                let cs = ws[k].containers_view();
                let i = first_window(cs, window);
                let c = cs[i];
                let g = c.container_type.spec_geometry();
                let d = pointer_diff(c.last_position->Some_0, root_x, root_y);
                let unchanged = final(self).spec_workspaces() == ws;
                if !(c.container_type is Floating) || (detail != 1 && detail != 3) {
                    r == Ok::<Option<(u32, Geometry)>, Error>(None) && unchanged
                        && final(self).spec_dragging() == old(self).spec_dragging()
                        && final(self).spec_resizing() == old(self).spec_resizing()
                } else if detail == 1 {
                    r == Ok::<Option<(u32, Geometry)>, Error>(Some((window, dragged(g, d.0, d.1))))
                        && container_replaced(ws, final(self).spec_workspaces(), k, i, with_area(c, dragged(g, d.0, d.1)))
                        && !final(self).spec_dragging()
                        && final(self).spec_resizing() == old(self).spec_resizing()
                } else {
                    !final(self).spec_resizing()
                        && final(self).spec_dragging() == old(self).spec_dragging()
                        && match resized(g, d) {
                            None => r == Ok::<Option<(u32, Geometry)>, Error>(None) && unchanged,
                            Some(g2) => r == Ok::<Option<(u32, Geometry)>, Error>(Some((window, g2)))
                                && container_replaced(ws, final(self).spec_workspaces(), k, i, with_area(c, g2)),
                        }
                }
            },
    {
        let ghost ws0 = self.spec_workspaces();
        let (k, c) = match self.locate_window(window) {
            Ok(x) => x,
            Err(e) => return Err(e),
        };
        let ghost i = first_window(ws0[k as int].containers_view(), window);
        proof {
            lemma_first_workspace_unique(ws0, window, k as int);
        }
        if !c.is_floating() || (detail != 1 && detail != 3) {
            return Ok(None);
        }
        let last = match c.last_position() {
            Some(p) => p,
            None => return Ok(None),
        };
        let dx = (last.0 as i16).wrapping_sub(root_x);
        let dy = (last.1 as i16).wrapping_sub(root_y);
        let g = c.container_type.geometry();
        if detail == 1 {
            let g2 = Geometry { x: g.x.wrapping_sub(dx), y: g.y.wrapping_sub(dy), ..g };
            let mut c2 = c;
            c2.container_type.set_geometry(g2);
            self.update_container(k, Ghost(i), c2);
            proof {
                use_type_invariant(&*self);
            }
            self.is_dragging = false;
            Ok(Some((window, g2)))
        } else {
            let w = (g.width as i16).wrapping_sub(dx);
            let h = (g.height as i16).wrapping_sub(dy);
            proof {
                use_type_invariant(&*self);
            }
            if (w as u16) < MIN_WIDTH || (h as u16) < MIN_HEIGHT {
                self.is_resizing = false;
                return Ok(None);
            }
            let g2 = Geometry { width: w as u16, height: h as u16, ..g };
            let mut c2 = c;
            c2.container_type.set_geometry(g2);
            self.update_container(k, Ghost(i), c2);
            proof {
                use_type_invariant(&*self);
            }
            self.is_resizing = false;
            Ok(Some((window, g2)))
        }
    }

    /// The pointer moved over the window `window` to (`root_x`, `root_y`). While a
    /// floating window is dragged it moves one and a half times the pointer's travel; while
    /// it is resized its size follows the pointer (never under the smallest size). Returns
    /// the window and its new area when the X server has to move or resize it.
    pub fn handle_motion_notify(&mut self, window: u32, root_x: i16, root_y: i16) -> (r: Result<Option<(u32, Geometry)>, Error>)
        requires
            forall|k: int| #[trigger] first_workspace_with(old(self).spec_workspaces(), window, k) ==> {
                let cs = old(self).spec_workspaces()[k].containers_view();
                let c = cs[first_window(cs, window)];
                (c.container_type is Floating && (old(self).spec_dragging() || old(self).spec_resizing())) ==> c.last_position is Some
            },
        ensures
            keeps_the_rest(*old(self), *final(self)),
            final(self).spec_dragging() == old(self).spec_dragging(),
            final(self).spec_resizing() == old(self).spec_resizing(),
            no_workspace_with(old(self).spec_workspaces(), window) ==> r == Err::<Option<(u32, Geometry)>, Error>(Error::NoWorkspaceForWindow(window))
                && final(self).spec_workspaces() == old(self).spec_workspaces(),
            forall|k: int| #[trigger] first_workspace_with(old(self).spec_workspaces(), window, k) ==> {
                let ws = old(self).spec_workspaces();
                let cs = ws[k].containers_view();
                let i = first_window(cs, window);
                let c = cs[i];
                let g = c.container_type.spec_geometry();
                let d = pointer_diff(c.last_position->Some_0, root_x, root_y);
                let unchanged = final(self).spec_workspaces() == ws;
                if !(c.container_type is Floating) || (!old(self).spec_dragging() && !old(self).spec_resizing()) {
                    r == Ok::<Option<(u32, Geometry)>, Error>(None) && unchanged
                } else if old(self).spec_dragging() {
                    let g2 = dragged(g, drag_distance(d.0), drag_distance(d.1));
                    r == Ok::<Option<(u32, Geometry)>, Error>(Some((window, g2)))
                        && container_replaced(ws, final(self).spec_workspaces(), k, i,
                            Container { last_position: Some((root_x as i32, root_y as i32)), ..with_area(c, g2) })
                } else {
                    match resized(g, d) {
                        None => r == Ok::<Option<(u32, Geometry)>, Error>(None) && unchanged,
                        Some(g2) => r == Ok::<Option<(u32, Geometry)>, Error>(Some((window, g2)))
                            && container_replaced(ws, final(self).spec_workspaces(), k, i,
                                Container {
                                    last_position: Some((root_x.wrapping_sub(d.0) as i32, root_y.wrapping_sub(d.1) as i32)),
                                    ..with_area(c, g2)
                                }),
                    }
                }
            },
    {
        let ghost ws0 = self.spec_workspaces();
        let (k, c) = match self.locate_window(window) {
            Ok(x) => x,
            Err(e) => return Err(e),
        };
        let ghost i = first_window(ws0[k as int].containers_view(), window);
        proof {
            lemma_first_workspace_unique(ws0, window, k as int);
        }
        if !c.is_floating() || (!self.is_dragging && !self.is_resizing) {
            return Ok(None);
        }
        let last = match c.last_position() {
            Some(p) => p,
            None => return Ok(None),
        };
        let dx = (last.0 as i16).wrapping_sub(root_x);
        let dy = (last.1 as i16).wrapping_sub(root_y);
        let g = c.container_type.geometry();
        if self.is_dragging {
            let g2 = Geometry { x: g.x.wrapping_sub(drag_distance_of(dx)), y: g.y.wrapping_sub(drag_distance_of(dy)), ..g };
            let mut c2 = c;
            c2.container_type.set_geometry(g2);
            c2.change_last_position((root_x as i32, root_y as i32));
            self.update_container(k, Ghost(i), c2);
            Ok(Some((window, g2)))
        } else {
            let w = (g.width as i16).wrapping_sub(dx);
            let h = (g.height as i16).wrapping_sub(dy);
            if (w as u16) < MIN_WIDTH || (h as u16) < MIN_HEIGHT {
                return Ok(None);
            }
            let g2 = Geometry { width: w as u16, height: h as u16, ..g };
            let mut c2 = c;
            c2.container_type.set_geometry(g2);
            c2.change_last_position((root_x.wrapping_sub(dx) as i32, root_y.wrapping_sub(dy) as i32));
            self.update_container(k, Ghost(i), c2);
            Ok(Some((window, g2)))
        }
    }
}

/// `b` is `a` with the window `window` dropped from its focus stack.
pub open spec fn forgot(a: Workspace, b: Workspace, window: u32) -> bool {
    &&& b.spec_focus() == crate::wm::focus_stack::seq_without(a.spec_focus(), window)
    &&& b.spec_containers() == a.spec_containers()
    &&& b.spec_layout() == a.spec_layout()
    &&& b.spec_allowed_layouts() == a.spec_allowed_layouts()
    &&& b.spec_screen() == a.spec_screen()
    &&& b.spec_name() == a.spec_name()
    &&& b.spec_id() == a.spec_id()
}

/// `mid` is `ws` once the window `window` left workspace `k`: the container holding it
/// is taken out and the workspace laid out again, with the effects `e`.
pub open spec fn window_removed(ws: Seq<Workspace>, k: int, window: u32, mid: Seq<Workspace>, e: Seq<LayoutEffect>) -> bool {
    let cs = ws[k].containers_view();
    &&& only_changed_at(ws, mid, k)
    &&& relaid_with_containers(ws[k], cs.remove(first_window(cs, window)), mid[k], e)
}

/// Once the window `window` is gone, the focused workspace of `mid` drops it from its
/// focus stack when a window was focused before the current one; that window gets the
/// input focus.
pub open spec fn focus_forgotten(
    mid: Seq<Workspace>,
    focused: Option<WorkspaceId>,
    window: u32,
    after: Seq<Workspace>,
    res: Result<Option<u32>, Error>,
) -> bool {
    match focused_index(mid, focused) {
        None => res == Err::<Option<u32>, Error>(Error::FocusedWorkspaceMissing) && after == mid,
        Some(j) => if mid[j].spec_focus().len() > 1 {
            res == Ok::<Option<u32>, Error>(Some(mid[j].spec_focus()[1])) && only_changed_at(mid, after, j)
                && forgot(mid[j], after[j], window)
        } else {
            res == Ok::<Option<u32>, Error>(None) && after == mid
        },
    }
}

/// `after` and `res` are what unmanaging the window `window`, held by workspace `k` of
/// `ws`, gives: the window leaves workspace `k` (with the effects `e`), then the focus
/// forgets it.
pub open spec fn unmanaged(
    ws: Seq<Workspace>,
    k: int,
    window: u32,
    e: Seq<LayoutEffect>,
    focused: Option<WorkspaceId>,
    after: Seq<Workspace>,
    res: Result<Option<u32>, Error>,
) -> bool {
    exists|mid: Seq<Workspace>| #[trigger] window_removed(ws, k, window, mid, e) && focus_forgotten(mid, focused, window, after, res)
}

/// The id a workspace gives the next container put into it.
pub open spec fn fresh_id(a: Workspace) -> ContainerId {
    ContainerId::spec_new(a.spec_id(), (a.spec_containers().spec_last_id() + 1) as u32)
}

/// `b` is `a` with the container `c` put at its end under a fresh id.
pub open spec fn with_inserted(a: Workspace, b: Workspace, c: Container) -> bool {
    &&& b.containers_view() == a.containers_view().push(Container { container_id: fresh_id(a), ..c })
    &&& b.spec_containers().spec_last_id() == a.spec_containers().spec_last_id() + 1
    &&& b.spec_containers().spec_workspace_id() == a.spec_containers().spec_workspace_id()
    &&& b.spec_layout() == a.spec_layout()
    &&& b.spec_allowed_layouts() == a.spec_allowed_layouts()
    &&& b.spec_screen() == a.spec_screen()
    &&& b.spec_name() == a.spec_name()
    &&& b.spec_id() == a.spec_id()
    &&& b.spec_focus() == a.spec_focus()
}

/// `after` is what laying out `a` with the container `c` added gives, with the effects `e`.
pub open spec fn relaid_with_inserted(a: Workspace, c: Container, after: Workspace, e: Seq<LayoutEffect>) -> bool {
    exists|mid: Workspace| #[trigger] with_inserted(a, mid, c) && layout_applied(mid, after, None, e)
}

/// Whether the workspace `id` is open on the first monitor that holds it.
pub open spec fn shown_on_monitor(ms: Seq<MonitorModel>, id: WorkspaceId) -> Result<bool, ErrorModel> {
    match monitor_holding(ms, id) {
        None => Err(ErrorModel::WorkspaceOnNoMonitor),
        Some(m) => match ms[m].open_workspace {
            None => Err(ErrorModel::NoOpenWorkspace),
            Some(o) => Ok(o == id),
        },
    }
}

/// `after` is `ws` once the window `window` moved from workspace `s` to workspace `t`:
/// it leaves `s` (laid out again with the effects `e1`), and its container goes to the end
/// of `t` under a fresh id (laid out again with the effects `e2`).
pub open spec fn window_moved(
    ws: Seq<Workspace>,
    s: int,
    t: int,
    window: u32,
    e1: Seq<LayoutEffect>,
    e2: Seq<LayoutEffect>,
    after: Seq<Workspace>,
) -> bool {
    let cs = ws[s].containers_view();
    exists|mid: Seq<Workspace>| #[trigger] window_removed(ws, s, window, mid, e1) && only_changed_at(mid, after, t)
        && relaid_with_inserted(mid[t], cs[first_window(cs, window)], after[t], e2)
}

/// What the X server must do after a client moved to another workspace (the window was
/// unmapped before): lay out the workspace it left and the one it went to, and map it
/// again when that workspace is shown (or the error met finding that out).
#[derive(Debug)]
pub struct MovePlan {
    pub source: Vec<LayoutEffect>,
    pub target: Vec<LayoutEffect>,
    pub shown: Result<bool, Error>,
}

/// Some workspace of the list has fewer than 65535 containers and room for another
/// container id.
pub open spec fn insert_room(ws: Seq<Workspace>) -> bool {
    forall|i: int| 0 <= i < ws.len() ==> (#[trigger] ws[i]).can_insert()
}

impl State {
    /// The window that should have the input focus when the window `window` gets it: the
    /// focused client of the first workspace holding `window`.
    pub fn handle_focus_in(&self, window: u32) -> (r: Option<u32>)
        ensures
            no_workspace_with(self.spec_workspaces(), window) ==> r is None,
            forall|k: int| #[trigger] first_workspace_with(self.spec_workspaces(), window, k) ==> r == (if self.spec_workspaces()[k].spec_focus().len() > 0 {
                Some(self.spec_workspaces()[k].spec_focus()[0])
            } else {
                None::<u32>
            }),
    {
        match self.workspace_for_window(window) {
            Some(k) => {
                proof {
                    lemma_first_workspace_unique(self.spec_workspaces(), window, k as int);
                }
                self.workspaces[k].focus().focused_client()
            },
            None => None,
        }
    }

    /// The pointer entered the window `window`: its workspace (or, for a window of no
    /// workspace, the focused one) gets the focus, and so does the window in that
    /// workspace's focus stack. Returns what the X server must do for the focus change;
    /// the window then gets the input focus.
    pub fn handle_enter_event(&mut self, window: u32) -> (r: Result<FocusPlan, Error>)
        ensures
            final(self).spec_last_client_id() == old(self).spec_last_client_id(),
            final(self).spec_floating_modifier() == old(self).spec_floating_modifier(),
            final(self).spec_dragging() == old(self).spec_dragging(),
            final(self).spec_resizing() == old(self).spec_resizing(),
            match focused_index(old(self).spec_workspaces(), old(self).spec_focused()) {
                None => r matches Err(Error::FocusedWorkspaceMissing) && final(self).spec_workspaces() == old(self).spec_workspaces()
                    && final(self).spec_monitors() == old(self).spec_monitors() && final(self).spec_focused() == old(self).spec_focused(),
                Some(f) => {
                    let ws = old(self).spec_workspaces();
                    let ms = old(self).spec_monitors();
                    let id = if no_workspace_with(ws, window) {
                        ws[f].spec_id()
                    } else {
                        ws[choose|k: int| first_workspace_with(ws, window, k)].spec_id()
                    };
                    let step = focus_step(ws, ms, old(self).spec_focused(), id);
                    &&& final(self).spec_monitors() == step.monitors
                    &&& final(self).spec_focused() == step.focused
                    &&& match focus_result(ws, ms, old(self).spec_focused(), id, false) {
                        Err(e) => r matches Err(x) && x@ == e && final(self).spec_workspaces() == ws,
                        Ok(t) => match focused_index(ws, step.focused) {
                            None => r matches Err(Error::FocusedWorkspaceMissing) && final(self).spec_workspaces() == ws,
                            Some(j) => r matches Ok(p) && plan_view(p) == t && only_changed_at(ws, final(self).spec_workspaces(), j)
                                && refocused(ws[j], final(self).spec_workspaces()[j], window),
                        },
                    }
                },
            },
    {
        let ghost ws0 = self.spec_workspaces();
        let f = match self.focused_position() {
            Some(f) => f,
            None => return Err(Error::FocusedWorkspaceMissing),
        };
        let mut id = self.workspaces[f].id();
        match self.workspace_for_window(window) {
            Some(k) => {
                proof {
                    lemma_first_workspace_unique(ws0, window, k as int);
                }
                id = self.workspaces[k].id();
                proof {
                    assert(first_workspace_with(ws0, window, k as int));
                    let c = choose|k: int| first_workspace_with(ws0, window, k);
                    assert(first_workspace_with(ws0, window, c));
                    assert(c == k);
                }
            },
            None => {},
        }
        assert(id == (if no_workspace_with(ws0, window) {
            ws0[f as int].spec_id()
        } else {
            ws0[choose|k: int| first_workspace_with(ws0, window, k)].spec_id()
        }));
        let plan = match self.focus_workspace(id, false) {
            Ok(p) => p,
            Err(e) => return Err(e),
        };
        let j = match self.focused_position() {
            Some(j) => j,
            None => return Err(Error::FocusedWorkspaceMissing),
        };
        let mut wj = self.take_workspace(j);
        wj.set_focused_client(window);
        self.put_workspace(j, wj);
        proof {
            assert(self.spec_workspaces() =~= ws0.update(j as int, wj));
        }
        Ok(plan)
    }

    /// The window `window` was destroyed: the first workspace holding it lets it go and is
    /// laid out again (the effects come first in the result), then the focused workspace
    /// forgets it if a window was focused before the current one, and that window is the
    /// one to get the input focus.
    pub fn unmanage_window(&mut self, window: u32) -> (r: (Vec<LayoutEffect>, Result<Option<u32>, Error>))
        requires
            layout_room(old(self).spec_workspaces()),
        ensures
            keeps_the_rest(*old(self), *final(self)),
            final(self).spec_dragging() == old(self).spec_dragging(),
            final(self).spec_resizing() == old(self).spec_resizing(),
            no_workspace_with(old(self).spec_workspaces(), window) ==> r.0@.len() == 0
                && focus_forgotten(old(self).spec_workspaces(), old(self).spec_focused(), window, final(self).spec_workspaces(), r.1),
            forall|k: int| #[trigger] first_workspace_with(old(self).spec_workspaces(), window, k) ==> unmanaged(
                old(self).spec_workspaces(),
                k,
                window,
                r.0@,
                old(self).spec_focused(),
                final(self).spec_workspaces(),
                r.1,
            ),
    {
        proof {
            use_type_invariant(&*self);
        }
        let ghost ws0 = self.spec_workspaces();
        let mut effects: Vec<LayoutEffect> = Vec::new();
        let ghost mut found: Option<int> = None;
        match self.workspace_for_window(window) {
            Some(k) => {
                proof {
                    lemma_first_workspace_unique(ws0, window, k as int);
                    found = Some(k as int);
                }
                let mut wk = self.take_workspace(k);
                let ghost cs = wk.containers_view();
                proof {
                    lemma_first_window_unique(cs, window);
                }
                let _ = wk.remove_window(window);
                let ghost removed = wk;
                proof {
                    assert(in_layout_count(ws0[k as int].containers_view()) <= 65535);
                    lemma_count_remove(cs, first_window(cs, window));
                    lemma_can_apply(wk.spec_layout(), wk.containers_view());
                }
                effects = wk.apply_layout(None);
                self.put_workspace(k, wk);
                proof {
                    assert(self.spec_workspaces() =~= ws0.update(k as int, wk));
                    assert(with_containers(ws0[k as int], removed, cs.remove(first_window(cs, window))));
                    assert(relaid_with_containers(ws0[k as int], cs.remove(first_window(cs, window)), self.spec_workspaces()[k as int], effects@));
                    assert(window_removed(ws0, k as int, window, self.spec_workspaces(), effects@));
                }
            },
            None => {},
        }
        let ghost mid = self.spec_workspaces();
        let res = self.forget_window(window);
        proof {
            if let Some(k) = found {
                assert(window_removed(ws0, k, window, mid, effects@));
            } else {
                assert(mid =~= ws0);
            }
        }
        (effects, res)
    }

    /// The focused workspace drops the window `window` from its focus stack when a window
    /// was focused before the current one; returns that window.
    fn forget_window(&mut self, window: u32) -> (r: Result<Option<u32>, Error>)
        ensures
            keeps_the_rest(*old(self), *final(self)),
            final(self).spec_dragging() == old(self).spec_dragging(),
            final(self).spec_resizing() == old(self).spec_resizing(),
            focus_forgotten(old(self).spec_workspaces(), old(self).spec_focused(), window, final(self).spec_workspaces(), r),
    {
        let ghost ws0 = self.spec_workspaces();
        let j = match self.focused_position() {
            Some(j) => j,
            None => return Err(Error::FocusedWorkspaceMissing),
        };
        let previous = self.workspaces[j].focus().previously_focused_client();
        match previous {
            Some(p) => {
                let mut wj = self.take_workspace(j);
                wj.remove_focused_client(window);
                self.put_workspace(j, wj);
                proof {
                    assert(self.spec_workspaces() =~= ws0.update(j as int, wj));
                }
                Ok(Some(p))
            },
            None => Ok(None),
        }
    }

    /// Moves the focused client to the workspace `workspace_id`. The outer error comes
    /// before anything changes; otherwise the client's window is returned (to be
    /// unmapped), with what else the X server must do, or the error met taking the client
    /// out of its workspace.
    pub fn action_move(&mut self, workspace_id: WorkspaceId) -> (r: Result<(u32, Result<MovePlan, Error>), Error>)
        requires
            layout_room(old(self).spec_workspaces()),
            insert_room(old(self).spec_workspaces()),
            move_room(old(self).spec_workspaces(), old(self).spec_focused(), workspace_id),
        ensures
            move_outcome(*old(self), *final(self), workspace_id, r),

    {
        proof {
            use_type_invariant(&*self);
        }
        let ghost ws0 = self.spec_workspaces();
        let s = match self.focused_position() {
            Some(s) => s,
            None => return Err(Error::FocusedWorkspaceMissing),
        };
        let win = match self.workspaces[s].focus().focused_client() {
            Some(w) => w,
            None => return Err(Error::NoFocusedClient),
        };
        let t = match self.workspace_position(workspace_id) {
            Some(t) => t,
            None => return Err(Error::NoWorkspaceWithId(workspace_id)),
        };
        proof {
            lemma_workspace_index(ws0, workspace_id);
        }
        if !self.workspaces[s].contains_window(win) {
            return Ok((win, Err(Error::NoClientToRemove(win))));
        }
        let mut wsrc = self.take_workspace(s);
        let ghost cs = wsrc.containers_view();
        proof {
            lemma_first_window_unique(cs, win);
        }
        let c = match wsrc.remove_and_return_window(win) {
            Ok(c) => c,
            Err(e) => {
                proof {
                    assert(false);
                }
                return Ok((win, Err(e)));
            },
        };
        let ghost removed = wsrc;
        proof {
            let i = first_window(cs, win);
            assert(c == cs[i]);
            lemma_workspace_index(ws0, self.focused_workspace->Some_0);
            lemma_room_after_remove(ws0, old(self).spec_focused(), workspace_id, s as int, t as int);
            lemma_can_apply(wsrc.spec_layout(), wsrc.containers_view());
        }
        let source = wsrc.apply_layout(None);
        self.put_workspace(s, wsrc);
        let ghost mid = self.spec_workspaces();
        proof {
            assert(mid =~= ws0.update(s as int, wsrc));
            assert(with_containers(ws0[s as int], removed, cs.remove(first_window(cs, win))));
            assert(window_removed(ws0, s as int, win, mid, source@));
            if t == s {
                assert(mid[t as int] == wsrc);
                lemma_count_after_layout(removed, wsrc, None, source@);
            } else {
                assert(mid[t as int] == ws0[t as int]);
            }
        }
        let mut wt = self.take_workspace(t);
        let ghost before_t = wt;
        let _ = wt.insert_container(c);
        let ghost inserted = wt;
        proof {
            assert(with_inserted(before_t, inserted, c));
            assert(inserted.containers_view().drop_last() =~= before_t.containers_view());
            lemma_can_apply(wt.spec_layout(), wt.containers_view());
        }
        let target = wt.apply_layout(None);
        self.put_workspace(t, wt);
        proof {
            assert(self.spec_workspaces() =~= mid.update(t as int, wt));
            assert(relaid_with_inserted(mid[t as int], c, self.spec_workspaces()[t as int], target@));
            assert(window_moved(ws0, s as int, t as int, win, source@, target@, self.spec_workspaces()));
        }
        let shown = match self.monitor_holding(workspace_id) {
            None => Err(Error::WorkspaceOnNoMonitor),
            Some(m) => {
                proof {
                    lemma_first_monitor(self.spec_monitors(), |x: MonitorModel| x.workspaces.contains(workspace_id));
                    assert(self.monitors@[m as int]@ == self.spec_monitors()[m as int]);
                }
                match self.monitors[m].get_open_workspace() {
                    Ok(o) => Ok(o == workspace_id),
                    Err(e) => Err(e),
                }
            },
        };
        Ok((win, Ok(MovePlan { source, target, shown })))
    }
}

/// The point (`x`, `y`) lies in the area `g`, edges included (the far edges computed
/// wrapping).
pub open spec fn point_in(g: Geometry, x: i16, y: i16) -> bool {
    &&& x >= g.x
    &&& x <= g.x.wrapping_add(g.width as i16)
    &&& y >= g.y
    &&& y <= g.y.wrapping_add(g.height as i16)
}

/// The workspace under the pointer at (`x`, `y`): the open workspace of the first
/// monitor whose area holds the point, if that workspace exists.
pub open spec fn under_cursor(ws: Seq<Workspace>, ms: Seq<MonitorModel>, x: i16, y: i16) -> Result<WorkspaceId, ErrorModel> {
    match first_monitor(ms, |m: MonitorModel| point_in(m.size, x, y)) {
        None => Err(ErrorModel::CursorOutsideWorkspaces),
        Some(i) => match ms[i].open_workspace {
            None => Err(ErrorModel::NoOpenWorkspace),
            Some(o) => if workspace_index(ws, o) is Some {
                Ok(o)
            } else {
                Err(ErrorModel::CursorOutsideWorkspaces)
            },
        },
    }
}

/// The client `Client::new_without_process_id` makes for a window.
pub open spec fn unknown_process_client(window: u32, geometry: Geometry, id: u64, config: Config) -> Client {
    Client { window_id: window, process_id: 0, geometry, attributes: attributes_of(config), client_id: id }
}

/// `after` is what putting the container `c` into `a`, laying it out (with the effects
/// `e`) and focusing the window `window` gives.
pub open spec fn placed_and_focused(a: Workspace, c: Container, e: Seq<LayoutEffect>, window: u32, after: Workspace) -> bool {
    exists|laid: Workspace| #[trigger] relaid_with_inserted(a, c, laid, e) && refocused(laid, after, window)
}

/// What the X server must do for a newly managed window: the focus change that brought
/// its workspace forward, then the layout of that workspace (the window is mapped and gets
/// the input focus).
#[derive(Debug)]
pub struct ManagePlan {
    pub focus: FocusPlan,
    pub effects: Vec<LayoutEffect>,
}

/// `b` is `a` with the clients `cs` put at its end, in layout containers under fresh
/// ids.
pub open spec fn with_clients(a: Workspace, b: Workspace, cs: Seq<Client>) -> bool {
    let last = a.spec_containers().spec_last_id();
    &&& b.containers_view() == a.containers_view() + Seq::new(
        cs.len(),
        |i: int| new_container(cs[i], ContainerId::spec_new(a.spec_id(), (last + i + 1) as u32), CT_MASK_TILING),
    )
    &&& b.spec_containers().spec_last_id() == last + cs.len()
    &&& b.spec_containers().spec_workspace_id() == a.spec_containers().spec_workspace_id()
    &&& b.spec_layout() == a.spec_layout()
    &&& b.spec_allowed_layouts() == a.spec_allowed_layouts()
    &&& b.spec_screen() == a.spec_screen()
    &&& b.spec_name() == a.spec_name()
    &&& b.spec_id() == a.spec_id()
    &&& b.spec_focus() == a.spec_focus()
}

/// `after` is what putting the clients `cs` into `a` and laying it out gives, with the
/// effects `e`.
pub open spec fn relaid_with_clients(a: Workspace, cs: Seq<Client>, after: Workspace, e: Seq<LayoutEffect>) -> bool {
    exists|mid: Workspace| #[trigger] with_clients(a, mid, cs) && layout_applied(mid, after, None, e)
}

impl State {
    /// The workspace under the pointer at (`x`, `y`).
    pub fn workspace_under_cursor(&self, x: i16, y: i16) -> (r: Result<WorkspaceId, Error>)
        ensures
            match under_cursor(self.spec_workspaces(), self.spec_monitors(), x, y) {
                Ok(id) => r == Ok::<WorkspaceId, Error>(id),
                Err(e) => r matches Err(z) && z@ == e,
            },
    {
        let ghost ms = monitors_view(self.monitors@);
        let ghost p = |m: MonitorModel| point_in(m.size, x, y);
        let mut i: usize = 0;
        proof {
            assert(ms.subrange(0, 0) =~= Seq::<MonitorModel>::empty());
        }
        while i < self.monitors.len()
            invariant
                ms == monitors_view(self.monitors@),
                p == (|m: MonitorModel| point_in(m.size, x, y)),
                i <= ms.len(),
                first_monitor(ms.subrange(0, i as int), p) is None,
            decreases ms.len() - i,
        {
            proof {
                assert(ms.subrange(0, i + 1).drop_last() =~= ms.subrange(0, i as int));
            }
            let g = self.monitors[i].size();
            assert(ms[i as int] == self.monitors@[i as int]@);
            if x >= g.x && x <= g.x.wrapping_add(g.width as i16) && y >= g.y && y <= g.y.wrapping_add(g.height as i16) {
                proof {
                    lemma_first_monitor_prefix(ms, i as int + 1, p);
                }
                let o = match self.monitors[i].get_open_workspace() {
                    Ok(o) => o,
                    Err(e) => return Err(e),
                };
                return match self.workspace_position(o) {
                    Some(_) => Ok(o),
                    None => Err(Error::CursorOutsideWorkspaces),
                };
            }
            i = i + 1;
        }
        proof {
            assert(ms.subrange(0, ms.len() as int) =~= ms);
        }
        Err(Error::CursorOutsideWorkspaces)
    }

    /// Starts managing the window `window` of area `geometry`, the pointer being at
    /// (`cursor_x`, `cursor_y`): it takes the next client id, the workspace under the
    /// pointer gets the focus, the window goes into a new layout container at its end, the
    /// workspace is laid out again and the window is focused there.
    pub fn manage_window(
        &mut self,
        window: u32,
        geometry: Geometry,
        cursor_x: i16,
        cursor_y: i16,
        config: &Config,
    ) -> (r: Result<ManagePlan, Error>)
        requires
            old(self).spec_last_client_id() < u64::MAX,
            insert_room(old(self).spec_workspaces()),
            under_cursor(old(self).spec_workspaces(), old(self).spec_monitors(), cursor_x, cursor_y) matches Ok(id)
                ==> grow_room(old(self).spec_workspaces(), id),
        ensures
            final(self).spec_last_client_id() == old(self).spec_last_client_id() + 1,
            final(self).spec_floating_modifier() == old(self).spec_floating_modifier(),
            final(self).spec_dragging() == old(self).spec_dragging(),
            final(self).spec_resizing() == old(self).spec_resizing(),
            ({
                let ws = old(self).spec_workspaces();
                let ms = old(self).spec_monitors();
                match under_cursor(ws, ms, cursor_x, cursor_y) {
                    Err(e) => r matches Err(z) && z@ == e && final(self).spec_workspaces() == ws
                        && final(self).spec_monitors() == ms && final(self).spec_focused() == old(self).spec_focused(),
                    Ok(id) => {
                        let step = focus_step(ws, ms, old(self).spec_focused(), id);
                        &&& final(self).spec_monitors() == step.monitors
                        &&& final(self).spec_focused() == step.focused
                        &&& match focus_result(ws, ms, old(self).spec_focused(), id, false) {
                            Err(e) => r matches Err(z) && z@ == e && final(self).spec_workspaces() == ws,
                            Ok(t) => match focused_index(ws, step.focused) {
                                None => r matches Err(Error::FocusedWorkspaceMissing) && final(self).spec_workspaces() == ws,
                                Some(j) => r matches Ok(p) && plan_view(p.focus) == t
                                    && only_changed_at(ws, final(self).spec_workspaces(), j)
                                    && placed_and_focused(
                                        ws[j],
                                        new_container(
                                            unknown_process_client(window, geometry, (old(self).spec_last_client_id() + 1) as u64, *config),
                                            fresh_id(ws[j]),
                                            CT_MASK_TILING,
                                        ),
                                        p.effects@,
                                        window,
                                        final(self).spec_workspaces()[j],
                                    ),
                            },
                        }
                    },
                }
            }),
    {
        let ghost ws0 = self.spec_workspaces();
        let client_id = self.new_client_id();
        let id = match self.workspace_under_cursor(cursor_x, cursor_y) {
            Ok(id) => id,
            Err(e) => return Err(e),
        };
        let focus = match self.focus_workspace(id, false) {
            Ok(p) => p,
            Err(e) => return Err(e),
        };
        let j = match self.focused_position() {
            Some(j) => j,
            None => return Err(Error::FocusedWorkspaceMissing),
        };
        let client = Client::new_without_process_id(window, geometry, client_id, config);
        let mut wj = self.take_workspace(j);
        let ghost before = wj;
        let _ = wj.insert_client(client, CT_MASK_TILING);
        let ghost inserted = wj;
        proof {
            assert(client == unknown_process_client(window, geometry, client_id, *config));
            assert(with_inserted(before, inserted, new_container(client, fresh_id(before), CT_MASK_TILING)));
            lemma_workspace_index(ws0, self.focused_workspace->Some_0);
            assert(self.focused_workspace == Some(id));
            assert(ws0[j as int].spec_id() == id);
            assert(in_layout_count(before.containers_view()) < 65535);
            assert(inserted.containers_view().drop_last() =~= before.containers_view());
            lemma_can_apply(wj.spec_layout(), wj.containers_view());
        }
        let effects = wj.apply_layout(None);
        let ghost laid = wj;
        proof {
            assert(relaid_with_inserted(before, new_container(client, fresh_id(before), CT_MASK_TILING), laid, effects@));
        }
        wj.set_focused_client(window);
        self.put_workspace(j, wj);
        proof {
            assert(self.spec_workspaces() =~= ws0.update(j as int, wj));
            assert(refocused(laid, wj, window));
        }
        Ok(ManagePlan { focus, effects })
    }

    /// Starts managing many windows at once (each with its area): each takes the next
    /// client id, they go into new layout containers at the end of the focused workspace,
    /// in order, and that workspace is laid out again (its windows are then mapped).
    pub fn manage_windows(&mut self, windows_and_geometries: Vec<(u32, Geometry)>, config: &Config) -> (r: Result<Vec<LayoutEffect>, Error>)
        requires
            old(self).spec_last_client_id() + windows_and_geometries@.len() <= u64::MAX,
            focused_index(old(self).spec_workspaces(), old(self).spec_focused()) matches Some(j) ==> ({
                let w = old(self).spec_workspaces()[j];
                &&& in_layout_count(w.containers_view()) + windows_and_geometries@.len() <= 65535
                &&& w.spec_containers().spec_last_id() + windows_and_geometries@.len() <= u32::MAX
            }),
        ensures
            final(self).spec_last_client_id() == old(self).spec_last_client_id() + windows_and_geometries@.len(),
            final(self).spec_monitors() == old(self).spec_monitors(),
            final(self).spec_focused() == old(self).spec_focused(),
            final(self).spec_floating_modifier() == old(self).spec_floating_modifier(),
            final(self).spec_dragging() == old(self).spec_dragging(),
            final(self).spec_resizing() == old(self).spec_resizing(),
            ({
                let ws = old(self).spec_workspaces();
                let wg = windows_and_geometries@;
                let clients = Seq::new(
                    wg.len(),
                    |i: int| unknown_process_client(wg[i].0, wg[i].1, (old(self).spec_last_client_id() + i + 1) as u64, *config),
                );
                match focused_index(ws, old(self).spec_focused()) {
                    None => r matches Err(Error::FocusedWorkspaceMissing) && final(self).spec_workspaces() == ws,
                    Some(j) => r matches Ok(e) && only_changed_at(ws, final(self).spec_workspaces(), j)
                        && relaid_with_clients(ws[j], clients, final(self).spec_workspaces()[j], e@),
                }
            }),
    {
        let ghost ws0 = self.spec_workspaces();
        let ghost last0 = self.spec_last_client_id();
        let n = windows_and_geometries.len();
        let mut clients: Vec<Client> = Vec::new();
        let mut masks: Vec<u8> = Vec::new();
        let mut i: usize = 0;
        while i < n
            invariant
                n == windows_and_geometries@.len(),
                i <= n,
                last0 + n <= u64::MAX,
                self.spec_last_client_id() == last0 + i,
                self.spec_workspaces() == ws0,
                self.spec_monitors() == old(self).spec_monitors(),
                self.spec_focused() == old(self).spec_focused(),
                self.spec_floating_modifier() == old(self).spec_floating_modifier(),
                self.spec_dragging() == old(self).spec_dragging(),
                self.spec_resizing() == old(self).spec_resizing(),
                clients@.len() == i,
                masks@.len() == i,
                forall|j: int| 0 <= j < i ==> #[trigger] clients@[j] == unknown_process_client(
                    windows_and_geometries@[j].0,
                    windows_and_geometries@[j].1,
                    (last0 + j + 1) as u64,
                    *config,
                ),
                forall|j: int| 0 <= j < i ==> #[trigger] masks@[j] == CT_MASK_TILING,
            decreases n - i,
        {
            let client_id = self.new_client_id();
            let (window, geometry) = windows_and_geometries[i];
            clients.push(Client::new_without_process_id(window, geometry, client_id, config));
            masks.push(CT_MASK_TILING);
            i = i + 1;
        }
        let ghost cs = clients@;
        let j = match self.focused_position() {
            Some(j) => j,
            None => return Err(Error::FocusedWorkspaceMissing),
        };
        let mut wj = self.take_workspace(j);
        let ghost before = wj;
        let ids = wj.insert_many(clients, masks);
        let ghost inserted = wj;
        proof {
            let wg = windows_and_geometries@;
            let want = Seq::new(wg.len(), |k: int| unknown_process_client(wg[k].0, wg[k].1, (last0 + k + 1) as u64, *config));
            assert(cs =~= want);
            assert(inserted.containers_view() =~= before.containers_view() + Seq::new(
                cs.len(),
                |k: int| new_container(cs[k], ContainerId::spec_new(before.spec_id(), (before.spec_containers().spec_last_id() + k + 1) as u32), CT_MASK_TILING),
            ));
            assert(with_clients(before, inserted, want));
            let added = Seq::new(
                cs.len(),
                |k: int| new_container(cs[k], ContainerId::spec_new(before.spec_id(), (before.spec_containers().spec_last_id() + k + 1) as u32), CT_MASK_TILING),
            );
            assert forall|k: int| 0 <= k < added.len() implies (#[trigger] added[k]).container_type is InLayout by {}
            lemma_count_all_laid(added);
            lemma_count_append(before.containers_view(), added);
            lemma_can_apply(wj.spec_layout(), wj.containers_view());
        }
        let effects = wj.apply_layout(None);
        self.put_workspace(j, wj);
        proof {
            assert(self.spec_workspaces() =~= ws0.update(j as int, wj));
        }
        Ok(effects)
    }
}

/// The monitor the X server reports as `info`, under the id `id`, without workspaces.
pub open spec fn reported_monitor(info: MonitorInfo, id: u32) -> MonitorModel {
    MonitorModel {
        size: Geometry { x: info.x, y: info.y, width: info.width, height: info.height },
        id,
        outputs: info.outputs@,
        workspaces: Seq::<WorkspaceId>::empty(),
        open_workspace: None,
        focused: false,
    }
}

/// The monitor index a workspace's settings ask for: the number written there, or 0.
pub open spec fn monitor_index(monitor: Seq<char>) -> int {
    match parse_uint(monitor, usize::MAX as nat) {
        Ok(v) => v as int,
        Err(_) => 0,
    }
}

/// Why the settings `st` cannot give a workspace when there are `n` monitors, if they
/// cannot: a layout name that is unknown, or a monitor index that no monitor has.
pub open spec fn settings_error(st: WorkspaceSettings, n: nat) -> Option<ErrorModel> {
    match layout_mask_from(string_views(st.allowed_layouts@), 0, 0) {
        Err(name) => Some(ErrorModel::UnknownLayout(name)),
        Ok(_) => if monitor_index(st.monitor@) < n {
            None
        } else {
            Some(ErrorModel::NoMonitorWithIndex(st.monitor@))
        },
    }
}

/// The first settings of the list that cannot give a workspace, with the error.
pub open spec fn first_settings_error(settings: Seq<WorkspaceSettings>, n: nat) -> Option<(int, ErrorModel)>
    decreases settings.len(),
{
    if settings.len() == 0 {
        None
    } else {
        match first_settings_error(settings.drop_last(), n) {
            Some(x) => Some(x),
            None => match settings_error(settings.last(), n) {
                Some(e) => Some((settings.len() - 1, e)),
                None => None,
            },
        }
    }
}

/// The monitors once the workspaces of the first `k` settings are placed on the
/// monitors they ask for.
pub open spec fn monitors_with_settings(ms: Seq<MonitorModel>, settings: Seq<WorkspaceSettings>, k: nat) -> Seq<MonitorModel>
    decreases k,
{
    if k == 0 {
        ms
    } else {
        let m = monitors_with_settings(ms, settings, (k - 1) as nat);
        let st = settings[k - 1];
        let i = monitor_index(st.monitor@);
        if 0 <= i < m.len() {
            m.update(i, with_workspace(m[i], st.identifier))
        } else {
            m
        }
    }
}

/// The workspace `w` is the new, empty workspace the settings `st` give on a monitor of
/// area `screen`.
pub open spec fn new_workspace_from(w: Workspace, st: WorkspaceSettings, screen: Geometry) -> bool {
    &&& w.containers_view() == Seq::<Container>::empty()
    &&& w.spec_containers().spec_last_id() == 0
    &&& w.spec_layout() == LayoutType::TilingEqualHorizontal
    &&& layout_mask_from(string_views(st.allowed_layouts@), 0, 0) == Ok::<u64, Seq<char>>(w.spec_allowed_layouts())
    &&& w.spec_screen() == screen
    &&& w.spec_name() == st.name@
    &&& w.spec_id() == st.identifier
    &&& w.spec_focus() == Seq::<u32>::empty()
}

/// `ws` is `before` followed by the workspaces of the first `k` settings, each on the
/// monitor (of `ms`) it asks for.
pub open spec fn workspaces_added(before: Seq<Workspace>, ws: Seq<Workspace>, settings: Seq<WorkspaceSettings>, ms: Seq<MonitorModel>, k: nat) -> bool {
    &&& ws.len() == before.len() + k
    &&& forall|j: int| 0 <= j < before.len() ==> #[trigger] ws[j] == before[j]
    &&& forall|j: int| 0 <= j < k ==> new_workspace_from(
        #[trigger] ws[before.len() + j],
        settings[j],
        ms[monitor_index(settings[j].monitor@)].size,
    )
}

/// The monitor showing its first workspace, if it has any.
pub open spec fn opened(m: MonitorModel) -> MonitorModel {
    if m.workspaces.len() > 0 {
        MonitorModel { open_workspace: Some(m.workspaces[0]), ..m }
    } else {
        m
    }
}

proof fn lemma_first_settings_error_prefix(settings: Seq<WorkspaceSettings>, k: int, n: nat)
    requires
        0 <= k <= settings.len(),
        first_settings_error(settings.subrange(0, k), n) is None,
        k < settings.len() ==> settings_error(settings[k], n) is Some,
    ensures
        k < settings.len() ==> first_settings_error(settings, n) == Some((k, settings_error(settings[k], n)->Some_0)),
        k == settings.len() ==> first_settings_error(settings, n) is None,
    decreases settings.len(),
{
    if k == settings.len() {
        assert(settings.subrange(0, k) =~= settings);
    } else if settings.len() > k + 1 {
        assert(settings.drop_last().subrange(0, k) =~= settings.subrange(0, k));
        assert(settings.drop_last()[k] == settings[k]);
        lemma_first_settings_error_prefix(settings.drop_last(), k, n);
    } else {
        assert(settings.drop_last() =~= settings.subrange(0, k));
    }
}

proof fn lemma_monitors_with_settings_len(ms: Seq<MonitorModel>, settings: Seq<WorkspaceSettings>, k: nat)
    ensures
        monitors_with_settings(ms, settings, k).len() == ms.len(),
    decreases k,
{
    if k > 0 {
        lemma_monitors_with_settings_len(ms, settings, (k - 1) as nat);
    }
}

proof fn lemma_monitors_with_settings_sizes(ms: Seq<MonitorModel>, settings: Seq<WorkspaceSettings>, k: nat, i: int)
    requires
        0 <= i < ms.len(),
    ensures
        monitors_with_settings(ms, settings, k)[i].size == ms[i].size,
    decreases k,
{
    if k > 0 {
        lemma_monitors_with_settings_len(ms, settings, (k - 1) as nat);
        lemma_monitors_with_settings_sizes(ms, settings, (k - 1) as nat, i);
    }
}

impl State {
    /// Adds the monitors the X server reports, numbered from 1 in the order reported.
    pub fn setup_monitors(&mut self, infos: Vec<MonitorInfo>) -> (r: Result<(), Error>)
        requires
            infos@.len() < u32::MAX,
        ensures
            r is Ok,
            final(self).spec_monitors() == old(self).spec_monitors() + Seq::new(
                infos@.len(),
                |i: int| reported_monitor(infos@[i], (i + 1) as u32),
            ),
            final(self).spec_workspaces() == old(self).spec_workspaces(),
            final(self).spec_focused() == old(self).spec_focused(),
            final(self).spec_last_client_id() == old(self).spec_last_client_id(),
            final(self).spec_floating_modifier() == old(self).spec_floating_modifier(),
            final(self).spec_dragging() == old(self).spec_dragging(),
            final(self).spec_resizing() == old(self).spec_resizing(),
    {
        proof {
            use_type_invariant(&*self);
        }
        let ghost ms0 = self.spec_monitors();
        let ghost all = infos@;
        let mut rest = infos;
        let mut current: u32 = 0;
        while rest.len() > 0
            invariant
                all.len() < u32::MAX,
                current <= all.len(),
                rest@ == all.subrange(current as int, all.len() as int),
                monitors_view(self.monitors@) == ms0 + Seq::new(current as nat, |i: int| reported_monitor(all[i], (i + 1) as u32)),
                self.spec_workspaces() == old(self).spec_workspaces(),
                self.spec_focused() == old(self).spec_focused(),
                self.spec_last_client_id() == old(self).spec_last_client_id(),
                self.spec_floating_modifier() == old(self).spec_floating_modifier(),
                self.spec_dragging() == old(self).spec_dragging(),
                self.spec_resizing() == old(self).spec_resizing(),
            decreases rest@.len(),
        {
            proof {
                use_type_invariant(&*self);
            }
            let info = rest.remove(0);
            current = current + 1;
            let m = match Monitor::from_monitor_info(info, current) {
                Ok(m) => m,
                Err(e) => return Err(e),
            };
            let ghost before = monitors_view(self.monitors@);
            let mut monitors: Vec<Monitor> = Vec::new();
            std::mem::swap(&mut monitors, &mut self.monitors);
            monitors.push(m);
            self.monitors = monitors;
            proof {
                assert(info == all[current - 1]);
                assert(monitors_view(self.monitors@) =~= before.push(m@));
                assert(monitors_view(self.monitors@) =~= ms0 + Seq::new(current as nat, |i: int| reported_monitor(all[i], (i + 1) as u32)));
            }
        }
        Ok(())
    }

    /// Places the workspace `id` on monitor `c`.
    fn add_workspace_to_monitor(&mut self, c: usize, id: WorkspaceId)
        requires
            c < old(self).spec_monitors().len(),
        ensures
            final(self).spec_monitors() == old(self).spec_monitors().update(c as int, with_workspace(old(self).spec_monitors()[c as int], id)),
            final(self).spec_workspaces() == old(self).spec_workspaces(),
            final(self).spec_focused() == old(self).spec_focused(),
            final(self).spec_last_client_id() == old(self).spec_last_client_id(),
            final(self).spec_floating_modifier() == old(self).spec_floating_modifier(),
            final(self).spec_dragging() == old(self).spec_dragging(),
            final(self).spec_resizing() == old(self).spec_resizing(),
    {
        proof {
            use_type_invariant(&*self);
        }
        let ghost ms = monitors_view(self.monitors@);
        let mut monitors: Vec<Monitor> = Vec::new();
        std::mem::swap(&mut monitors, &mut self.monitors);
        let mut m = monitors.remove(c);
        m.add_workspace(id);
        monitors.insert(c, m);
        self.monitors = monitors;
        proof {
            assert(monitors_view(self.monitors@) =~= ms.update(c as int, with_workspace(ms[c as int], id)));
        }
    }

    /// Every monitor shows its first workspace (a monitor without workspaces stays as it
    /// is).
    fn open_first_workspaces(&mut self)
        ensures
            final(self).spec_monitors() == old(self).spec_monitors().map_values(|m: MonitorModel| opened(m)),
            final(self).spec_workspaces() == old(self).spec_workspaces(),
            final(self).spec_focused() == old(self).spec_focused(),
            final(self).spec_last_client_id() == old(self).spec_last_client_id(),
            final(self).spec_floating_modifier() == old(self).spec_floating_modifier(),
            final(self).spec_dragging() == old(self).spec_dragging(),
            final(self).spec_resizing() == old(self).spec_resizing(),
    {
        proof {
            use_type_invariant(&*self);
        }
        let ghost ms = monitors_view(self.monitors@);
        let mut monitors: Vec<Monitor> = Vec::new();
        std::mem::swap(&mut monitors, &mut self.monitors);
        let mut i: usize = 0;
        while i < monitors.len()
            invariant
                i <= monitors@.len(),
                monitors@.len() == ms.len(),
                forall|j: int| 0 <= j < i ==> #[trigger] monitors@[j]@ == opened(ms[j]),
                forall|j: int| i <= j < monitors@.len() ==> #[trigger] monitors@[j]@ == ms[j],
            decreases monitors@.len() - i,
        {
            let mut m = monitors.remove(i);
            let _ = m.set_open_workspace(None);
            monitors.insert(i, m);
            proof {
                assert(m@ == opened(ms[i as int]));
            }
            i = i + 1;
        }
        self.monitors = monitors;
        proof {
            assert(monitors_view(self.monitors@) =~= ms.map_values(|m: MonitorModel| opened(m)));
        }
    }

    /// Makes the workspaces the settings describe, in order, each on the monitor it asks
    /// for (of the area of that monitor, its windows children of `root_window`); stops at
    /// the first settings that cannot give a workspace. Then every monitor shows its first
    /// workspace and the first workspace gets the focus, the pointer going to its middle.
    pub fn init_workspaces(&mut self, settings: &Vec<WorkspaceSettings>, root_window: u32) -> (r: Result<FocusPlan, Error>)
        requires
            old(self).spec_workspaces().len() + settings@.len() > 0,
        ensures
            final(self).spec_last_client_id() == old(self).spec_last_client_id(),
            final(self).spec_floating_modifier() == old(self).spec_floating_modifier(),
            final(self).spec_dragging() == old(self).spec_dragging(),
            final(self).spec_resizing() == old(self).spec_resizing(),
            ({
                let ms = old(self).spec_monitors();
                let st = settings@;
                match first_settings_error(st, ms.len()) {
                    Some((k, e)) => r matches Err(x) && x@ == e
                        && workspaces_added(old(self).spec_workspaces(), final(self).spec_workspaces(), st, ms, k as nat)
                        && final(self).spec_monitors() == monitors_with_settings(ms, st, k as nat)
                        && final(self).spec_focused() == old(self).spec_focused(),
                    None => {
                        let ws = final(self).spec_workspaces();
                        let ms1 = monitors_with_settings(ms, st, st.len()).map_values(|m: MonitorModel| opened(m));
                        let step = focus_step(ws, ms1, old(self).spec_focused(), ws[0].spec_id());
                        &&& workspaces_added(old(self).spec_workspaces(), ws, st, ms, st.len())
                        &&& final(self).spec_monitors() == step.monitors
                        &&& final(self).spec_focused() == step.focused
                        &&& match focus_result(ws, ms1, old(self).spec_focused(), ws[0].spec_id(), true) {
                            Ok(t) => r matches Ok(p) && plan_view(p) == t,
                            Err(e) => r matches Err(x) && x@ == e,
                        }
                    },
                }
            }),
    {
        let ghost ws0 = self.spec_workspaces();
        let ghost ms0 = self.spec_monitors();
        let ghost st = settings@;
        let n = self.monitors.len();
        let mut i: usize = 0;
        proof {
            assert(st.subrange(0, 0) =~= Seq::<WorkspaceSettings>::empty());
            lemma_monitors_with_settings_len(ms0, st, 0);
        }
        while i < settings.len()
            invariant
                st == settings@,
                ws0 == old(self).spec_workspaces(),
                ms0 == old(self).spec_monitors(),
                n == ms0.len(),
                i <= st.len(),
                first_settings_error(st.subrange(0, i as int), n as nat) is None,
                workspaces_added(ws0, self.spec_workspaces(), st, ms0, i as nat),
                self.spec_monitors() == monitors_with_settings(ms0, st, i as nat),
                self.spec_focused() == old(self).spec_focused(),
                self.spec_last_client_id() == old(self).spec_last_client_id(),
                self.spec_floating_modifier() == old(self).spec_floating_modifier(),
                self.spec_dragging() == old(self).spec_dragging(),
                self.spec_resizing() == old(self).spec_resizing(),
            decreases st.len() - i,
        {
            proof {
                assert(st.subrange(0, i + 1).drop_last() =~= st.subrange(0, i as int));
                assert(st.subrange(0, i + 1).last() == st[i as int]);
                lemma_monitors_with_settings_len(ms0, st, i as nat);
            }
            let s = &settings[i];
            let layouts = s.allowed_layouts.as_slice();
            assert(layouts@ == st[i as int].allowed_layouts@);
            let mask = match LayoutMask::from_slice(layouts) {
                Ok(m) => m,
                Err(e) => {
                    proof {
                        assert(settings_error(st[i as int], n as nat) is Some);
                        lemma_first_settings_error_prefix(st, i as int, n as nat);
                        assert(first_settings_error(st, n as nat) == Some((i as int, settings_error(st[i as int], n as nat)->Some_0)));
                        assert(e@ == settings_error(st[i as int], n as nat)->Some_0);
                    }
                    return Err(e);
                },
            };
            let index = match parse_usize(s.monitor.as_str()) {
                Ok(v) => v,
                Err(_) => 0,
            };
            assert(index == monitor_index(s.monitor@));
            if index >= self.monitors.len() {
                let m = s.monitor.clone();
                proof {
                    assert(m@ == st[i as int].monitor@);
                    assert(settings_error(st[i as int], n as nat) == Some(ErrorModel::NoMonitorWithIndex(m@)));
                    lemma_first_settings_error_prefix(st, i as int, n as nat);
                }
                return Err(Error::NoMonitorWithIndex(m));
            }
            let screen = self.monitors[index].size();
            proof {
                lemma_monitors_with_settings_sizes(ms0, st, i as nat, index as int);
                assert(self.monitors@[index as int]@ == self.spec_monitors()[index as int]);
            }
            let w = Workspace::new(s.name.clone(), s.identifier, mask, root_window, screen);
            let len = self.workspaces.len();
            let ghost before = self.spec_workspaces();
            self.put_workspace(len, w);
            self.add_workspace_to_monitor(index, s.identifier);
            proof {
                assert(self.spec_workspaces() =~= before.push(w));
                assert(new_workspace_from(w, st[i as int], ms0[monitor_index(st[i as int].monitor@)].size));
                assert(workspaces_added(ws0, self.spec_workspaces(), st, ms0, (i + 1) as nat));
            }
            i = i + 1;
        }
        proof {
            lemma_first_settings_error_prefix(st, st.len() as int, n as nat);
        }
        let ghost ms_placed = self.spec_monitors();
        assert(ms_placed == monitors_with_settings(ms0, st, st.len()));
        self.open_first_workspaces();
        let ghost ws1 = self.spec_workspaces();
        let ghost ms1 = self.spec_monitors();
        assert(ms1 == monitors_with_settings(ms0, st, st.len()).map_values(|m: MonitorModel| opened(m)));
        let first = self.workspaces[0].id();
        let r = self.focus_workspace(first, true);
        assert(self.spec_workspaces() == ws1);
        assert(first == ws1[0].spec_id());
        r
    }
}


/// Only one workspace is the first holding a window.
pub proof fn lemma_first_workspace_unique(ws: Seq<Workspace>, wid: u32, k: int)
    requires
        first_workspace_with(ws, wid, k),
    ensures
        forall|k2: int| #[trigger] first_workspace_with(ws, wid, k2) ==> k2 == k,
        !no_workspace_with(ws, wid),
{
    assert forall|k2: int| #[trigger] first_workspace_with(ws, wid, k2) implies k2 == k by {
        if k2 < k {
            assert(!has_window(ws[k2].containers_view(), wid));
        } else if k2 > k {
            assert(!has_window(ws[k].containers_view(), wid));
        }
    }
    assert(has_window(ws[k].containers_view(), wid));
}

} // verus!

verus! {

/// What has to be done outside the state after an action of a keybind: nothing, run a
/// command (with `/bin/sh -c`), kill the process of a window, load the config
/// again, or what the X server must do after the state changed.
#[derive(Debug)]
pub enum ActionPlan {
    Nothing,
    Execute(String),
    Kill(Option<u32>),
    ReloadConfig,
    Focus(FocusPlan),
    Move(u32, Result<MovePlan, Error>),
    InputFocus(Option<u32>),
    Layout(Vec<LayoutEffect>),
    Float(u32, Vec<LayoutEffect>),
}

/// What an action needs of the workspaces to be carried out: actions that lay a workspace
/// out need at most 65535 containers in every layout, putting a client into a layout needs
/// room for it there, and moving a client needs a container id left.
pub open spec fn action_room(ws: Seq<Workspace>, focused: Option<WorkspaceId>, action: Action) -> bool {
    match action {
        Action::Swap(_) | Action::ChangeLayout(_) | Action::CycleLayout => layout_room(ws),
        Action::ToggleFloat => layout_room(ws) && toggle_room(ws, focused),
        Action::Move(n) => layout_room(ws) && insert_room(ws) && move_room(ws, focused, n as u32),
        _ => true,
    }
}

impl State {
    /// Carries out the action of a keybind on the state and says what else has to be done.
    /// Workspace numbers are taken as 32-bit numbers.
    pub fn do_action(&mut self, action: Action) -> (r: Result<ActionPlan, Error>)
        requires
            action_room(old(self).spec_workspaces(), old(self).spec_focused(), action),
        ensures
            match action {
                Action::Noop => r matches Ok(ActionPlan::Nothing) && unchanged(*old(self), *final(self)),
                Action::Execute(c) => (r matches Ok(ActionPlan::Execute(a)) && a@ == c@)
                    && unchanged(*old(self), *final(self)),
                Action::Kill => unchanged(*old(self), *final(self)) && match focused_index(old(self).spec_workspaces(), old(self).spec_focused()) {
                    None => r matches Err(Error::FocusedWorkspaceMissing),
                    Some(k) => r matches Ok(ActionPlan::Kill(w)) && w == (if old(self).spec_workspaces()[k].spec_focus().len() > 0 {
                        Some(old(self).spec_workspaces()[k].spec_focus()[0])
                    } else {
                        None::<u32>
                    }),
                },
                Action::ReloadConfig => r matches Ok(ActionPlan::ReloadConfig) && unchanged(*old(self), *final(self)),
                Action::Goto(n) => match r {
                    Ok(ActionPlan::Focus(p)) => focus_outcome(*old(self), *final(self), n as u32, true, Ok(p)),
                    Err(x) => focus_outcome(*old(self), *final(self), n as u32, true, Err(x)),
                    _ => false,
                },
                Action::Move(n) => match r {
                    Ok(ActionPlan::Move(w, m)) => move_outcome(*old(self), *final(self), n as u32, Ok((w, m))),
                    Err(x) => move_outcome(*old(self), *final(self), n as u32, Err(x)),
                    _ => false,
                },
                Action::Focus(d) => match r {
                    Ok(ActionPlan::InputFocus(w)) => focus_direction_outcome(*old(self), *final(self), d, Ok(w)),
                    Err(x) => focus_direction_outcome(*old(self), *final(self), d, Err(x)),
                    _ => false,
                },
                Action::ChangeLayout(l) => match r {
                    Ok(ActionPlan::Layout(e)) => change_layout_outcome(*old(self), *final(self), l, Ok(e)),
                    Err(x) => change_layout_outcome(*old(self), *final(self), l, Err(x)),
                    _ => false,
                },
                Action::CycleLayout => match r {
                    Ok(ActionPlan::Layout(e)) => cycle_layout_outcome(*old(self), *final(self), Ok(e)),
                    Err(x) => cycle_layout_outcome(*old(self), *final(self), Err(x)),
                    _ => false,
                },
                Action::ToggleFloat => match r {
                    Ok(ActionPlan::Float(w, e)) => toggle_float_outcome(*old(self), *final(self), Ok((w, e))),
                    Err(x) => toggle_float_outcome(*old(self), *final(self), Err(x)),
                    _ => false,
                },
                Action::Swap(d) => match r {
                    Ok(ActionPlan::Layout(e)) => swap_outcome(*old(self), *final(self), d, Ok(e)),
                    Err(x) => swap_outcome(*old(self), *final(self), d, Err(x)),
                    _ => false,
                },
            },
    {
        match action {
            Action::Noop => Ok(ActionPlan::Nothing),
            Action::Execute(command) => Ok(ActionPlan::Execute(command)),
            Action::Kill => match self.focused_position() {
                Some(k) => Ok(ActionPlan::Kill(self.workspaces[k].focus().focused_client())),
                None => Err(Error::FocusedWorkspaceMissing),
            },
            Action::ReloadConfig => Ok(ActionPlan::ReloadConfig),
            Action::Goto(n) => match self.focus_workspace(n as u32, true) {
                Ok(p) => Ok(ActionPlan::Focus(p)),
                Err(e) => Err(e),
            },
            Action::Move(n) => match self.action_move(n as u32) {
                Ok((w, m)) => Ok(ActionPlan::Move(w, m)),
                Err(e) => Err(e),
            },
            Action::Focus(d) => match self.action_focus(d) {
                Ok(w) => Ok(ActionPlan::InputFocus(w)),
                Err(e) => Err(e),
            },
            Action::ChangeLayout(l) => match self.action_change_layout(l) {
                Ok(e) => Ok(ActionPlan::Layout(e)),
                Err(e) => Err(e),
            },
            Action::CycleLayout => match self.action_cycle_layout() {
                Ok(e) => Ok(ActionPlan::Layout(e)),
                Err(e) => Err(e),
            },
            Action::ToggleFloat => match self.action_toggle_float() {
                Ok((w, e)) => Ok(ActionPlan::Float(w, e)),
                Err(e) => Err(e),
            },
            Action::Swap(d) => match self.action_swap(d) {
                Ok(e) => Ok(ActionPlan::Layout(e)),
                Err(e) => Err(e),
            },
        }
    }
}

} // verus!
