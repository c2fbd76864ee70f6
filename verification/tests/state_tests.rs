use crubwm::config::workspace_settings::AllWorkspaceSettings;
use crubwm::config::Config;
use crubwm::error::Error;
use crubwm::wm::actions::{Action, Direction};
use crubwm::wm::container::ContainerType;
use crubwm::wm::geometry::Geometry;
use crubwm::wm::monitors::MonitorInfo;
use crubwm::wm::state::{ActionPlan, State};
use crubwm::wm::workspace::Workspace;

fn screen() -> MonitorInfo {
    MonitorInfo { x: 0, y: 0, width: 1920, height: 1080, outputs: vec![7] }
}

fn geom(x: i16, y: i16, width: u16, height: u16) -> Geometry {
    Geometry { x, y, width, height }
}

/// A state with one monitor and the ten default workspaces, workspace 1 focused.
fn started() -> State {
    let mut state = State::new();
    state.setup_monitors(vec![screen()]).unwrap();
    let settings = AllWorkspaceSettings::default().into_inner();
    state.init_workspaces(&settings, 1).unwrap();
    state
}

fn workspace(state: &State, id: u32) -> &Workspace {
    state.workspaces().iter().find(|w| w.id() == id).unwrap()
}

fn windows(w: &Workspace) -> Vec<u32> {
    w.iter_containers().unwrap().iter().filter_map(|c| c.data().window_id()).collect()
}

#[test]
fn new_state_is_empty() {
    let state = State::new();
    assert!(state.workspaces().is_empty());
    assert!(state.monitors().is_empty());
    assert_eq!(state.focused_workspace(), None);
    assert_eq!(state.floating_modifier(), 64);
    assert!(!state.is_dragging());
    assert!(!state.is_resizing());
}

#[test]
fn monitors_are_numbered_from_one() {
    let mut state = State::new();
    state
        .setup_monitors(vec![screen(), MonitorInfo { x: 1920, y: 0, width: 1280, height: 1024, outputs: vec![] }])
        .unwrap();
    assert_eq!(state.monitors().len(), 2);
    assert_eq!(state.monitors()[0].id(), 1);
    assert_eq!(state.monitors()[1].id(), 2);
    assert_eq!(state.monitors()[1].size(), geom(1920, 0, 1280, 1024));
}

#[test]
fn init_focuses_first_workspace_and_warps_to_its_middle() {
    let mut state = State::new();
    state.setup_monitors(vec![screen()]).unwrap();
    let settings = AllWorkspaceSettings::default().into_inner();
    let plan = state.init_workspaces(&settings, 1).unwrap();
    assert_eq!(plan.warp, Some((960, 540)));
    assert!(plan.unmap.is_empty());
    assert!(plan.map.is_empty());
    assert_eq!(state.workspaces().len(), 10);
    assert_eq!(state.focused_workspace(), Some(1));
    assert_eq!(state.monitors()[0].get_open_workspace().unwrap(), 1);
    assert!(state.monitors()[0].is_focused());
    assert!(state.monitors()[0].contains(&10));
}

#[test]
fn init_refuses_a_missing_monitor() {
    let mut state = State::new();
    state.setup_monitors(vec![screen()]).unwrap();
    let mut settings = AllWorkspaceSettings::default().into_inner();
    settings[2].monitor = String::from("3");
    let r = state.init_workspaces(&settings, 1);
    assert!(matches!(r, Err(Error::NoMonitorWithIndex(ref m)) if m == "3"));
    assert_eq!(state.workspaces().len(), 2);
    assert_eq!(state.focused_workspace(), None);
}

#[test]
fn init_refuses_an_unknown_layout() {
    let mut state = State::new();
    state.setup_monitors(vec![screen()]).unwrap();
    let mut settings = AllWorkspaceSettings::default().into_inner();
    settings[0].allowed_layouts = vec![String::from("spiral")];
    let r = state.init_workspaces(&settings, 1);
    assert!(matches!(r, Err(Error::UnknownLayout(ref m)) if m == "spiral"));
    assert!(state.workspaces().is_empty());
}

#[test]
fn focus_on_no_monitor_is_an_error() {
    let mut state = State::new();
    assert!(matches!(state.focus_workspace(3, false), Err(Error::NoMonitors)));
}

#[test]
fn goto_unmaps_old_and_maps_new_windows() {
    let mut state = started();
    let config = Config::default();
    state.manage_window(100, geom(0, 0, 300, 200), 10, 10, &config).unwrap();
    let plan = state.focus_workspace(2, true).unwrap();
    assert_eq!(plan.unmap, vec![100]);
    assert!(plan.map.is_empty());
    assert_eq!(plan.warp, Some((960, 540)));
    assert_eq!(state.focused_workspace(), Some(2));
    let back = state.focus_workspace(1, false).unwrap();
    assert!(back.unmap.is_empty());
    assert_eq!(back.map, vec![100]);
    assert_eq!(back.warp, None);
    let again = state.focus_workspace(1, true).unwrap();
    assert!(again.unmap.is_empty() && again.map.is_empty() && again.warp.is_none());
}

#[test]
fn managed_windows_are_laid_out_and_focused() {
    let mut state = started();
    let config = Config::default();
    let plan = state.manage_window(100, geom(0, 0, 300, 200), 10, 10, &config).unwrap();
    assert!(plan.focus.unmap.is_empty());
    assert!(!plan.effects.is_empty());
    state.manage_window(101, geom(0, 0, 300, 200), 10, 10, &config).unwrap();
    let w = workspace(&state, 1);
    assert_eq!(windows(w), vec![100, 101]);
    assert_eq!(w.focus().focused_client(), Some(101));
    assert_eq!(w.focus().previously_focused_client(), Some(100));
    let cs = w.iter_containers().unwrap();
    assert_eq!(cs[0].data().geometry().width + cs[1].data().geometry().width, 1920);
}

#[test]
fn managing_outside_every_monitor_is_an_error() {
    let mut state = started();
    let config = Config::default();
    let r = state.manage_window(100, geom(0, 0, 300, 200), 3000, 10, &config);
    assert!(matches!(r, Err(Error::CursorOutsideWorkspaces)));
    assert!(windows(workspace(&state, 1)).is_empty());
}

#[test]
fn cursor_finds_open_workspace() {
    let state = started();
    assert_eq!(state.workspace_under_cursor(1920, 1080).unwrap(), 1);
    assert!(matches!(state.workspace_under_cursor(-1, 0), Err(Error::CursorOutsideWorkspaces)));
}

#[test]
fn manage_many_windows_at_once() {
    let mut state = started();
    let config = Config::default();
    let effects = state
        .manage_windows(vec![(1, geom(0, 0, 10, 10)), (2, geom(0, 0, 10, 10)), (3, geom(0, 0, 10, 10))], &config)
        .unwrap();
    assert!(!effects.is_empty());
    assert_eq!(windows(workspace(&state, 1)), vec![1, 2, 3]);
    assert_eq!(state.new_client_id(), 4);
}

#[test]
fn focus_moves_round_the_workspace() {
    let mut state = started();
    let config = Config::default();
    for w in [100, 101, 102] {
        state.manage_window(w, geom(0, 0, 300, 200), 10, 10, &config).unwrap();
    }
    assert_eq!(state.action_focus(Direction::Next).unwrap(), Some(100));
    assert_eq!(state.action_focus(Direction::Previous).unwrap(), Some(102));
    assert_eq!(workspace(&state, 1).focus().focused_client(), Some(102));
}

#[test]
fn swap_exchanges_neighbours() {
    let mut state = started();
    let config = Config::default();
    for w in [100, 101, 102] {
        state.manage_window(w, geom(0, 0, 300, 200), 10, 10, &config).unwrap();
    }
    state.action_swap(Direction::Previous).unwrap();
    assert_eq!(windows(workspace(&state, 1)), vec![100, 102, 101]);
    state.action_swap(Direction::Next).unwrap();
    assert_eq!(windows(workspace(&state, 1)), vec![100, 101, 102]);
}

#[test]
fn swap_without_focus_does_nothing() {
    let mut state = started();
    let effects = state.action_swap(Direction::Next).unwrap();
    assert!(effects.is_empty());
}

#[test]
fn toggle_float_and_back() {
    let mut state = started();
    let config = Config::default();
    state.manage_window(100, geom(0, 0, 300, 200), 10, 10, &config).unwrap();
    let (w, _) = state.action_toggle_float().unwrap();
    assert_eq!(w, 100);
    assert!(workspace(&state, 1).iter_containers().unwrap()[0].is_floating());
    state.action_toggle_float().unwrap();
    assert!(workspace(&state, 1).iter_containers().unwrap()[0].is_in_layout());
}

#[test]
fn toggle_float_without_focus_is_an_error() {
    let mut state = started();
    assert!(matches!(state.action_toggle_float(), Err(Error::NoFocusedClient)));
}

#[test]
fn change_and_cycle_layout() {
    let mut state = started();
    // Every layout is allowed: the layout named is taken.
    state.action_change_layout(String::from("TilingMasterStack")).unwrap();
    assert_eq!(workspace(&state, 1).layout().mask(), 4);
    assert!(matches!(state.action_change_layout(String::from("spiral")), Err(Error::UnknownLayout(_))));
    state.action_cycle_layout().unwrap();
    assert_eq!(workspace(&state, 1).layout().mask(), 8);
    state.action_change_layout(String::from("tiling_equal_horizontal")).unwrap();
    assert_eq!(workspace(&state, 1).layout().mask(), 1);
    state.action_change_layout(String::from("stacking")).unwrap();
    assert_eq!(workspace(&state, 1).layout().mask(), 8);
}

#[test]
fn move_sends_focused_client_away() {
    let mut state = started();
    let config = Config::default();
    state.manage_window(100, geom(0, 0, 300, 200), 10, 10, &config).unwrap();
    state.manage_window(101, geom(0, 0, 300, 200), 10, 10, &config).unwrap();
    let (w, plan) = state.action_move(3).unwrap();
    assert_eq!(w, 101);
    let plan = plan.unwrap();
    assert!(matches!(plan.shown, Ok(false)));
    assert_eq!(windows(workspace(&state, 1)), vec![100]);
    assert_eq!(windows(workspace(&state, 3)), vec![101]);
    assert!(!plan.source.is_empty());
}

#[test]
fn move_errors() {
    let mut state = started();
    assert!(matches!(state.action_move(3), Err(Error::NoFocusedClient)));
    let config = Config::default();
    state.manage_window(100, geom(0, 0, 300, 200), 10, 10, &config).unwrap();
    assert!(matches!(state.action_move(42), Err(Error::NoWorkspaceWithId(42))));
}

#[test]
fn unmanage_gives_focus_back() {
    let mut state = started();
    let config = Config::default();
    state.manage_window(100, geom(0, 0, 300, 200), 10, 10, &config).unwrap();
    state.manage_window(101, geom(0, 0, 300, 200), 10, 10, &config).unwrap();
    let (effects, focus) = state.unmanage_window(101);
    assert!(!effects.is_empty());
    assert_eq!(focus.unwrap(), Some(100));
    assert_eq!(windows(workspace(&state, 1)), vec![100]);
    assert_eq!(workspace(&state, 1).focus().focused_client(), Some(100));
}

#[test]
fn unmanage_of_unknown_window_changes_no_layout() {
    let mut state = started();
    let (effects, focus) = state.unmanage_window(55);
    assert!(effects.is_empty());
    assert_eq!(focus.unwrap(), None);
}

#[test]
fn enter_focuses_the_window() {
    let mut state = started();
    let config = Config::default();
    state.manage_window(100, geom(0, 0, 300, 200), 10, 10, &config).unwrap();
    state.manage_window(101, geom(0, 0, 300, 200), 10, 10, &config).unwrap();
    state.handle_enter_event(100).unwrap();
    assert_eq!(workspace(&state, 1).focus().focused_client(), Some(100));
    assert_eq!(state.handle_focus_in(101), Some(100));
    assert_eq!(state.handle_focus_in(999), None);
}

#[test]
fn enter_without_focused_workspace_is_an_error() {
    let mut state = State::new();
    assert!(matches!(state.handle_enter_event(1), Err(Error::FocusedWorkspaceMissing)));
}

#[test]
fn drag_moves_one_and_a_half_times_the_pointer() {
    let mut state = started();
    let config = Config::default();
    state.manage_window(100, geom(0, 0, 300, 200), 10, 10, &config).unwrap();
    state.action_toggle_float().unwrap();
    let before = workspace(&state, 1).iter_containers().unwrap()[0].data().geometry();
    state.handle_button_press(100, 1, 50, 50).unwrap();
    assert!(state.is_dragging());
    let (w, g) = state.handle_motion_notify(100, 60, 70).unwrap().unwrap();
    assert_eq!(w, 100);
    assert_eq!(g.x, before.x + 15);
    assert_eq!(g.y, before.y + 30);
    assert_eq!(g.width, before.width);
    let released = state.handle_button_release(100, 1, 60, 70).unwrap();
    assert_eq!(released, Some((100, g)));
    assert!(!state.is_dragging());
}

#[test]
fn resize_stops_at_the_smallest_size() {
    let mut state = started();
    let config = Config::default();
    state.manage_window(100, geom(0, 0, 300, 200), 10, 10, &config).unwrap();
    state.action_toggle_float().unwrap();
    let before = workspace(&state, 1).iter_containers().unwrap()[0].data().geometry();
    state.handle_button_press(100, 3, 500, 500).unwrap();
    assert!(state.is_resizing());
    let (_, g) = state.handle_motion_notify(100, 510, 520).unwrap().unwrap();
    assert_eq!(g.width, before.width + 10);
    assert_eq!(g.height, before.height + 20);
    // The last position seen is now (520, 540); this step asks for a width of 100.
    let x = 520 - (g.width as i16 - 100);
    let shrink = state.handle_motion_notify(100, x, 540).unwrap();
    assert!(shrink.is_none());
    let r = state.handle_button_release(100, 3, x, 540).unwrap();
    assert!(r.is_none());
    assert!(!state.is_resizing());
}

#[test]
fn pointer_events_on_tiled_windows_do_nothing() {
    let mut state = started();
    let config = Config::default();
    state.manage_window(100, geom(0, 0, 300, 200), 10, 10, &config).unwrap();
    state.handle_button_press(100, 1, 5, 5).unwrap();
    assert!(!state.is_dragging());
    assert!(state.handle_motion_notify(100, 9, 9).unwrap().is_none());
    assert!(matches!(state.handle_button_press(7, 1, 5, 5), Err(Error::NoWorkspaceForWindow(7))));
}

#[test]
fn container_content_changes_in_place() {
    let mut state = started();
    let config = Config::default();
    state.manage_window(100, geom(0, 0, 300, 200), 10, 10, &config).unwrap();
    let mut c = workspace(&state, 1).iter_containers().unwrap()[0];
    *c.data_mut() = ContainerType::Empty(geom(1, 2, 3, 4));
    assert_eq!(c.data().geometry(), geom(1, 2, 3, 4));
    assert_eq!(c.data().window_id(), None);
}

#[test]
fn actions_are_dispatched() {
    let mut state = started();
    let config = Config::default();
    state.manage_window(100, geom(0, 0, 300, 200), 10, 10, &config).unwrap();
    assert!(matches!(state.do_action(Action::Noop), Ok(ActionPlan::Nothing)));
    assert!(matches!(state.do_action(Action::ReloadConfig), Ok(ActionPlan::ReloadConfig)));
    match state.do_action(Action::Execute(String::from("xterm -e top"))).unwrap() {
        ActionPlan::Execute(command) => assert_eq!(command, "xterm -e top"),
        other => panic!("unexpected plan {:?}", other),
    }
    assert!(matches!(state.do_action(Action::Kill), Ok(ActionPlan::Kill(Some(100)))));
    match state.do_action(Action::Goto(4)).unwrap() {
        ActionPlan::Focus(p) => assert_eq!(p.unmap, vec![100]),
        other => panic!("unexpected plan {:?}", other),
    }
    assert_eq!(state.focused_workspace(), Some(4));
    assert!(matches!(state.do_action(Action::Kill), Ok(ActionPlan::Kill(None))));
    assert!(matches!(state.do_action(Action::Goto(77)), Err(Error::WorkspaceOnNoMonitor)));
    assert!(matches!(state.do_action(Action::CycleLayout), Ok(ActionPlan::Layout(_))));
    assert!(matches!(state.do_action(Action::ToggleFloat), Err(Error::NoFocusedClient)));
}

#[test]
fn room_for_more_windows() {
    let mut state = started();
    assert!(state.has_layout_room());
    assert!(state.has_insert_room());
    assert_eq!(state.last_client_id(), 0);
    let config = Config::default();
    state.manage_window(100, geom(0, 0, 300, 200), 10, 10, &config).unwrap();
    assert_eq!(state.last_client_id(), 1);
    assert!(state.workspaces()[0].has_room_for_container());
    assert!(state.has_grow_room(1));
    assert!(state.has_toggle_room());
    assert!(state.has_move_room(2));
    assert!(state.has_action_room(&Action::Noop));
    assert!(state.has_action_room(&Action::ToggleFloat));
    assert!(state.has_action_room(&Action::Move(2)));
}

#[test]
fn floating_modifier_can_be_changed() {
    let mut state = started();
    state.set_floating_modifier(8);
    assert_eq!(state.floating_modifier(), 8);
}
