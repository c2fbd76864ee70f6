use crubwm::config::bar_settings::AllBarSettings;
use crubwm::config::keybinds::Keybinds;
use crubwm::config::options::Options;
use crubwm::config::workspace_settings::AllWorkspaceSettings;
use crubwm::config::{Config, Repr};
use crubwm::error::Error;
use crubwm::numbers::{decimal_string, parse_u32};
use crubwm::wm::actions::{Action, Direction};
use crubwm::wm::container::{Client, ContainerId, ContainerList, CT_MASK_TILING};
use crubwm::wm::focus_stack::FocusStack;
use crubwm::wm::geometry::Geometry;
use crubwm::wm::monitors::{Monitor, MonitorInfo};
use crubwm::wm::state::State;
use crubwm::wm::workspace::Workspace;

fn client(window: u32) -> Client {
    Client::new_without_process_id(window, Geometry { x: 0, y: 0, width: 10, height: 10 }, window as u64, &Config::default())
}

fn windows(l: &ContainerList) -> Vec<u32> {
    l.iter().iter().filter_map(|c| c.data().window_id()).collect()
}

fn list_of(ws: &[u32]) -> (ContainerList, Vec<crubwm::wm::container::ContainerId>) {
    let mut l = ContainerList::new(1);
    let ids = ws.iter().map(|w| l.insert_back(client(*w), CT_MASK_TILING)).collect();
    (l, ids)
}

#[test]
fn swapping_twice_restores_the_order() {
    let (mut l, ids) = list_of(&[1, 2, 3]);
    l.swap(ids[0], ids[2]).unwrap();
    assert_eq!(windows(&l), vec![3, 2, 1]);
    l.swap(ids[0], ids[2]).unwrap();
    assert_eq!(windows(&l), vec![1, 2, 3]);
}

#[test]
fn an_inserted_container_is_found_by_its_id() {
    let (l, ids) = list_of(&[4, 5]);
    assert_eq!(l.find(ids[1]).unwrap().data().window_id(), Some(5));
    assert_eq!(ids[1].container(), 2);
    assert_eq!(ids[1].workspace(), 1);
}

#[test]
fn removing_undoes_inserting() {
    let (mut l, _) = list_of(&[4, 5]);
    let id = l.insert_back(client(6), CT_MASK_TILING);
    let removed = l.remove(id).unwrap();
    assert_eq!(removed.data().window_id(), Some(6));
    assert_eq!(windows(&l), vec![4, 5]);
    assert!(matches!(l.remove(id), Err(Error::UnableToRemove(_)) | Err(Error::ContainerNotFound(_))));
}

#[test]
fn next_then_previous_comes_back() {
    let (l, ids) = list_of(&[1, 2, 3]);
    for id in &ids {
        let next = *l.next_for_id(*id).unwrap().id();
        assert_eq!(*l.previous_for_id(next).unwrap().id(), *id);
    }
    assert_eq!(*l.next_for_id(ids[2]).unwrap().id(), ids[0]);
}

#[test]
fn a_focused_client_is_on_top_once() {
    let mut f = FocusStack::new();
    f.set_focused_client(1);
    f.set_focused_client(2);
    f.set_focused_client(1);
    assert_eq!(f.focused_client(), Some(1));
    assert_eq!(f.previously_focused_client(), Some(2));
    f.remove_client(1);
    assert_eq!(f.focused_client(), Some(2));
    assert_eq!(f.previously_focused_client(), None);
    f.remove_client(1);
    assert_eq!(f.focused_client(), Some(2));
}

#[test]
fn a_placed_workspace_can_be_shown() {
    let info = MonitorInfo { x: 0, y: 0, width: 800, height: 600, outputs: vec![] };
    let mut m = Monitor::from_monitor_info(info, 1).unwrap();
    assert!(matches!(m.set_open_workspace(Some(3)), Err(Error::WorkspaceNotOnMonitor)));
    m.add_workspace(3);
    m.add_workspace(3);
    m.set_open_workspace(Some(3)).unwrap();
    assert_eq!(m.get_open_workspace().unwrap(), 3);
    assert!(m.contains(&3));
}

#[test]
fn cycling_visits_every_allowed_layout() {
    let g = Geometry { x: 0, y: 0, width: 100, height: 100 };
    let mut w = Workspace::new(String::from("w"), 1, 15, 0, g);
    let start = w.layout().mask();
    let mut seen = vec![start];
    for _ in 0..4 {
        w.cycle_layout().unwrap();
        seen.push(w.layout().mask());
    }
    assert_eq!(seen, vec![1, 2, 4, 8, 1]);
    let mut none = Workspace::new(String::from("n"), 2, 0, 0, g);
    assert!(matches!(none.cycle_layout(), Err(Error::NoLayouts)));
}

#[test]
fn setting_an_option_twice_is_setting_it_once() {
    let mut once = Options::default();
    once.add(String::from("border_up_size"), String::from("4")).unwrap();
    let mut twice = Options::default();
    twice.add(String::from("border_up_size"), String::from("4")).unwrap();
    twice.add(String::from("border_up_size"), String::from("4")).unwrap();
    assert_eq!(once.border_up_size, twice.border_up_size);
    assert_eq!(twice.border_up_size, 4);
}

#[test]
fn an_added_keybind_is_the_last() {
    let mut k = Keybinds::default();
    let n = k.0.len();
    k.add(String::from("<Mod><Shift>z"), String::from("execute firefox")).unwrap();
    assert_eq!(k.0.len(), n + 1);
    assert!(matches!(k.0.last().unwrap().action, Action::Execute(ref c) if c == "firefox"));
    k.add(String::from("<Mod><Shift>z"), String::from("execute firefox")).unwrap();
    assert_eq!(k.0.len(), n + 1);
}

#[test]
fn bar_identifiers_stay_unique() {
    let mut b = AllBarSettings(Vec::new());
    b.add(1, String::from("font_size"), vec![String::from("12")]).unwrap();
    b.add(1, String::from("font_size"), vec![String::from("14")]).unwrap();
    b.add(2, String::from("font_size"), vec![String::from("10")]).unwrap();
    let ids: Vec<u32> = b.0.iter().map(|s| s.identifier).collect();
    assert_eq!(ids, vec![1, 2]);
    assert_eq!(b.0[0].font_size, 14);
}

#[test]
fn workspace_settings_keep_their_identifiers() {
    let mut w = AllWorkspaceSettings::default();
    w.add(4, String::from("monitor"), vec![String::from("1")]).unwrap();
    assert!(matches!(w.add(11, String::from("name"), vec![String::from("x")]), Err(Error::NoSuchWorkspace(11))));
    assert!(matches!(w.add(4, String::from("colour"), vec![String::from("x")]), Err(Error::UnknownWorkspaceSetting(_))));
    let ids: Vec<u32> = w.into_inner().iter().map(|s| s.identifier).collect();
    assert_eq!(ids, (1..=10).collect::<Vec<u32>>());
}

#[test]
fn decimals_read_back() {
    for n in [0u32, 9, 10, 65535, u32::MAX] {
        assert_eq!(parse_u32(&decimal_string(n as u64)).unwrap(), n);
    }
}

#[test]
fn direction_words_read_back() {
    for d in [Direction::Next, Direction::Previous] {
        let word = d.repr().unwrap();
        assert_eq!(Direction::try_from_str(&word).unwrap(), d);
    }
    assert!(matches!(Direction::try_from_str("up"), Err(Error::InvalidDirection)));
}

fn floating_state() -> (State, Geometry) {
    let mut state = State::new();
    state.setup_monitors(vec![MonitorInfo { x: 0, y: 0, width: 1000, height: 800, outputs: vec![] }]).unwrap();
    state.init_workspaces(&AllWorkspaceSettings::default().into_inner(), 1).unwrap();
    let config = Config::default();
    state.manage_window(9, Geometry { x: 0, y: 0, width: 300, height: 200 }, 1, 1, &config).unwrap();
    state.action_toggle_float().unwrap();
    let g = state.workspaces()[0].iter_containers().unwrap()[0].data().geometry();
    (state, g)
}

#[test]
fn focusing_the_focused_workspace_changes_nothing() {
    let (mut state, _) = floating_state();
    let plan = state.focus_workspace(1, true).unwrap();
    assert!(plan.unmap.is_empty() && plan.map.is_empty() && plan.warp.is_none());
    state.focus_workspace(5, false).unwrap();
    assert_eq!(state.focused_workspace(), Some(5));
}

#[test]
fn a_drag_ending_where_it_began_moves_nothing() {
    let (mut state, g) = floating_state();
    state.handle_button_press(9, 1, 40, 40).unwrap();
    assert_eq!(state.handle_button_release(9, 1, 40, 40).unwrap(), Some((9, g)));
}

#[test]
fn a_resize_ending_where_it_began_keeps_the_size() {
    let (mut state, g) = floating_state();
    state.handle_button_press(9, 3, 40, 40).unwrap();
    assert_eq!(state.handle_button_release(9, 3, 40, 40).unwrap(), Some((9, g)));
}

#[test]
fn drags_are_symmetric() {
    let (mut a, g) = floating_state();
    a.handle_button_press(9, 1, 100, 100).unwrap();
    let (_, right) = a.handle_motion_notify(9, 110, 100).unwrap().unwrap();
    let (mut b, _) = floating_state();
    b.handle_button_press(9, 1, 100, 100).unwrap();
    let (_, left) = b.handle_motion_notify(9, 90, 100).unwrap().unwrap();
    assert_eq!(right.x - g.x, 15);
    assert_eq!(g.x - left.x, 15);
    let (mut c, g2) = floating_state();
    c.handle_button_press(9, 1, 100, 100).unwrap();
    let (_, still) = c.handle_motion_notify(9, 100, 100).unwrap().unwrap();
    assert_eq!(still, g2);
}

#[test]
fn geometry_without_a_strip() {
    let screen = Geometry { x: 0, y: 0, width: 1920, height: 1080 };
    let bar = Geometry { x: 0, y: 0, width: 1920, height: 20 };
    assert_eq!(screen.sub(bar), Geometry { x: 0, y: 20, width: 1920, height: 1060 });
    let odd = Geometry { x: 10, y: 0, width: 5, height: 30 };
    assert_eq!(Geometry { x: 0, y: 0, width: 4, height: 20 }.sub(odd), Geometry { x: 10, y: 30, width: 65530, height: 65526 });
}

#[test]
fn a_plain_font_name_is_the_family() {
    let f = crubwm::utils::font_from_str("DejaVu Sans Mono").unwrap();
    assert_eq!(f.family, "DejaVu Sans Mono");
    assert_eq!(f.slant, crubwm::utils::FontSlant::Normal);
    assert_eq!(f.weight, crubwm::utils::FontWeight::Normal);
}

#[test]
fn toggling_twice_gives_the_container_back() {
    let (mut state, _) = floating_state();
    let before = state.workspaces()[0].iter_containers().unwrap()[0];
    state.action_toggle_float().unwrap();
    state.action_toggle_float().unwrap();
    let after = state.workspaces()[0].iter_containers().unwrap()[0];
    assert_eq!(before.data().window_id(), after.data().window_id());
    assert_eq!(before.is_floating(), after.is_floating());
    assert_eq!(before.id(), after.id());
}

#[test]
fn short_message_bytes_come_first() {
    match crubwm::wm::atoms::client_message_data(8, &[9, 8, 7]).unwrap() {
        crubwm::wm::atoms::ClientMessageData::Bytes(v) => {
            assert_eq!(v.len(), 20);
            assert_eq!(&v[..3], &[9, 8, 7]);
        },
        _ => panic!("wrong format"),
    }
}

#[test]
fn action_text_reads_back() {
    let actions = vec![
        Action::Goto(3),
        Action::Move(12),
        Action::Focus(Direction::Previous),
        Action::Swap(Direction::Next),
        Action::Execute(String::from("alacritty")),
        Action::ChangeLayout(String::from("tiling_equal_vertical")),
        Action::Noop,
        Action::Kill,
        Action::CycleLayout,
        Action::ToggleFloat,
        Action::ReloadConfig,
    ];
    for a in actions {
        let text = a.repr().unwrap();
        let back = Action::from_str(text).unwrap();
        assert!(back.same_as(&a));
    }
    let spaced = Action::Execute(String::from("xterm -e top")).repr().unwrap();
    assert!(Action::from_str(spaced).unwrap().same_as(&Action::Execute(String::from("xterm -e top"))));
}

#[test]
fn container_ids_from_pairs() {
    let id = ContainerId::new(3, 7);
    assert_eq!(id.workspace(), 3);
    assert_eq!(id.container(), 7);
    assert_eq!(ContainerId::from((3u32, 7u32)), id);
}

#[test]
fn inserting_many_is_inserting_one_by_one() {
    let g = Geometry { x: 0, y: 0, width: 100, height: 100 };
    let mut many = Workspace::new(String::from("m"), 1, 15, 0, g);
    let mut single = Workspace::new(String::from("s"), 1, 15, 0, g);
    let ids = many.insert_many(vec![client(1), client(2), client(3)], vec![CT_MASK_TILING, CT_MASK_TILING]);
    let a = single.insert_client(client(1), CT_MASK_TILING);
    let b = single.insert_client(client(2), CT_MASK_TILING);
    assert_eq!(ids, vec![a, b]);
    assert_ne!(a, b);
    let m = many.iter_containers().unwrap();
    let s = single.iter_containers().unwrap();
    assert_eq!(m.len(), s.len());
    for (x, y) in m.iter().zip(s.iter()) {
        assert_eq!(x.id(), y.id());
        assert_eq!(x.container_type.window_id(), y.container_type.window_id());
    }
}
