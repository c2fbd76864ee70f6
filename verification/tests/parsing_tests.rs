use crubwm::config::keybinds::Keybinds;
use crubwm::config::options::Options;
use crubwm::config::workspace_settings::AllWorkspaceSettings;
use crubwm::error::{Error, IntErrorKind};
use crubwm::numbers::{decimal_string, parse_bool, parse_u32, parse_usize};
use crubwm::parsers::{split_lines, ConfigParser};
use crubwm::text::{join_strings, split_char, str_eq, to_lowercase, trim_string, utf8_string};
use crubwm::utils::{color_bytes, font_from_str, parse_border_color, FontSlant, FontWeight};
use crubwm::wm::actions::{Action, Direction};
use crubwm::wm::layouts::{LayoutMask, LayoutType};
use crubwm::wm::geometry::Geometry;
use crubwm::wm::workspace::Workspace;
use crubwm::config::Config;

#[test]
fn lowercase_of_ascii() {
    assert_eq!(to_lowercase("TilingMasterStack"), "tilingmasterstack");
    assert_eq!(to_lowercase("ok"), "ok");
}

#[test]
fn string_equality_and_pushing() {
    assert!(str_eq("abc", "abc"));
    assert!(!str_eq("abc", "abd"));
    let mut s = String::new();
    crubwm::text::push_char(&mut s, 'x');
    crubwm::text::push_char(&mut s, 'y');
    assert_eq!(s, "xy");
}

#[test]
fn utf8_bytes_read_back() {
    assert_eq!(utf8_string("héllo".as_bytes()), Some(String::from("héllo")));
    assert_eq!(utf8_string(&[0xc3]), None);
    assert_eq!(utf8_string(&[]), Some(String::new()));
}

#[test]
fn splitting_joining_trimming() {
    assert_eq!(split_char("a:b::c", ':'), vec!["a", "b", "", "c"]);
    assert_eq!(split_char("", ':'), vec![""]);
    let parts = vec![String::from("x"), String::from("y")];
    assert_eq!(join_strings(&parts, ", "), "x, y");
    assert_eq!(trim_string("  a b \t"), "a b");
    assert_eq!(split_lines("one\ntwo\r\nthree\n"), vec!["one", "two", "three"]);
}

#[test]
fn numbers_read_as_std_does() {
    assert_eq!(parse_u32("4294967295").unwrap(), u32::MAX);
    assert!(matches!(parse_u32("4294967296"), Err(Error::ParseInt(IntErrorKind::PosOverflow))));
    assert!(matches!(parse_u32(""), Err(Error::ParseInt(IntErrorKind::Empty))));
    assert!(matches!(parse_u32("12a"), Err(Error::ParseInt(IntErrorKind::InvalidDigit))));
    assert_eq!(parse_u32("+7").unwrap(), 7);
    assert_eq!(parse_usize("0").unwrap(), 0);
    assert!(parse_bool("true").unwrap());
    assert!(!parse_bool("false").unwrap());
    assert!(matches!(parse_bool("True"), Err(Error::ParseBool)));
}

#[test]
fn decimal_strings() {
    assert_eq!(decimal_string(0), "0");
    assert_eq!(decimal_string(1234567890), "1234567890");
    assert_eq!(decimal_string(u64::MAX), u64::MAX.to_string());
}

#[test]
fn border_colors() {
    assert_eq!(parse_border_color("#ff8000"), 0xff8000);
    assert_eq!(parse_border_color("#FF8000"), 0xff8000);
    assert_eq!(parse_border_color("ff8000"), 0);
    assert_eq!(parse_border_color("#ff80"), 0);
    assert_eq!(parse_border_color("#gg8000"), 0);
}

#[test]
fn color_bytes_of_a_hex_color() {
    assert_eq!(color_bytes("#ff8000").unwrap(), (255, 128, 0));
    assert_eq!(color_bytes("#282828ff").unwrap(), (40, 40, 40));
    assert_eq!(color_bytes("#+f0a0b").unwrap(), (15, 10, 11));
    assert!(matches!(color_bytes("282828"), Err(Error::InvalidColor(ref c)) if c == "282828"));
    assert!(matches!(color_bytes("#zz0000"), Err(Error::ParseInt(IntErrorKind::InvalidDigit))));
    assert!(matches!(color_bytes("#0é0000"), Err(Error::InvalidUtf8)));
}

#[test]
fn fonts() {
    let f = font_from_str("monospace:slant=Italic:weight=bold").unwrap();
    assert_eq!(f.family, "monospace");
    assert_eq!(f.slant, FontSlant::Italic);
    assert_eq!(f.weight, FontWeight::Bold);
    let g = font_from_str("slant=oblique:serif:weight=heavy").unwrap();
    assert_eq!(g.family, "serif");
    assert_eq!(g.slant, FontSlant::Oblique);
    assert_eq!(g.weight, FontWeight::Normal);
    assert!(matches!(font_from_str("sans:size=12"), Err(Error::InvalidFontProperty(ref p)) if p == "size"));
    let plain = font_from_str("").unwrap();
    assert_eq!(plain.family, "");
}

#[test]
fn options_are_set_and_checked() {
    let mut o = Options::default();
    o.add(String::from("gap_top_size"), String::from("12")).unwrap();
    assert_eq!(o.gap_top_size, 12);
    o.add(String::from("border_color"), String::from("#123456")).unwrap();
    assert_eq!(o.border_color, "#123456");
    assert!(matches!(o.add(String::from("gap_top"), String::from("yes")), Err(_)));
    assert!(matches!(o.add(String::from("wobble"), String::from("1")), Err(Error::UnknownOption(_))));
    assert_eq!(o.gap_top_size, 12);
}

#[test]
fn keybinds_replace_clashing_keys() {
    let mut k = Keybinds(Vec::new());
    k.add(String::from("<Mod>k"), String::from("kill")).unwrap();
    k.add(String::from("<Mod>k"), String::from("goto 3")).unwrap();
    assert_eq!(k.0.len(), 1);
    assert!(matches!(k.0[0].action, Action::Goto(3)));
    assert!(matches!(k.add(String::from("<Mod>j"), String::from("focus up")), Err(_)));
    k.add(String::from("<Mod>l"), String::from("focus next")).unwrap();
    assert!(matches!(k.0[1].action, Action::Focus(Direction::Next)));
}

#[test]
fn default_keybinds_count() {
    assert_eq!(Keybinds::default().0.len(), 29);
}

#[test]
fn workspace_settings_are_changed_by_identifier() {
    let mut w = AllWorkspaceSettings::default();
    w.add(3, String::from("name"), vec![String::from("web")]).unwrap();
    let v = w.into_inner();
    assert_eq!(v.len(), 10);
    assert_eq!(v[2].name, "web");
    assert_eq!(v[0].name, "1");
}

#[test]
fn a_config_file_is_read() {
    let text = "# comment\nset gap_left_size 5\nkeybind \"<Mod>q\" kill\nhook startup sync \"xsetroot -solid '#282828'\"\nworkspace_set 2 name mail\n";
    let c = ConfigParser::parse_contents(text, String::from("/tmp/config")).unwrap();
    assert_eq!(c.settings.gap_left_size, 5);
    assert_eq!(c.path, "/tmp/config");
    assert_eq!(c.start_hooks.0.len(), 1);
    assert_eq!(c.workspace_settings.0[1].name, "mail");
    assert!(c.keybinds.0.iter().any(|k| matches!(k.action, Action::Kill)));
}

#[test]
fn a_bad_config_line_is_an_error() {
    let r = ConfigParser::parse_contents("set nonsense 1\n", String::new());
    assert!(matches!(r, Err(Error::UnknownOption(_))));
}

#[test]
fn a_line_with_too_few_words_cannot_be_read() {
    assert!(ConfigParser::parse_contents_checked("set gap_top\n", String::new()).is_none());
    assert!(ConfigParser::parse_contents_checked("workspace_set 2 name\n", String::new()).is_none());
    assert!(ConfigParser::parse_contents_checked("bar_set 1 font_size\n", String::new()).is_none());
    assert!(matches!(ConfigParser::parse_contents_checked("workspace_set 42 name\n", String::new()), Some(Err(Error::NoSuchWorkspace(42)))));
    assert!(matches!(ConfigParser::parse_contents_checked("", String::new()), Some(Ok(_))));
}

#[test]
fn bar_location_is_read() {
    let c = ConfigParser::parse_contents("bar_set 1 location_top false\n", String::new()).unwrap();
    assert!(!c.bar_settings.0[0].location_top);
    let d = ConfigParser::parse_contents("bar_set 1 height 20\n", String::new()).unwrap();
    assert!(d.bar_settings.0[0].location_top);
    let e = ConfigParser::parse_contents("bar_set 1 location_top maybe\n", String::new());
    assert!(matches!(e, Err(Error::ParseBool)));
}

#[test]
fn widget_command_starts_after_its_keyword() {
    let text = "bar_set 0 segment add widget battery right\nbar_set 0 widget add battery bat command acpi -b font Iosevka\n";
    let c = ConfigParser::parse_contents(text, String::new()).unwrap();
    match &c.bar_settings.0[0].segments[0].segment_type {
        crubwm::config::bar_settings::SegmentSettingsType::Widget(ws) => {
            assert_eq!(ws.len(), 1);
            assert_eq!(ws[0].command, "acpi -b");
            assert_eq!(ws[0].font, "Iosevka");
        },
        _ => panic!("not a widget segment"),
    }
}

#[test]
fn execute_keeps_its_arguments_apart() {
    let a = Action::from_str(String::from("execute xterm -e top")).unwrap();
    assert!(a.same_as(&Action::Execute(String::from("xterm -e top"))));
}

#[test]
fn layout_names_of_the_manual() {
    let names = vec![String::from("tiling_equal_vertical"), String::from("tiling_master_stack")];
    assert_eq!(LayoutMask::from_slice(&names).unwrap(), 6);
    assert_eq!(LayoutMask::from_slice(&[String::from("stacking")]).unwrap(), 8);
    assert_eq!(LayoutMask::from_slice(&[String::from("all")]).unwrap(), 15);
    assert_eq!(LayoutType::try_from_str("Tiling_Equal_Horizontal").unwrap(), LayoutType::TilingEqualHorizontal);
    assert!(matches!(LayoutType::try_from_str("spiral"), Err(Error::UnknownLayout(_))));
}

#[test]
fn change_layout_switches_to_an_allowed_layout() {
    let g = Geometry { x: 0, y: 0, width: 100, height: 100 };
    let mut w = Workspace::new(String::from("1"), 1, 15, 0, g);
    w.change_layout(String::from("tilingmasterstack")).unwrap();
    assert_eq!(w.layout(), LayoutType::TilingMasterStack);
    let mut only = Workspace::new(String::from("2"), 2, 2, 0, g);
    only.change_layout(String::from("stacking")).unwrap();
    assert_eq!(only.layout(), LayoutType::TilingEqualHorizontal);
}

#[test]
fn a_fresh_config_file_reads_back_as_the_defaults() {
    let bytes = Config::default().serialize().unwrap();
    let text = String::from_utf8(bytes).unwrap();
    assert!(text.contains("set gap_top false\n"));
    assert!(text.contains("set border_color #000000\n"));
    assert!(text.contains("set display_name \"\"\n"));
    let c = ConfigParser::parse_contents(&text, String::new()).unwrap();
    let d = Options::default();
    assert_eq!(c.keybinds.0.len(), Keybinds::default().0.len());
    assert_eq!(c.settings.border_color, d.border_color);
    assert_eq!(c.settings.border_up_size, d.border_up_size);
    assert_eq!(c.settings.show_window_name, d.show_window_name);
    assert_eq!(c.settings.window_name_position, d.window_name_position);
    assert_eq!(c.settings.display_name, d.display_name);
    assert_eq!(c.settings.gap_left_size, d.gap_left_size);
}
