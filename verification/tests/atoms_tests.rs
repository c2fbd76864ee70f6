use crubwm::error::Error;
use crubwm::wm::atoms::{
    atom_definitions, client_message_data, AtomManager, AtomWrapper, ClientMessageData, ValueType, WmClassWrapper,
    ATOM_CARDINAL, ATOM_STRING, ATOM_WINDOW, MEG,
};
use crubwm::wm::properties::property_string;
use crubwm::wm::atoms::{ATOM_WM_CLASS, ATOM_WM_HINTS, ATOM_WM_SIZE_HINTS};
use crubwm::wm::properties::{property_values, PropertyValue};
use crubwm::config::bar_settings::WidgetSettings;
use crubwm::wm::bar::widgets::Widget;

#[test]
fn value_types_know_their_atom() {
    assert_eq!(*ValueType::Single(ATOM_STRING).atom(), 31);
    assert_eq!(*ValueType::List(ATOM_WINDOW, 3).atom(), 33);
    assert_eq!(*ValueType::ListOfLists(2, ATOM_CARDINAL, 4).atom(), 6);
}

#[test]
fn byte_amounts() {
    let single = AtomWrapper::new("_NET_WM_PID", 5, ValueType::Single(ATOM_CARDINAL));
    assert_eq!(single.byte_amount(None), MEG);
    assert_eq!(single.byte_amount(Some(8)), MEG);
    let list = AtomWrapper::new("_NET_WM_STRUT", 6, ValueType::List(ATOM_CARDINAL, 4));
    assert_eq!(list.byte_amount(None), 128);
    assert_eq!(list.byte_amount(Some(8)), 32);
    let lists = AtomWrapper::new("_NET_WORKAREA", 7, ValueType::ListOfLists(3, ATOM_CARDINAL, 4));
    assert_eq!(lists.byte_amount(Some(16)), 192);
    assert_eq!(lists.id(), 7);
    assert_eq!(lists._name(), "_NET_WORKAREA");
    assert_eq!(lists.value_type(), ValueType::ListOfLists(3, ATOM_CARDINAL, 4));
}

#[test]
fn the_atom_table() {
    let defs = atom_definitions();
    assert_eq!(defs.len(), 34);
    assert_eq!(defs[0].0, "_NET_SUPPORTED");
    assert_eq!(defs[0].1, ValueType::List(ATOM_CARDINAL, MEG));
    assert_eq!(defs[33].0, "WM_ZOOM_HINTS");
}

#[test]
fn atoms_from_interned_ids() {
    let ids: Vec<u32> = (1..=34).collect();
    let m = AtomManager::init_atoms(&ids).unwrap();
    let pid = m.get("_NET_WM_PID").unwrap();
    assert_eq!(pid.id(), 26);
    assert_eq!(pid.value_type(), ValueType::Single(ATOM_CARDINAL));
    assert!(m.get("_NET_NOT_THERE").is_none());
}

#[test]
fn an_atom_the_server_did_not_give_is_an_error() {
    let mut ids: Vec<u32> = (1..=34).collect();
    ids[4] = 0;
    ids[9] = 0;
    let r = AtomManager::init_atoms(&ids);
    assert!(matches!(r, Err(Error::AtomNone(ref n)) if n == "_NET_DESKTOP_VIEWPORT"));
}

#[test]
fn client_message_bytes() {
    match client_message_data(8, &[1, 2, 3]).unwrap() {
        ClientMessageData::Bytes(v) => {
            assert_eq!(v.len(), 20);
            assert_eq!(&v[..4], &[1, 2, 3, 0]);
        },
        _ => panic!("wrong format"),
    }
    let long: Vec<u8> = (0..30).collect();
    match client_message_data(8, &long).unwrap() {
        ClientMessageData::Bytes(v) => assert_eq!(v, (0..20).collect::<Vec<u8>>()),
        _ => panic!("wrong format"),
    }
}

#[test]
fn client_message_shorts_are_big_endian_pairs() {
    match client_message_data(16, &[1, 2, 3, 4, 5]).unwrap() {
        ClientMessageData::Shorts(v) => {
            assert_eq!(v.len(), 10);
            assert_eq!(v[0], 0x0102);
            assert_eq!(v[1], 0x0304);
            assert_eq!(v[2], 0);
        },
        _ => panic!("wrong format"),
    }
}

#[test]
fn client_message_longs_are_big_endian_quads() {
    match client_message_data(32, &[0xde, 0xad, 0xbe, 0xef, 0, 0, 0, 1]).unwrap() {
        ClientMessageData::Longs(v) => {
            assert_eq!(v, vec![0xdeadbeef, 1, 0, 0, 0]);
        },
        _ => panic!("wrong format"),
    }
}

#[test]
fn client_message_formats_are_checked() {
    assert!(matches!(client_message_data(24, &[]), Err(Error::InvalidMessageFormat(24))));
}

#[test]
fn wm_class_names() {
    let c = WmClassWrapper::from_class(b"XTerm", &[0xff]);
    assert_eq!(c.class.as_deref(), Some("XTerm"));
    assert_eq!(c.instance, None);
}

#[test]
fn property_strings_are_utf8() {
    assert_eq!(property_string(b"firefox").unwrap(), "firefox");
    assert!(matches!(property_string(&[0xff, 0xfe]), Err(Error::InvalidUtf8)));
}

#[test]
fn property_values_follow_the_type_and_format() {
    let s = property_values(ATOM_STRING, ATOM_STRING, 8, b"hello", None).unwrap();
    assert!(matches!(&s[..], [PropertyValue::String(x)] if x == "hello"));
    assert!(property_values(ATOM_STRING, ATOM_STRING, 32, b"hello", None).unwrap().is_empty());
    assert!(matches!(property_values(ATOM_STRING, ATOM_STRING, 8, &[0xc0], None), Err(Error::InvalidUtf8)));

    let c = property_values(ATOM_WM_CLASS, ATOM_STRING, 8, b"xterm\0XTerm\0", None).unwrap();
    match &c[..] {
        [PropertyValue::WmClass(w)] => {
            assert_eq!(w.instance.as_deref(), Some("xterm"));
            assert_eq!(w.class.as_deref(), Some("XTerm"));
        },
        _ => panic!("no class"),
    }
    assert!(property_values(ATOM_WM_CLASS, 0, 0, b"", None).unwrap().is_empty());
    assert!(property_values(ATOM_WM_HINTS, ATOM_STRING, 8, b"abc", None).unwrap().is_empty());

    let bytes = property_values(ATOM_CARDINAL, ATOM_CARDINAL, 8, &[1, 2, 3], Some(8)).unwrap();
    assert!(matches!(&bytes[..], [PropertyValue::Byte(1), PropertyValue::Byte(2), PropertyValue::Byte(3)]));
    let shorts = property_values(ATOM_CARDINAL, ATOM_CARDINAL, 16, &[1, 1, 2, 2, 9], Some(16)).unwrap();
    assert!(matches!(&shorts[..], [PropertyValue::DoubleByte(257), PropertyValue::DoubleByte(514)]));
    let pid = 4242u32.to_ne_bytes();
    let numbers = property_values(ATOM_CARDINAL, ATOM_CARDINAL, 32, &pid, None).unwrap();
    assert!(matches!(&numbers[..], [PropertyValue::Number(4242)]));
    assert!(property_values(ATOM_CARDINAL, ATOM_CARDINAL, 8, &pid, None).unwrap().is_empty());
    assert!(matches!(property_values(ATOM_CARDINAL, ATOM_CARDINAL, 8, &pid, Some(12)), Err(Error::InvalidPropertyFormat(12))));
}

#[test]
fn widget_output_must_be_utf8() {
    let mut w = Widget::new(WidgetSettings::default());
    w.set_output_bytes(b"  87%\n", 100).unwrap();
    assert_eq!(w.value, "87%");
    assert_eq!(w.last_update, 100);
    assert!(matches!(w.set_output_bytes(&[0xff], 200), Err(Error::InvalidUtf8)));
    assert_eq!(w.value, "87%");
    assert_eq!(w.last_update, 100);
}

fn words(ws: &[u32]) -> Vec<u8> {
    ws.iter().flat_map(|w| w.to_ne_bytes()).collect()
}

#[test]
fn window_hints_are_read_when_the_bytes_hold_them() {
    let hints = |v: &[u8]| property_values(ATOM_WM_HINTS, ATOM_WM_HINTS, 32, v, None).unwrap().len();
    assert_eq!(hints(&words(&[0; 8])), 1);
    assert_eq!(hints(&words(&[0; 9])), 1);
    assert_eq!(hints(&words(&[0; 7])), 0);
    assert_eq!(hints(&[0u8; 33]), 0);
    assert_eq!(hints(&words(&[2, 0, 1, 0, 0, 0, 0, 0])), 1);
    assert_eq!(hints(&words(&[2, 0, 2, 0, 0, 0, 0, 0])), 0);
    assert_eq!(property_values(ATOM_WM_HINTS, ATOM_WM_HINTS, 8, &words(&[0; 8]), None).unwrap().len(), 0);
    let size = |v: &[u8]| property_values(ATOM_WM_SIZE_HINTS, ATOM_WM_SIZE_HINTS, 32, v, None).unwrap().len();
    assert_eq!(size(&[0u8; 60]), 1);
    assert_eq!(size(&[0u8; 64]), 0);
    assert_eq!(size(&[0u8; 72]), 1);
    assert_eq!(size(&[0u8; 56]), 0);
}
