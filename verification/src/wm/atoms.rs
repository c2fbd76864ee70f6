//! Atoms of the inter-client communication conventions: which atoms the window manager
//! uses and how their values read, and the data of client messages.

use vstd::prelude::*;

use crate::error::Error;
use crate::text::{opt_chars, str_eq, utf8_decoded, utf8_string};

verus! {

/// The atom type `ATOM` of the X protocol.
pub const ATOM_ATOM: u32 = 4;

/// The atom type `CARDINAL` of the X protocol.
pub const ATOM_CARDINAL: u32 = 6;

/// The atom type `STRING` of the X protocol.
pub const ATOM_STRING: u32 = 31;

/// The atom type `WINDOW` of the X protocol.
pub const ATOM_WINDOW: u32 = 33;

/// The atom type `WM_HINTS` of the X protocol.
pub const ATOM_WM_HINTS: u32 = 35;

/// The atom type `WM_SIZE_HINTS` of the X protocol.
pub const ATOM_WM_SIZE_HINTS: u32 = 41;

/// The atom type `WM_CLASS` of the X protocol.
pub const ATOM_WM_CLASS: u32 = 67;

/// The most bytes asked of the X server for one property.
pub const MEG: usize = 1048576;

/// How the value of a property reads, with the atom type of its items.
#[derive(Debug, Clone, Copy, PartialEq, Eq, Structural)]
pub enum ValueType {
    /// One value.
    Single(u32),
    /// A list of that many values.
    List(u32, usize),
    /// That many lists of that many values each.
    ListOfLists(usize, u32, usize),
}

impl ValueType {
    /// The atom type of the values.
    pub open spec fn spec_atom(self) -> u32 {
        match self {
            ValueType::Single(a) => a,
            ValueType::List(a, _) => a,
            ValueType::ListOfLists(_, a, _) => a,
        }
    }

    /// The atom type of the values.
    pub fn atom(&self) -> (r: &u32)
        ensures
            *r == self.spec_atom(),
    {
        match self {
            ValueType::Single(a) => a,
            ValueType::List(a, _) => a,
            ValueType::ListOfLists(_, a, _) => a,
        }
    }
}

/// An atom the window manager uses: its name, the id the X server gave it and how its
/// value reads.
#[derive(Debug, Clone)]
pub struct AtomWrapper {
    pub name: String,
    pub x_id: u32,
    pub value: ValueType,
}

/// The number of bytes asked of the X server for a property of this value type, with
/// items of `format` bits (32 when none is given); products wrap.
pub open spec fn bytes_for(value: ValueType, format: Option<u8>) -> usize {
    let f: usize = match format {
        Some(x) => x as usize,
        None => 32,
    };
    match value {
        ValueType::Single(_) => MEG,
        ValueType::List(_, len) => len.wrapping_mul(f),
        ValueType::ListOfLists(len1, _, len2) => len1.wrapping_mul(len2).wrapping_mul(f),
    }
}

impl AtomWrapper {
    /// An atom with its name, id and value type.
    pub fn new(name: &str, x_id: u32, value: ValueType) -> (r: Self)
        ensures
            r.name@ == name@,
            r.x_id == x_id,
            r.value == value,
    {
        AtomWrapper { name: name.to_owned(), x_id, value }
    }

    /// The name of the atom.
    pub fn _name(&self) -> (r: &str)
        ensures
            r@ == self.name@,
    {
        self.name.as_str()
    }

    /// The id the X server gave the atom.
    pub fn id(&self) -> (r: u32)
        ensures
            r == self.x_id,
    {
        self.x_id
    }

    /// How the atom's value reads.
    pub fn value_type(&self) -> (r: ValueType)
        ensures
            r == self.value,
    {
        self.value
    }

    /// The number of bytes to ask of the X server for this atom's property.
    pub fn byte_amount(&self, format: Option<u8>) -> (r: usize)
        ensures
            r == bytes_for(self.value, format),
    {
        let f: usize = match format {
            Some(x) => x as usize,
            None => 32,
        };
        match self.value_type() {
            ValueType::Single(_) => MEG,
            ValueType::List(_, len) => len.wrapping_mul(f),
            ValueType::ListOfLists(len1, _, len2) => len1.wrapping_mul(len2).wrapping_mul(f),
        }
    }
}

/// The atoms the window manager uses, with how their values read, in the order they are
/// asked of the X server.
pub open spec fn atom_table() -> Seq<(Seq<char>, ValueType)> {
    seq![
        ("_NET_SUPPORTED"@, ValueType::List(ATOM_CARDINAL, MEG)),
        ("_NET_CLIENT_LIST"@, ValueType::List(ATOM_WINDOW, MEG)),
        ("_NET_NUMBER_OF_DESKTOPS"@, ValueType::List(ATOM_CARDINAL, MEG)),
        ("_NET_DESKTOP_GEOMETRY"@, ValueType::List(ATOM_CARDINAL, 2)),
        ("_NET_DESKTOP_VIEWPORT"@, ValueType::ListOfLists(MEG, ATOM_CARDINAL, 2)),
        ("_NET_CURRENT_DESKTOP"@, ValueType::Single(ATOM_CARDINAL)),
        ("_NET_DESKTOP_NAMES"@, ValueType::List(ATOM_STRING, MEG)),
        ("_NET_ACTIVE_WINDOW"@, ValueType::Single(ATOM_WINDOW)),
        ("_NET_WORKAREA"@, ValueType::ListOfLists(MEG, ATOM_CARDINAL, 4)),
        ("_NET_SUPPORTING_WM_CHECK"@, ValueType::Single(ATOM_WINDOW)),
        ("_NET_VIRTUAL_ROOTS"@, ValueType::List(ATOM_WINDOW, MEG)),
        ("_NET_DESKTOP_LAYOUT"@, ValueType::List(ATOM_CARDINAL, 4)),
        ("_NET_SHOWING_DESKTOP"@, ValueType::Single(ATOM_CARDINAL)),
        ("_NET_WM_STATE"@, ValueType::List(ATOM_ATOM, MEG)),
        ("_NET_WM_NAME"@, ValueType::Single(ATOM_STRING)),
        ("_NET_WM_VISIBLE_NAME"@, ValueType::Single(ATOM_STRING)),
        ("_NET_WM_ICON_NAME"@, ValueType::Single(ATOM_STRING)),
        ("_NET_WM_VISIBLE_ICON_NAME"@, ValueType::Single(ATOM_STRING)),
        ("_NET_WM_DESKTOP"@, ValueType::Single(ATOM_CARDINAL)),
        ("_NET_WM_WINDOW_TYPE"@, ValueType::List(ATOM_ATOM, MEG)),
        ("_NET_WM_ALLOWED_ACTIONS"@, ValueType::List(ATOM_ATOM, MEG)),
        ("_NET_WM_STRUT"@, ValueType::List(ATOM_CARDINAL, 4)),
        ("_NET_WM_STRUT_PARTIAL"@, ValueType::List(ATOM_CARDINAL, 12)),
        ("_NET_WM_ICON_GEOMETRY"@, ValueType::List(ATOM_CARDINAL, 4)),
        ("_NET_WM_ICON"@, ValueType::ListOfLists(MEG, ATOM_CARDINAL, MEG)),
        ("_NET_WM_PID"@, ValueType::Single(ATOM_CARDINAL)),
        ("_NET_WM_USER_TIME"@, ValueType::Single(ATOM_CARDINAL)),
        ("_NET_FRAME_EXTENTS"@, ValueType::List(ATOM_CARDINAL, 4)),
        ("WM_NAME"@, ValueType::Single(ATOM_STRING)),
        ("WM_DELETE_WINDOW"@, ValueType::Single(ATOM_ATOM)),
        ("WM_PROTOCOLS"@, ValueType::List(ATOM_ATOM, MEG)),
        ("WM_HINTS"@, ValueType::Single(ATOM_WM_HINTS)),
        ("WM_NORMAL_HINTS"@, ValueType::Single(ATOM_WM_SIZE_HINTS)),
        ("WM_ZOOM_HINTS"@, ValueType::Single(ATOM_WM_SIZE_HINTS)),
    ]
}

/// The atoms the window manager uses, as `atom_table` lists them.
pub fn atom_definitions() -> (r: Vec<(&'static str, ValueType)>)
    ensures
        r@.len() == atom_table().len(),
        forall|i: int| 0 <= i < r@.len() ==> (#[trigger] r@[i]).0@ == atom_table()[i].0 && r@[i].1 == atom_table()[i].1,
{
    let r = vec![
        ("_NET_SUPPORTED", ValueType::List(ATOM_CARDINAL, MEG)),
        ("_NET_CLIENT_LIST", ValueType::List(ATOM_WINDOW, MEG)),
        ("_NET_NUMBER_OF_DESKTOPS", ValueType::List(ATOM_CARDINAL, MEG)),
        ("_NET_DESKTOP_GEOMETRY", ValueType::List(ATOM_CARDINAL, 2)),
        ("_NET_DESKTOP_VIEWPORT", ValueType::ListOfLists(MEG, ATOM_CARDINAL, 2)),
        ("_NET_CURRENT_DESKTOP", ValueType::Single(ATOM_CARDINAL)),
        ("_NET_DESKTOP_NAMES", ValueType::List(ATOM_STRING, MEG)),
        ("_NET_ACTIVE_WINDOW", ValueType::Single(ATOM_WINDOW)),
        ("_NET_WORKAREA", ValueType::ListOfLists(MEG, ATOM_CARDINAL, 4)),
        ("_NET_SUPPORTING_WM_CHECK", ValueType::Single(ATOM_WINDOW)),
        ("_NET_VIRTUAL_ROOTS", ValueType::List(ATOM_WINDOW, MEG)),
        ("_NET_DESKTOP_LAYOUT", ValueType::List(ATOM_CARDINAL, 4)),
        ("_NET_SHOWING_DESKTOP", ValueType::Single(ATOM_CARDINAL)),
        ("_NET_WM_STATE", ValueType::List(ATOM_ATOM, MEG)),
        ("_NET_WM_NAME", ValueType::Single(ATOM_STRING)),
        ("_NET_WM_VISIBLE_NAME", ValueType::Single(ATOM_STRING)),
        ("_NET_WM_ICON_NAME", ValueType::Single(ATOM_STRING)),
        ("_NET_WM_VISIBLE_ICON_NAME", ValueType::Single(ATOM_STRING)),
        ("_NET_WM_DESKTOP", ValueType::Single(ATOM_CARDINAL)),
        ("_NET_WM_WINDOW_TYPE", ValueType::List(ATOM_ATOM, MEG)),
        ("_NET_WM_ALLOWED_ACTIONS", ValueType::List(ATOM_ATOM, MEG)),
        ("_NET_WM_STRUT", ValueType::List(ATOM_CARDINAL, 4)),
        ("_NET_WM_STRUT_PARTIAL", ValueType::List(ATOM_CARDINAL, 12)),
        ("_NET_WM_ICON_GEOMETRY", ValueType::List(ATOM_CARDINAL, 4)),
        ("_NET_WM_ICON", ValueType::ListOfLists(MEG, ATOM_CARDINAL, MEG)),
        ("_NET_WM_PID", ValueType::Single(ATOM_CARDINAL)),
        ("_NET_WM_USER_TIME", ValueType::Single(ATOM_CARDINAL)),
        ("_NET_FRAME_EXTENTS", ValueType::List(ATOM_CARDINAL, 4)),
        ("WM_NAME", ValueType::Single(ATOM_STRING)),
        ("WM_DELETE_WINDOW", ValueType::Single(ATOM_ATOM)),
        ("WM_PROTOCOLS", ValueType::List(ATOM_ATOM, MEG)),
        ("WM_HINTS", ValueType::Single(ATOM_WM_HINTS)),
        ("WM_NORMAL_HINTS", ValueType::Single(ATOM_WM_SIZE_HINTS)),
        ("WM_ZOOM_HINTS", ValueType::Single(ATOM_WM_SIZE_HINTS)),
    ];
    r
}

/// The atoms of the window manager, each with the id the X server gave it.
pub struct AtomManager {
    atoms: Vec<AtomWrapper>,
}

/// An atom's name, id and value type as plain values.
pub open spec fn atom_view(a: AtomWrapper) -> (Seq<char>, u32, ValueType) {
    (a.name@, a.x_id, a.value)
}

/// The last position of `s` whose atom is named `name`, if any.
pub open spec fn last_named(s: Seq<(Seq<char>, u32, ValueType)>, name: Seq<char>) -> Option<int>
    decreases s.len(),
{
    if s.len() == 0 {
        None
    } else if s.last().0 == name {
        Some(s.len() - 1)
    } else {
        last_named(s.drop_last(), name)
    }
}

impl AtomManager {
    /// The atoms held, in the order they were asked of the X server.
    pub closed spec fn spec_atoms(&self) -> Seq<(Seq<char>, u32, ValueType)> {
        self.atoms@.map_values(|a: AtomWrapper| atom_view(a))
    }

    /// The atoms of `atom_table`, given the ids the X server returned for their names, in
    /// the same order; an id of 0 (no atom) is an error for the first name that got it.
    pub fn init_atoms(ids: &Vec<u32>) -> (r: Result<Self, Error>)
        requires
            ids@.len() == atom_table().len(),
        ensures
            (forall|i: int| 0 <= i < ids@.len() ==> ids@[i] != 0) ==> (r matches Ok(m) && m.spec_atoms() == Seq::new(
                ids@.len(),
                |i: int| (atom_table()[i].0, ids@[i], atom_table()[i].1),
            )),
            forall|k: int| 0 <= k < ids@.len() && ids@[k] == 0 && (forall|j: int| 0 <= j < k ==> ids@[j] != 0) ==>
                (r matches Err(Error::AtomNone(x)) && x@ == atom_table()[k].0),
    {
        let defs = atom_definitions();
        let mut atoms: Vec<AtomWrapper> = Vec::new();
        let mut i: usize = 0;
        while i < defs.len()
            invariant
                defs@.len() == atom_table().len(),
                ids@.len() == defs@.len(),
                forall|j: int| 0 <= j < defs@.len() ==> (#[trigger] defs@[j]).0@ == atom_table()[j].0 && defs@[j].1 == atom_table()[j].1,
                i <= defs@.len(),
                atoms@.len() == i,
                forall|j: int| 0 <= j < i ==> ids@[j] != 0,
                forall|j: int| 0 <= j < i ==> #[trigger] atom_view(atoms@[j]) == (atom_table()[j].0, ids@[j], atom_table()[j].1),
            decreases defs@.len() - i,
        {
            let (name, value) = defs[i];
            let wrapper = AtomWrapper::new(name, ids[i], value);
            if ids[i] == 0 {
                return Err(Error::AtomNone(name.to_owned()));
            }
            atoms.push(wrapper);
            i = i + 1;
        }
        let r = AtomManager { atoms };
        proof {
            assert(r.spec_atoms() =~= Seq::new(ids@.len(), |i: int| (atom_table()[i].0, ids@[i], atom_table()[i].1)));
        }
        Ok(r)
    }

    /// The atom named `name` (the last one of that name, should two share it).
    pub fn get(&self, name: &str) -> (r: Option<&AtomWrapper>)
        ensures
            match last_named(self.spec_atoms(), name@) {
                Some(i) => r matches Some(a) && atom_view(*a) == self.spec_atoms()[i],
                None => r is None,
            },
    {
        let ghost s = self.spec_atoms();
        let mut i: usize = self.atoms.len();
        proof {
            assert(s.subrange(0, i as int) =~= s);
        }
        while i > 0
            invariant
                s == self.spec_atoms(),
                s.len() == self.atoms@.len(),
                i <= s.len(),
                last_named(s.subrange(0, i as int), name@) == last_named(s, name@),
            decreases i,
        {
            let ghost t = s.subrange(0, i as int);
            proof {
                assert(t.drop_last() =~= s.subrange(0, i - 1));
                assert(t.last() == atom_view(self.atoms@[i - 1]));
            }
            if str_eq(self.atoms[i - 1].name.as_str(), name) {
                return Some(&self.atoms[i - 1]);
            }
            i = i - 1;
        }
        None
    }
}

/// The data of a client message: 20 bytes, 10 16-bit or 5 32-bit numbers.
#[derive(Debug, Clone, PartialEq, Eq)]
pub enum ClientMessageData {
    Bytes(Vec<u8>),
    Shorts(Vec<u16>),
    Longs(Vec<u32>),
}

/// The first `n` items of `s`, with zeros after them when `s` is shorter.
pub open spec fn padded<T>(s: Seq<T>, n: nat, zero: T) -> Seq<T> {
    if s.len() >= n {
        s.take(n as int)
    } else {
        s + Seq::new((n - s.len()) as nat, |i: int| zero)
    }
}

/// The big-endian 16-bit numbers of the whole pairs of bytes of `data`, at most 10.
pub open spec fn pairs_of(data: Seq<u8>) -> Seq<u16> {
    let n = if data.len() / 2 < 10 {
        data.len() / 2
    } else {
        10
    };
    Seq::new(n, |i: int| (data[2 * i] * 256 + data[2 * i + 1]) as u16)
}

/// The big-endian 32-bit numbers of the groups of four bytes of `data`, at most 5.
pub open spec fn quads_of(data: Seq<u8>) -> Seq<u32> {
    let n = if data.len() / 4 < 5 {
        data.len() / 4
    } else {
        5
    };
    Seq::new(n, |i: int| (data[4 * i] * 16777216 + data[4 * i + 1] * 65536 + data[4 * i + 2] * 256 + data[4 * i + 3]) as u32)
}

/// The data of a client message in the format `format` made from `data`: its first bytes,
/// pairs of bytes or groups of four bytes (big-endian), as many as fit, padded with zeros.
pub fn client_message_data(format: u8, data: &[u8]) -> (r: Result<ClientMessageData, Error>)
    requires
        format == 32 ==> data@.len() >= 20 || data@.len() % 4 == 0,
    ensures
        format == 8 ==> (r matches Ok(ClientMessageData::Bytes(v)) && v@ == padded(data@, 20, 0u8)),
        format == 16 ==> (r matches Ok(ClientMessageData::Shorts(v)) && v@ == padded(pairs_of(data@), 10, 0u16)),
        format == 32 ==> (r matches Ok(ClientMessageData::Longs(v)) && v@ == padded(quads_of(data@), 5, 0u32)),
        format != 8 && format != 16 && format != 32 ==> (r matches Err(Error::InvalidMessageFormat(f)) && f == format),
{
    if format == 8 {
        let mut v: Vec<u8> = Vec::new();
        let mut i: usize = 0;
        while i < 20
            invariant
                i <= 20,
                v@ == padded(data@, 20, 0u8).take(i as int),
            decreases 20 - i,
        {
            if i < data.len() {
                v.push(data[i]);
            } else {
                v.push(0);
            }
            proof {
                assert(v@ =~= padded(data@, 20, 0u8).take(i + 1));
            }
            i = i + 1;
        }
        proof {
            assert(v@ =~= padded(data@, 20, 0u8));
        }
        Ok(ClientMessageData::Bytes(v))
    } else if format == 16 {
        let ghost p = pairs_of(data@);
        let mut v: Vec<u16> = Vec::new();
        let mut i: usize = 0;
        while i < 10
            invariant
                i <= 10,
                p == pairs_of(data@),
                v@ == padded(p, 10, 0u16).take(i as int),
            decreases 10 - i,
        {
            if i < data.len() / 2 {
                let hi = data[2 * i] as u16;
                let lo = data[2 * i + 1] as u16;
                v.push(hi * 256 + lo);
            } else {
                v.push(0);
            }
            proof {
                assert(v@ =~= padded(p, 10, 0u16).take(i + 1));
            }
            i = i + 1;
        }
        proof {
            assert(v@ =~= padded(p, 10, 0u16));
        }
        Ok(ClientMessageData::Shorts(v))
    } else if format == 32 {
        let ghost p = quads_of(data@);
        let mut v: Vec<u32> = Vec::new();
        let mut i: usize = 0;
        while i < 5
            invariant
                i <= 5,
                p == quads_of(data@),
                v@ == padded(p, 5, 0u32).take(i as int),
            decreases 5 - i,
        {
            if i < data.len() / 4 {
                let b0 = data[4 * i] as u32;
                let b1 = data[4 * i + 1] as u32;
                let b2 = data[4 * i + 2] as u32;
                let b3 = data[4 * i + 3] as u32;
                v.push(b0 * 16777216 + b1 * 65536 + b2 * 256 + b3);
            } else {
                v.push(0);
            }
            proof {
                assert(v@ =~= padded(p, 5, 0u32).take(i + 1));
            }
            i = i + 1;
        }
        proof {
            assert(v@ =~= padded(p, 5, 0u32));
        }
        Ok(ClientMessageData::Longs(v))
    } else {
        Err(Error::InvalidMessageFormat(format))
    }
}

/// The `WM_CLASS` of a window: its class and instance names, when they are valid UTF-8.
#[derive(Debug, Clone)]
pub struct WmClassWrapper {
    pub class: Option<String>,
    pub instance: Option<String>,
}

impl WmClassWrapper {
    /// The class and instance names from the bytes of a `WM_CLASS` property.
    pub fn from_class(class: &[u8], instance: &[u8]) -> (r: Self)
        ensures
            opt_chars(r.class) == utf8_decoded(class@),
            opt_chars(r.instance) == utf8_decoded(instance@),
    {
        let class = utf8_string(class);
        let instance = utf8_string(instance);
        WmClassWrapper { class, instance }
    }
}

} // verus!
