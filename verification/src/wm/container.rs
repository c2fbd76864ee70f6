use vstd::prelude::*;

use crate::config::Config;
use crate::error::Error;
use crate::text::{spec_to_lowercase, str_eq, to_lowercase};
use crate::wm::geometry::{attributes_of, ClientAttributes, Geometry};

verus! {

/// Container type masks: tiling (in the layout) or floating.
pub struct ContainerTypeMask(pub u8);

/// The mask of a container that is placed by the layout.
pub const CT_MASK_TILING: u8 = 1;

/// The mask of a floating container.
pub const CT_MASK_FLOATING: u8 = 2;

impl ContainerTypeMask {
    /// Read a container type name, in any case: `in_layout` gives the tiling mask, `float`
    /// the floating mask.
    pub fn try_from(c: String) -> (r: Result<u8, Error>)
        ensures
            Self::try_from_lowercase(spec_to_lowercase(c@), c, r),
    {
        let s = to_lowercase(c.as_str());
        if str_eq(s.as_str(), "in_layout") {
            Ok(CT_MASK_TILING)
        } else if str_eq(s.as_str(), "float") {
            Ok(CT_MASK_FLOATING)
        } else {
            Err(Error::InvalidContainerType(c))
        }
    }

    /// What `try_from` returns for the lowercased name `lower` of `c`.
    pub open spec fn try_from_lowercase(lower: Seq<char>, c: String, r: Result<u8, Error>) -> bool {
        if lower == "in_layout"@ {
            r == Ok::<u8, Error>(CT_MASK_TILING)
        } else if lower == "float"@ {
            r == Ok::<u8, Error>(CT_MASK_FLOATING)
        } else {
            r matches Err(Error::InvalidContainerType(s)) && s@ == c@
        }
    }
}

/// Unique identifier for a client.
pub type ClientId = u64;

/// Unique identifier of a container: its workspace and its number there.
#[derive(Debug, Clone, Copy, PartialEq, Eq, Structural)]
pub struct ContainerId {
    pub workspace_id: u32,
    pub container_id: u32,
}

impl ContainerId {
    pub open spec fn spec_new(workspace_id: u32, container_id: u32) -> ContainerId {
        ContainerId { workspace_id, container_id }
    }

    pub open spec fn spec_workspace(&self) -> u32 {
        self.workspace_id
    }

    pub open spec fn spec_container(&self) -> u32 {
        self.container_id
    }

    pub fn new(workspace_id: u32, container_id: u32) -> (r: Self)
        ensures
            r == Self::spec_new(workspace_id, container_id),
    {
        ContainerId { workspace_id, container_id }
    }

    #[verifier::when_used_as_spec(spec_workspace)]
    pub fn workspace(&self) -> (r: u32)
        ensures
            r == self.spec_workspace(),
    {
        self.workspace_id
    }

    #[verifier::when_used_as_spec(spec_container)]
    pub fn container(&self) -> (r: u32)
        ensures
            r == self.spec_container(),
    {
        self.container_id
    }
}

impl From<(u32, u32)> for ContainerId {
    /// The id of the container numbered `i.1` on the workspace `i.0`.
    fn from(i: (u32, u32)) -> (r: Self) {
        ContainerId::new(i.0, i.1)
    }
}

impl vstd::std_specs::convert::FromSpecImpl<(u32, u32)> for ContainerId {
    open spec fn obeys_from_spec() -> bool {
        true
    }

    open spec fn from_spec(i: (u32, u32)) -> ContainerId {
        ContainerId::spec_new(i.0, i.1)
    }
}

/// Half of `v`, rounded toward zero (the way integer division rounds).
pub open spec fn half_toward_zero(v: i16) -> i16 {
    if v >= 0 {
        (v / 2) as i16
    } else {
        (-((-v) / 2)) as i16
    }
}

fn halve(v: i16) -> (r: i16)
    ensures
        r == half_toward_zero(v),
{
    if v >= 0 {
        v / 2
    } else {
        let m: i32 = -(v as i32);
        -((m / 2) as i16)
    }
}

/// A managed X window.
#[derive(Debug, Copy, Clone, PartialEq, Eq, Structural)]
pub struct Client {
    pub window_id: u32,
    pub process_id: u32,
    pub geometry: Geometry,
    pub attributes: ClientAttributes,
    pub client_id: ClientId,
}

impl Client {
    pub open spec fn spec_window_id(&self) -> u32 {
        self.window_id
    }

    pub open spec fn spec_process_id(&self) -> Option<u32> {
        if self.process_id == 0 {
            None
        } else {
            Some(self.process_id)
        }
    }

    pub open spec fn spec_client_id(self) -> ClientId {
        self.client_id
    }

    /// The process id as stored, 0 when it is unknown.
    pub open spec fn spec_raw_process_id(self) -> u32 {
        self.process_id
    }

    /// A client for a window with a known process; a process id of 0 means "unknown".
    pub fn new(
        window_id: u32,
        process_id: u32,
        geometry: Geometry,
        client_id: ClientId,
        config: &Config,
    ) -> (r: Self)
        ensures
            r.spec_window_id() == window_id,
            r.spec_raw_process_id() == process_id,
            r.geometry == geometry,
            r.spec_client_id() == client_id,
            r.attributes == attributes_of(*config),
    {
        Client {
            window_id,
            process_id,
            geometry,
            client_id,
            attributes: ClientAttributes::from_config(config),
        }
    }

    /// A client for a window whose process is unknown.
    pub fn new_without_process_id(
        window_id: u32,
        geometry: Geometry,
        client_id: ClientId,
        config: &Config,
    ) -> (r: Self)
        ensures
            r.spec_window_id() == window_id,
            r.spec_raw_process_id() == 0,
            r.geometry == geometry,
            r.spec_client_id() == client_id,
            r.attributes == attributes_of(*config),
    {
        Client {
            window_id,
            process_id: 0,
            geometry,
            client_id,
            attributes: ClientAttributes::from_config(config),
        }
    }

    #[verifier::when_used_as_spec(spec_window_id)]
    pub fn window_id(&self) -> (r: u32)
        ensures
            r == self.spec_window_id(),
    {
        self.window_id
    }

    #[verifier::when_used_as_spec(spec_process_id)]
    pub fn process_id(&self) -> (r: Option<u32>)
        ensures
            r == self.spec_process_id(),
    {
        if self.process_id == 0 {
            return None;
        }
        Some(self.process_id)
    }

    pub fn geometry(&self) -> (r: Geometry)
        ensures
            r == self.geometry,
    {
        self.geometry
    }

    /// The client's geometry with its outer gaps taken off.
    pub open spec fn spec_with_gaps(self) -> Geometry {
        let g = self.geometry;
        let a = self.attributes;
        Geometry {
            x: g.x.wrapping_add(a.gap_left as i16),
            y: g.y.wrapping_add(a.gap_top as i16),
            width: g.width.wrapping_sub(2u16.wrapping_mul(a.gap_right as u16)),
            height: g.height.wrapping_sub(2u16.wrapping_mul(a.gap_bottom as u16)),
        }
    }

    /// The client's geometry with its outer gaps taken off.
    pub fn with_gaps(&self) -> (r: Geometry)
        ensures
            r == self.spec_with_gaps(),
    {
        let mut geom = self.geometry();
        geom.x = geom.x.wrapping_add(self.attributes.gap_left as i16);
        geom.y = geom.y.wrapping_add(self.attributes.gap_top as i16);
        geom.width = geom.width.wrapping_sub(2u16.wrapping_mul(self.attributes.gap_right as u16));
        geom.height = geom.height.wrapping_sub(
            2u16.wrapping_mul(self.attributes.gap_bottom as u16),
        );
        geom
    }

    /// The client's geometry with half of the gaps taken off.
    pub fn with_gaps_inner(&self) -> (r: Geometry)
        ensures
            r == (Geometry {
                x: self.geometry.x.wrapping_add(half_toward_zero(self.attributes.gap_left as i16)),
                y: self.geometry.y.wrapping_add(half_toward_zero(self.attributes.gap_top as i16)),
                width: self.geometry.width.wrapping_sub(self.attributes.gap_right as u16),
                height: self.geometry.height.wrapping_sub(self.attributes.gap_bottom as u16),
            }),
    {
        let mut geom = self.geometry();
        geom.x = geom.x.wrapping_add(halve(self.attributes.gap_left as i16));
        geom.y = geom.y.wrapping_add(halve(self.attributes.gap_top as i16));
        geom.width = geom.width.wrapping_sub(self.attributes.gap_right as u16);
        geom.height = geom.height.wrapping_sub(self.attributes.gap_bottom as u16);
        geom
    }

    /// The geometry that the window gets inside its border, the border width and the three
    /// lowest bytes of the border color, each shifted into the high byte of a 16-bit value.
    pub fn with_borders(&self) -> (r: (Geometry, u32, u16, u16, u16))
        ensures
            r.0 == (Geometry {
                width: self.spec_with_gaps().width.wrapping_sub(
                    2u16.wrapping_mul(self.attributes.border_size as u16),
                ),
                height: self.spec_with_gaps().height.wrapping_sub(
                    2u16.wrapping_mul(self.attributes.border_size as u16),
                ),
                ..self.spec_with_gaps()
            }),
            r.1 == self.attributes.border_size,
            r.2 == (self.attributes.border_color % 0x100) * 0x100,
            r.3 == (self.attributes.border_color / 0x100 % 0x100) * 0x100,
            r.4 == (self.attributes.border_color / 0x10000 % 0x100) * 0x100,
    {
        let mut geom = self.with_gaps();
        geom.width = geom.width.wrapping_sub(2u16.wrapping_mul(self.attributes.border_size as u16));
        geom.height = geom.height.wrapping_sub(
            2u16.wrapping_mul(self.attributes.border_size as u16),
        );
        let c = self.attributes.border_color;
        let b0 = (c % 0x100) as u16;
        let b1 = (c / 0x100 % 0x100) as u16;
        let b2 = (c / 0x10000 % 0x100) as u16;
        (geom, self.attributes.border_size, b0 * 0x100, b1 * 0x100, b2 * 0x100)
    }

    /// The border color as 16-bit red, green and blue channels (each 8-bit channel of
    /// `0xRRGGBB` repeated in both bytes).
    pub fn border_color(&self) -> (r: (u16, u16, u16))
        ensures
            r.0 == (self.attributes.border_color / 0x10000 % 0x100) * 0x101,
            r.1 == (self.attributes.border_color / 0x100 % 0x100) * 0x101,
            r.2 == (self.attributes.border_color % 0x100) * 0x101,
    {
        let c = self.attributes.border_color;
        let b0 = (c % 0x100) as u16;
        let b1 = (c / 0x100 % 0x100) as u16;
        let b2 = (c / 0x10000 % 0x100) as u16;
        (b2 * 0x101, b1 * 0x101, b0 * 0x101)
    }

    pub fn border_width(&self) -> (r: u32)
        ensures
            r == self.attributes.border_size,
    {
        self.attributes.border_size
    }

    /// Take the gaps, border and border color from a (new) configuration.
    pub fn change_config(&mut self, config: &Config)
        ensures
            final(self).attributes == attributes_of(*config),
            final(self).spec_window_id() == old(self).spec_window_id(),
            final(self).spec_raw_process_id() == old(self).spec_raw_process_id(),
            final(self).geometry == old(self).geometry,
            final(self).spec_client_id() == old(self).spec_client_id(),
    {
        self.attributes = ClientAttributes::from_config(config);
    }
}

/// What a container holds: nothing but an area, a client placed by the layout, or a
/// floating client.
#[derive(Debug, Clone, Copy, PartialEq, Eq, Structural)]
pub enum ContainerType {
    Empty(Geometry),
    InLayout(Client),
    Floating(Client),
}

impl Default for ContainerType {
    fn default() -> (r: Self)
        ensures
            r == ContainerType::Empty(Geometry { x: 0, y: 0, width: 0, height: 0 }),
    {
        ContainerType::Empty(Geometry::default())
    }
}

impl ContainerType {
    pub open spec fn spec_geometry(&self) -> Geometry {
        match *self {
            ContainerType::Empty(g) => g,
            ContainerType::InLayout(c) => c.geometry,
            ContainerType::Floating(c) => c.geometry,
        }
    }

    pub open spec fn spec_window_id(&self) -> Option<u32> {
        match *self {
            ContainerType::Empty(_) => None,
            ContainerType::InLayout(c) => Some(c.spec_window_id()),
            ContainerType::Floating(c) => Some(c.spec_window_id()),
        }
    }

    pub open spec fn spec_process_id(&self) -> Option<u32> {
        match *self {
            ContainerType::Empty(_) => None,
            ContainerType::InLayout(c) => c.spec_process_id(),
            ContainerType::Floating(c) => c.spec_process_id(),
        }
    }

    pub open spec fn spec_with_geometry(self, geom: Geometry) -> ContainerType {
        match self {
            ContainerType::Empty(_) => ContainerType::Empty(geom),
            ContainerType::InLayout(c) => ContainerType::InLayout(Client { geometry: geom, ..c }),
            ContainerType::Floating(c) => ContainerType::Floating(Client { geometry: geom, ..c }),
        }
    }

    pub open spec fn spec_into_floating(self) -> Option<ContainerType> {
        match self {
            ContainerType::InLayout(c) => Some(ContainerType::Floating(c)),
            ContainerType::Floating(_) => Some(self),
            ContainerType::Empty(_) => None,
        }
    }

    pub open spec fn spec_into_layout(self) -> Option<ContainerType> {
        match self {
            ContainerType::InLayout(_) => Some(self),
            ContainerType::Floating(c) => Some(ContainerType::InLayout(c)),
            ContainerType::Empty(_) => None,
        }
    }

    /// A new container for a client is placed by the layout.
    pub fn new(c: Client) -> (r: Self)
        ensures
            r == ContainerType::InLayout(c),
    {
        ContainerType::InLayout(c)
    }

    /// Make a client container float; an empty container cannot.
    pub fn into_floating(self) -> (r: Option<Self>)
        ensures
            r == self.spec_into_floating(),
    {
        match self {
            ContainerType::InLayout(c) => Some(ContainerType::Floating(c)),
            ContainerType::Floating(_) => Some(self),
            ContainerType::Empty(_) => None,
        }
    }

    /// Put a client container back into the layout; an empty container cannot.
    pub fn into_layout(self) -> (r: Option<Self>)
        ensures
            r == self.spec_into_layout(),
    {
        match self {
            ContainerType::InLayout(_) => Some(self),
            ContainerType::Floating(c) => Some(ContainerType::InLayout(c)),
            ContainerType::Empty(_) => None,
        }
    }

    /// Take the client out of the container, leaving an empty container of the client's
    /// geometry; an empty container stays as it is.
    pub fn take(&mut self) -> (r: Option<Client>)
        ensures
            match *old(self) {
                ContainerType::Empty(_) => r is None && *final(self) == *old(self),
                ContainerType::InLayout(c) => r == Some(c) && *final(self) == ContainerType::Empty(c.geometry),
                ContainerType::Floating(c) => r == Some(c) && *final(self) == ContainerType::Empty(c.geometry),
            },
    {
        let c = match *self {
            ContainerType::InLayout(c) => Some(c),
            ContainerType::Floating(c) => Some(c),
            ContainerType::Empty(_) => None,
        };
        if let Some(client) = c {
            *self = ContainerType::Empty(client.geometry);
            return c;
        }
        None
    }

    /// The area of the container or of its client.
    #[verifier::when_used_as_spec(spec_geometry)]
    pub fn geometry(&self) -> (r: Geometry)
        ensures
            r == self.spec_geometry(),
    {
        match self {
            ContainerType::Empty(g) => *g,
            ContainerType::InLayout(c) => c.geometry,
            ContainerType::Floating(c) => c.geometry,
        }
    }

    /// Change the area of the container or of its client.
    pub fn set_geometry(&mut self, geom: Geometry)
        ensures
            *final(self) == old(self).spec_with_geometry(geom),
    {
        *self = match *self {
            ContainerType::Empty(_) => ContainerType::Empty(geom),
            ContainerType::InLayout(c) => ContainerType::InLayout(Client { geometry: geom, ..c }),
            ContainerType::Floating(c) => ContainerType::Floating(Client { geometry: geom, ..c }),
        };
    }

    /// The client's window id; `None` for an empty container.
    #[verifier::when_used_as_spec(spec_window_id)]
    pub fn window_id(&self) -> (r: Option<u32>)
        ensures
            r == self.spec_window_id(),
    {
        match self {
            ContainerType::Empty(_) => None,
            ContainerType::InLayout(c) => Some(c.window_id),
            ContainerType::Floating(c) => Some(c.window_id),
        }
    }

    /// The client's process id; `None` for an empty container or an unknown process.
    #[verifier::when_used_as_spec(spec_process_id)]
    pub fn process_id(&self) -> (r: Option<u32>)
        ensures
            r == self.spec_process_id(),
    {
        match self {
            ContainerType::Empty(_) => None,
            ContainerType::InLayout(c) => {
                if c.process_id == 0 {
                    return None;
                }
                Some(c.process_id)
            },
            ContainerType::Floating(c) => {
                if c.process_id == 0 {
                    return None;
                }
                Some(c.process_id)
            },
        }
    }
}

/// A place in a workspace: its content, its id and, for a floating client being dragged,
/// the last pointer position seen.
#[derive(Debug, Clone, Copy, PartialEq, Eq)]
pub struct Container {
    pub container_type: ContainerType,
    pub container_id: ContainerId,
    pub last_position: Option<(i32, i32)>,
}

/// The container `Container::new` builds.
pub open spec fn new_container(client: Client, id: ContainerId, mask: u8) -> Container {
    Container {
        container_type: if mask == CT_MASK_FLOATING {
            ContainerType::Floating(client)
        } else {
            ContainerType::InLayout(client)
        },
        container_id: id,
        last_position: None,
    }
}

impl Container {
    /// A container for a client: floating for the floating mask, in the layout otherwise.
    pub fn new(client: Client, id: ContainerId, container_type_mask: u8) -> (r: Self)
        ensures
            r == new_container(client, id, container_type_mask),
    {
        let container_type = if container_type_mask == CT_MASK_FLOATING {
            ContainerType::Floating(client)
        } else {
            ContainerType::new(client)
        };
        Container { container_type, container_id: id, last_position: None }
    }

    pub fn data(&self) -> (r: &ContainerType)
        ensures
            *r == self.container_type,
    {
        &self.container_type
    }

    /// The content of the container, to change it in place.
    pub fn data_mut(&mut self) -> (r: &mut ContainerType)
        ensures
            *r == old(self).container_type,
            *final(self) == (Container { container_type: *final(r), ..*old(self) }),
    {
        &mut self.container_type
    }

    pub fn id(&self) -> (r: &ContainerId)
        ensures
            *r == self.container_id,
    {
        &self.container_id
    }

    /// Put the client back into the layout; fails for an empty container.
    pub fn change_to_layout(&mut self) -> (r: Result<(), Error>)
        ensures
            match old(self).container_type.spec_into_layout() {
                Some(t) => r is Ok && *final(self) == (Container { container_type: t, ..*old(self) }),
                None => r matches Err(Error::ChangeToLayout) && *final(self) == *old(self),
            },
    {
        match self.container_type.into_layout() {
            Some(t) => {
                self.container_type = t;
                Ok(())
            },
            None => Err(Error::ChangeToLayout),
        }
    }

    /// Make the client float; fails for an empty container.
    pub fn change_to_floating(&mut self) -> (r: Result<(), Error>)
        ensures
            match old(self).container_type.spec_into_floating() {
                Some(t) => r is Ok && *final(self) == (Container { container_type: t, ..*old(self) }),
                None => r matches Err(Error::ChangeToFloating) && *final(self) == *old(self),
            },
    {
        match self.container_type.into_floating() {
            Some(t) => {
                self.container_type = t;
                Ok(())
            },
            None => Err(Error::ChangeToFloating),
        }
    }

    pub fn is_floating(&self) -> (r: bool)
        ensures
            r == self.container_type is Floating,
    {
        matches!(self.container_type, ContainerType::Floating(_))
    }

    pub fn is_in_layout(&self) -> (r: bool)
        ensures
            r == self.container_type is InLayout,
    {
        matches!(self.container_type, ContainerType::InLayout(_))
    }

    pub fn last_position(&self) -> (r: Option<(i32, i32)>)
        ensures
            r == self.last_position,
    {
        self.last_position
    }

    pub fn change_last_position(&mut self, new_position: (i32, i32))
        ensures
            *final(self) == (Container { last_position: Some(new_position), ..*old(self) }),
    {
        self.last_position = Some(new_position);
    }
}

} // verus!

verus! {

/// Some container of `s` has the id `id`.
pub open spec fn has_id(s: Seq<Container>, id: ContainerId) -> bool {
    exists|i: int| 0 <= i < s.len() && s[i].container_id == id
}

/// The position of the container with the id `id` (ids are unique in a list).
pub open spec fn index_of_id(s: Seq<Container>, id: ContainerId) -> int {
    choose|i: int| 0 <= i < s.len() && s[i].container_id == id
}

/// No two containers of `s` share an id.
pub open spec fn ids_unique(s: Seq<Container>) -> bool {
    forall|i: int, j: int|
        0 <= i < s.len() && 0 <= j < s.len() && i != j ==> s[i].container_id != s[j].container_id
}

/// `i` is the first position of `s` holding a client with the window id `wid`.
pub open spec fn first_with_window(s: Seq<Container>, wid: u32, i: int) -> bool {
    &&& 0 <= i < s.len()
    &&& s[i].container_type.spec_window_id() == Some(wid)
    &&& forall|j: int| 0 <= j < i ==> s[j].container_type.spec_window_id() != Some(wid)
}

/// Some container of `s` holds a client with the window id `wid`.
pub open spec fn has_window(s: Seq<Container>, wid: u32) -> bool {
    exists|i: int| 0 <= i < s.len() && s[i].container_type.spec_window_id() == Some(wid)
}

/// `i` is the first position of `s` holding a client with the process id `pid`.
pub open spec fn first_with_process(s: Seq<Container>, pid: u32, i: int) -> bool {
    &&& 0 <= i < s.len()
    &&& s[i].container_type.spec_process_id() == Some(pid)
    &&& forall|j: int| 0 <= j < i ==> s[j].container_type.spec_process_id() != Some(pid)
}

pub open spec fn has_process(s: Seq<Container>, pid: u32) -> bool {
    exists|i: int| 0 <= i < s.len() && s[i].container_type.spec_process_id() == Some(pid)
}

/// The containers after swapping the containers with the ids `a` and `b`.
pub open spec fn swapped(s: Seq<Container>, a: ContainerId, b: ContainerId) -> Seq<Container> {
    let ia = index_of_id(s, a);
    let ib = index_of_id(s, b);
    s.update(ia, s[ib]).update(ib, s[ia])
}

/// The position after `i`, going round to the start after the last one.
pub open spec fn next_index(len: int, i: int) -> int {
    if i == len - 1 {
        0
    } else {
        i + 1
    }
}

/// The position before `i`, going round to the end before the first one.
pub open spec fn previous_index(len: int, i: int) -> int {
    if i == 0 {
        len - 1
    } else {
        i - 1
    }
}

/// The number of containers of `s` that are placed by the layout.
pub open spec fn in_layout_count(s: Seq<Container>) -> nat
    decreases s.len(),
{
    if s.len() == 0 {
        0
    } else {
        in_layout_count(s.drop_last()) + if s.last().container_type is InLayout {
            1nat
        } else {
            0nat
        }
    }
}

/// The containers of one workspace, in order. Each container gets a fresh id, numbered
/// from 1 within the workspace.
#[derive(Debug, Clone)]
pub struct ContainerList {
    containers: Vec<Container>,
    workspace_id: u32,
    last_container_id: u32,
}

impl View for ContainerList {
    type V = Seq<Container>;

    closed spec fn view(&self) -> Seq<Container> {
        self.containers@
    }
}

impl ContainerList {
    /// The workspace whose containers these are.
    pub closed spec fn spec_workspace_id(&self) -> u32 {
        self.workspace_id
    }

    /// The number of the last id handed out.
    pub closed spec fn spec_last_id(&self) -> u32 {
        self.last_container_id
    }

    /// Every container belongs to this workspace, has an id that was handed out, and no two
    /// containers share an id.
    pub open spec fn wf(&self) -> bool {
        &&& forall|i: int|
            0 <= i < self@.len() ==> (#[trigger] self@[i]).container_id.workspace_id
                == self.spec_workspace_id()
        &&& forall|i: int|
            0 <= i < self@.len() ==> 1 <= (#[trigger] self@[i]).container_id.container_id
                <= self.spec_last_id()
        &&& ids_unique(self@)
    }

    /// The last container id handed out (0 when none was).
    pub fn last_id(&self) -> (r: u32)
        ensures
            r == self.spec_last_id(),
    {
        self.last_container_id
    }

    /// A new, empty container list for a workspace.
    pub fn new(workspace_id: u32) -> (r: Self)
        ensures
            r.wf(),
            r@ == Seq::<Container>::empty(),
            r.spec_workspace_id() == workspace_id,
            r.spec_last_id() == 0,
    {
        ContainerList { containers: Vec::new(), workspace_id, last_container_id: 0 }
    }

    /// Hand out the next container id.
    fn new_id(&mut self) -> (r: ContainerId)
        requires
            old(self).spec_last_id() < u32::MAX,
        ensures
            r == ContainerId::spec_new(old(self).spec_workspace_id(), (old(self).spec_last_id() + 1) as u32),
            final(self)@ == old(self)@,
            final(self).spec_workspace_id() == old(self).spec_workspace_id(),
            final(self).spec_last_id() == old(self).spec_last_id() + 1,
    {
        self.last_container_id = self.last_container_id + 1;
        ContainerId::new(self.workspace_id, self.last_container_id)
    }

    /// The position of the container with the given id.
    fn inner_find(&self, id: ContainerId) -> (r: Option<usize>)
        requires
            self.wf(),
        ensures
            match r {
                Some(i) => i < self@.len() && self@[i as int].container_id == id && i == index_of_id(self@, id),
                None => !has_id(self@, id),
            },
    {
        if !id.workspace_id == self.workspace_id {
            proof {
                let w = id.workspace_id;
                assert(!w != w) by (bit_vector);
            }
            return None;
        }
        let mut i: usize = 0;
        while i < self.containers.len()
            invariant
                self.wf(),
                i <= self@.len(),
                forall|j: int| 0 <= j < i ==> self@[j].container_id != id,
            decreases self@.len() - i,
        {
            if self.containers[i].container_id == id {
                proof {
                    let k = index_of_id(self@, id);
                    assert(self@[k].container_id == id);
                }
                return Some(i);
            }
            i = i + 1;
        }
        None
    }

    proof fn lemma_fresh_id(&self)
        requires
            self.wf(),
            self.spec_last_id() < u32::MAX,
        ensures
            !has_id(self@, ContainerId::spec_new(self.spec_workspace_id(), (self.spec_last_id() + 1) as u32)),
    {
        let id = ContainerId::spec_new(self.spec_workspace_id(), (self.spec_last_id() + 1) as u32);
        assert forall|i: int| 0 <= i < self@.len() implies self@[i].container_id != id by {
            assert(self@[i].container_id.container_id <= self.spec_last_id());
        }
    }

    /// Create a container for a client and put it first; returns its new id.
    pub fn insert_front(&mut self, client: Client, container_type_mask: u8) -> (r: ContainerId)
        requires
            old(self).wf(),
            old(self).spec_last_id() < u32::MAX,
        ensures
            final(self).wf(),
            r == ContainerId::spec_new(old(self).spec_workspace_id(), (old(self).spec_last_id() + 1) as u32),
            !has_id(old(self)@, r),
            final(self)@ == seq![new_container(client, r, container_type_mask)] + old(self)@,
            final(self).spec_workspace_id() == old(self).spec_workspace_id(),
            final(self).spec_last_id() == old(self).spec_last_id() + 1,
    {
        proof {
            self.lemma_fresh_id();
        }
        let id = self.new_id();
        let cont = Container::new(client, id, container_type_mask);
        self.containers.insert(0, cont);
        proof {
            assert(self@ =~= seq![cont] + old(self)@);
            assert forall|i: int, j: int|
                0 <= i < self@.len() && 0 <= j < self@.len() && i != j implies self@[i].container_id
                != self@[j].container_id by {
                if i > 0 && j > 0 {
                    assert(self@[i] == old(self)@[i - 1]);
                    assert(self@[j] == old(self)@[j - 1]);
                } else if i == 0 {
                    assert(self@[j] == old(self)@[j - 1]);
                } else {
                    assert(self@[i] == old(self)@[i - 1]);
                }
            }
            assert forall|i: int| 0 <= i < self@.len() implies 1 <= (#[trigger] self@[i]).container_id.container_id
                <= self.spec_last_id() by {
                if i > 0 {
                    assert(self@[i] == old(self)@[i - 1]);
                }
            }
            assert forall|i: int| 0 <= i < self@.len() implies (#[trigger] self@[i]).container_id.workspace_id
                == self.spec_workspace_id() by {
                if i > 0 {
                    assert(self@[i] == old(self)@[i - 1]);
                }
            }
        }
        id
    }

    /// Create a container for a client and put it last; returns its new id.
    pub fn insert_back(&mut self, client: Client, container_type_mask: u8) -> (r: ContainerId)
        requires
            old(self).wf(),
            old(self).spec_last_id() < u32::MAX,
        ensures
            final(self).wf(),
            r == ContainerId::spec_new(old(self).spec_workspace_id(), (old(self).spec_last_id() + 1) as u32),
            !has_id(old(self)@, r),
            final(self)@ == old(self)@.push(new_container(client, r, container_type_mask)),
            final(self).spec_workspace_id() == old(self).spec_workspace_id(),
            final(self).spec_last_id() == old(self).spec_last_id() + 1,
    {
        proof {
            self.lemma_fresh_id();
        }
        let id = self.new_id();
        let cont = Container::new(client, id, container_type_mask);
        self.containers.push(cont);
        id
    }

    /// Give an existing container a fresh id and put it last; returns the new id.
    pub fn container_insert_back(&mut self, container: Container) -> (r: Result<ContainerId, Error>)
        requires
            old(self).wf(),
            old(self).spec_last_id() < u32::MAX,
        ensures
            final(self).wf(),
            r matches Ok(id) && id == ContainerId::spec_new(
                old(self).spec_workspace_id(),
                (old(self).spec_last_id() + 1) as u32,
            ) && !has_id(old(self)@, id) && final(self)@ == old(self)@.push(
                (Container { container_id: id, ..container }),
            ),
            final(self).spec_workspace_id() == old(self).spec_workspace_id(),
            final(self).spec_last_id() == old(self).spec_last_id() + 1,
    {
        proof {
            self.lemma_fresh_id();
        }
        let new_id = self.new_id();
        let mut container = container;
        container.container_id = new_id;
        self.containers.push(container);
        Ok(new_id)
    }

    /// Swap the places of two containers, given their ids.
    pub fn swap(&mut self, a: ContainerId, b: ContainerId) -> (r: Result<(), Error>)
        requires
            old(self).wf(),
        ensures
            final(self).wf(),
            final(self).spec_workspace_id() == old(self).spec_workspace_id(),
            final(self).spec_last_id() == old(self).spec_last_id(),
            if !has_id(old(self)@, a) {
                r matches Err(Error::WrongContainerId(x)) && x == a && final(self)@ == old(self)@
            } else if !has_id(old(self)@, b) {
                r matches Err(Error::WrongContainerId(x)) && x == b && final(self)@ == old(self)@
            } else {
                r is Ok && final(self)@ == swapped(old(self)@, a, b)
            },
    {
        if let Some(ia) = self.inner_find(a) {
            if let Some(ib) = self.inner_find(b) {
                let ca = self.containers[ia];
                let cb = self.containers[ib];
                self.containers.set(ia, cb);
                self.containers.set(ib, ca);
                proof {
                    let s = old(self)@;
                    assert forall|i: int, j: int|
                        0 <= i < self@.len() && 0 <= j < self@.len() && i != j implies self@[i].container_id
                        != self@[j].container_id by {
                        let pi = if i == ia { ib as int } else if i == ib { ia as int } else { i };
                        let pj = if j == ia { ib as int } else if j == ib { ia as int } else { j };
                        assert(self@[i] == s[pi]);
                        assert(self@[j] == s[pj]);
                    }
                    assert forall|i: int| 0 <= i < self@.len() implies 1 <= (#[trigger] self@[i]).container_id.container_id
                        <= self.spec_last_id() && self@[i].container_id.workspace_id == self.spec_workspace_id() by {
                        let pi = if i == ia { ib as int } else if i == ib { ia as int } else { i };
                        assert(self@[i] == s[pi]);
                    }
                }
                return Ok(());
            }
            return Err(Error::WrongContainerId(b));
        }
        Err(Error::WrongContainerId(a))
    }

    /// Take the container with the given id out of the list.
    pub fn remove(&mut self, container_id: ContainerId) -> (r: Result<Container, Error>)
        requires
            old(self).wf(),
        ensures
            final(self).wf(),
            final(self).spec_workspace_id() == old(self).spec_workspace_id(),
            final(self).spec_last_id() == old(self).spec_last_id(),
            if has_id(old(self)@, container_id) {
                let i = index_of_id(old(self)@, container_id);
                r == Ok::<Container, Error>(old(self)@[i]) && final(self)@ == old(self)@.remove(i)
            } else {
                r matches Err(Error::UnableToRemove(x)) && x == container_id && final(self)@ == old(self)@
            },
    {
        if let Some(i) = self.inner_find(container_id) {
            let c = self.containers.remove(i);
            proof {
                let s = old(self)@;
                assert forall|k: int, j: int|
                    0 <= k < self@.len() && 0 <= j < self@.len() && k != j implies self@[k].container_id
                    != self@[j].container_id by {
                    let pk = if k < i { k } else { k + 1 };
                    let pj = if j < i { j } else { j + 1 };
                    assert(self@[k] == s[pk]);
                    assert(self@[j] == s[pj]);
                }
                assert forall|k: int| 0 <= k < self@.len() implies 1 <= (#[trigger] self@[k]).container_id.container_id
                    <= self.spec_last_id() && self@[k].container_id.workspace_id == self.spec_workspace_id() by {
                    let pk = if k < i { k } else { k + 1 };
                    assert(self@[k] == s[pk]);
                }
            }
            return Ok(c);
        }
        Err(Error::UnableToRemove(container_id))
    }

    /// Give the container at position `i` a new geometry (for its client, if it has one).
    pub fn set_geometry_at(&mut self, i: usize, geom: Geometry)
        requires
            old(self).wf(),
            i < old(self)@.len(),
        ensures
            final(self).wf(),
            final(self).spec_workspace_id() == old(self).spec_workspace_id(),
            final(self).spec_last_id() == old(self).spec_last_id(),
            final(self)@ == old(self)@.update(
                i as int,
                (Container {
                    container_type: old(self)@[i as int].container_type.spec_with_geometry(geom),
                    ..old(self)@[i as int]
                }),
            ),
    {
        let mut c = self.containers[i];
        c.container_type.set_geometry(geom);
        self.containers.set(i, c);
        proof {
            let s = old(self)@;
            assert forall|k: int, j: int|
                0 <= k < self@.len() && 0 <= j < self@.len() && k != j implies self@[k].container_id
                != self@[j].container_id by {
                assert(self@[k].container_id == s[k].container_id);
                assert(self@[j].container_id == s[j].container_id);
            }
            assert forall|k: int| 0 <= k < self@.len() implies 1 <= (#[trigger] self@[k]).container_id.container_id
                <= self.spec_last_id() && self@[k].container_id.workspace_id == self.spec_workspace_id() by {
                assert(self@[k].container_id == s[k].container_id);
            }
        }
    }

    /// Put `c` at position `i`, in place of a container with the same id.
    pub fn update_at(&mut self, i: usize, c: Container)
        requires
            old(self).wf(),
            i < old(self)@.len(),
            c.container_id == old(self)@[i as int].container_id,
        ensures
            final(self).wf(),
            final(self).spec_workspace_id() == old(self).spec_workspace_id(),
            final(self).spec_last_id() == old(self).spec_last_id(),
            final(self)@ == old(self)@.update(i as int, c),
    {
        self.containers.set(i, c);
        proof {
            let s = old(self)@;
            assert forall|k: int, j: int|
                0 <= k < self@.len() && 0 <= j < self@.len() && k != j implies self@[k].container_id
                != self@[j].container_id by {
                assert(self@[k].container_id == s[k].container_id);
                assert(self@[j].container_id == s[j].container_id);
            }
            assert forall|k: int| 0 <= k < self@.len() implies 1 <= (#[trigger] self@[k]).container_id.container_id
                <= self.spec_last_id() && self@[k].container_id.workspace_id == self.spec_workspace_id() by {
                assert(self@[k].container_id == s[k].container_id);
            }
        }
    }

    /// Replace the container with the given id; the new one keeps that id.
    pub fn replace(&mut self, id: ContainerId, container: Container) -> (r: Result<(), Error>)
        requires
            old(self).wf(),
        ensures
            final(self).wf(),
            final(self).spec_workspace_id() == old(self).spec_workspace_id(),
            final(self).spec_last_id() == old(self).spec_last_id(),
            if has_id(old(self)@, id) {
                r is Ok && final(self)@ == old(self)@.update(
                    index_of_id(old(self)@, id),
                    (Container { container_id: id, ..container }),
                )
            } else {
                r matches Err(Error::ContainerNotFound(x)) && x == id && final(self)@ == old(self)@
            },
    {
        if let Some(i) = self.inner_find(id) {
            let mut c = container;
            c.container_id = id;
            self.containers.set(i, c);
            proof {
                let s = old(self)@;
                assert forall|k: int, j: int|
                    0 <= k < self@.len() && 0 <= j < self@.len() && k != j implies self@[k].container_id
                    != self@[j].container_id by {
                    assert(self@[k].container_id == s[k].container_id);
                    assert(self@[j].container_id == s[j].container_id);
                }
                assert forall|k: int| 0 <= k < self@.len() implies 1 <= (#[trigger] self@[k]).container_id.container_id
                    <= self.spec_last_id() && self@[k].container_id.workspace_id == self.spec_workspace_id() by {
                    assert(self@[k].container_id == s[k].container_id);
                }
            }
            return Ok(());
        }
        Err(Error::ContainerNotFound(id))
    }

    /// The containers, in order.
    pub fn iter(&self) -> (r: &[Container])
        ensures
            r@ == self@,
    {
        self.containers.as_slice()
    }

    /// How many containers are placed by the layout.
    pub fn in_layout_len(&self) -> (r: usize)
        ensures
            r == in_layout_count(self@),
    {
        let mut n: usize = 0;
        let mut i: usize = 0;
        while i < self.containers.len()
            invariant
                i <= self@.len(),
                n == in_layout_count(self@.subrange(0, i as int)),
                n <= i,
            decreases self@.len() - i,
        {
            proof {
                assert(self@.subrange(0, i + 1).drop_last() =~= self@.subrange(0, i as int));
            }
            if self.containers[i].is_in_layout() {
                n = n + 1;
            }
            i = i + 1;
        }
        proof {
            assert(self@.subrange(0, i as int) =~= self@);
        }
        n
    }

    /// The container with the given id.
    pub fn find(&self, container_id: ContainerId) -> (r: Result<&Container, Error>)
        requires
            self.wf(),
        ensures
            if has_id(self@, container_id) {
                r matches Ok(c) && *c == self@[index_of_id(self@, container_id)]
            } else {
                r matches Err(Error::ContainerNotFound(x)) && x == container_id
            },
    {
        if let Some(i) = self.inner_find(container_id) {
            return Ok(&self.containers[i]);
        }
        Err(Error::ContainerNotFound(container_id))
    }

    /// The id of the first container whose client has the window id `window_id`.
    pub fn id_for_window(&self, window_id: u32) -> (r: Result<ContainerId, Error>)
        ensures
            match r {
                Ok(id) => exists|i: int| first_with_window(self@, window_id, i) && self@[i].container_id == id,
                Err(e) => !has_window(self@, window_id) && e == Error::NoContainerForWindow(window_id),
            },
    {
        let mut i: usize = 0;
        while i < self.containers.len()
            invariant
                i <= self@.len(),
                forall|j: int| 0 <= j < i ==> self@[j].container_type.spec_window_id() != Some(window_id),
            decreases self@.len() - i,
        {
            if let Some(cwid) = self.containers[i].container_type.window_id() {
                if window_id == cwid {
                    proof {
                        assert(first_with_window(self@, window_id, i as int));
                    }
                    return Ok(self.containers[i].container_id);
                }
            }
            i = i + 1;
        }
        Err(Error::NoContainerForWindow(window_id))
    }

    /// The id of the first container whose client has the process id `process_id`.
    pub fn id_for_process(&self, process_id: u32) -> (r: Result<ContainerId, Error>)
        ensures
            match r {
                Ok(id) => exists|i: int| first_with_process(self@, process_id, i) && self@[i].container_id == id,
                Err(e) => !has_process(self@, process_id) && e == Error::NoContainerForProcess(process_id),
            },
    {
        let mut i: usize = 0;
        while i < self.containers.len()
            invariant
                i <= self@.len(),
                forall|j: int| 0 <= j < i ==> self@[j].container_type.spec_process_id() != Some(process_id),
            decreases self@.len() - i,
        {
            if let Some(cpid) = self.containers[i].container_type.process_id() {
                if process_id == cpid {
                    proof {
                        assert(first_with_process(self@, process_id, i as int));
                    }
                    return Ok(self.containers[i].container_id);
                }
            }
            i = i + 1;
        }
        Err(Error::NoContainerForProcess(process_id))
    }

    /// The container after the one with the given id, going round to the first.
    pub fn next_for_id(&self, id: ContainerId) -> (r: Result<&Container, Error>)
        requires
            self.wf(),
        ensures
            if has_id(self@, id) {
                r matches Ok(c) && *c == self@[next_index(self@.len() as int, index_of_id(self@, id))]
            } else {
                r matches Err(Error::NoNeighbourContainer)
            },
    {
        if let Some(index) = self.inner_find(id) {
            let next = if index == self.containers.len() - 1 {
                0
            } else {
                index + 1
            };
            return Ok(&self.containers[next]);
        }
        Err(Error::NoNeighbourContainer)
    }

    /// The container before the one with the given id, going round to the last.
    pub fn previous_for_id(&self, id: ContainerId) -> (r: Result<&Container, Error>)
        requires
            self.wf(),
        ensures
            if has_id(self@, id) {
                r matches Ok(c) && *c == self@[previous_index(self@.len() as int, index_of_id(self@, id))]
            } else {
                r matches Err(Error::NoNeighbourContainer)
            },
    {
        if let Some(index) = self.inner_find(id) {
            let previous = if index == 0 {
                self.containers.len() - 1
            } else {
                index - 1
            };
            return Ok(&self.containers[previous]);
        }
        Err(Error::NoNeighbourContainer)
    }
}

} // verus!
