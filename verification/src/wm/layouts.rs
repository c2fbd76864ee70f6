use vstd::prelude::*;

use crate::error::Error;
use crate::text::{spec_to_lowercase, str_eq, to_lowercase};
use crate::wm::container::{Client, Container, ContainerList, ContainerType};
use crate::wm::geometry::Geometry;

verus! {

/// Bit masks of the layouts a workspace may use.
pub struct LayoutMask;

pub const TILING_EQUAL_HORIZONTAL: u64 = 1;
pub const TILING_EQUAL_VERTICAL: u64 = 2;
pub const TILING_MASTER_STACK: u64 = 4;
pub const STACKING_HORIZONTAL: u64 = 8;
/// All layouts.
pub const ALL_LAYOUTS: u64 = 15;

/// The ways of arranging the clients of a workspace.
#[derive(Debug, Clone, Copy, PartialEq, Eq, Structural)]
pub enum LayoutType {
    /// Side by side, all of the same width.
    TilingEqualHorizontal,
    /// One above the other, all of the same height.
    TilingEqualVertical,
    /// The first client on the left half, the others stacked on the right half.
    TilingMasterStack,
    /// Every client takes the whole screen; only the focused one is shown.
    StackingHorizontal,
}

/// The layout named by a lowercase name, if any: `tiling_equal_horizontal`,
/// `tiling_equal_vertical`, `tiling_master_stack` and `stacking`, and the first three
/// also written without underscores.
pub open spec fn layout_named(lower: Seq<char>) -> Option<LayoutType> {
    if lower == "tiling_equal_horizontal"@ || lower == "tilingequalhorizontal"@ {
        Some(LayoutType::TilingEqualHorizontal)
    } else if lower == "tiling_equal_vertical"@ || lower == "tilingequalvertical"@ {
        Some(LayoutType::TilingEqualVertical)
    } else if lower == "tiling_master_stack"@ || lower == "tilingmasterstack"@ {
        Some(LayoutType::TilingMasterStack)
    } else if lower == "stacking"@ {
        Some(LayoutType::StackingHorizontal)
    } else {
        None
    }
}

/// The layout whose mask bit is `n`, if any.
pub open spec fn layout_with_mask(n: u64) -> Option<LayoutType> {
    if n == TILING_EQUAL_HORIZONTAL {
        Some(LayoutType::TilingEqualHorizontal)
    } else if n == TILING_EQUAL_VERTICAL {
        Some(LayoutType::TilingEqualVertical)
    } else if n == TILING_MASTER_STACK {
        Some(LayoutType::TilingMasterStack)
    } else if n == STACKING_HORIZONTAL {
        Some(LayoutType::StackingHorizontal)
    } else {
        None
    }
}

impl LayoutType {
    /// The mask bit of the layout.
    pub open spec fn spec_mask(self) -> u64 {
        match self {
            LayoutType::TilingEqualHorizontal => TILING_EQUAL_HORIZONTAL,
            LayoutType::TilingEqualVertical => TILING_EQUAL_VERTICAL,
            LayoutType::TilingMasterStack => TILING_MASTER_STACK,
            LayoutType::StackingHorizontal => STACKING_HORIZONTAL,
        }
    }

    #[verifier::when_used_as_spec(spec_mask)]
    pub fn mask(self) -> (r: u64)
        ensures
            r == self.spec_mask(),
    {
        match self {
            LayoutType::TilingEqualHorizontal => TILING_EQUAL_HORIZONTAL,
            LayoutType::TilingEqualVertical => TILING_EQUAL_VERTICAL,
            LayoutType::TilingMasterStack => TILING_MASTER_STACK,
            LayoutType::StackingHorizontal => STACKING_HORIZONTAL,
        }
    }

    /// The layout a workspace starts with.
    pub fn default() -> (r: Self)
        ensures
            r == LayoutType::TilingEqualHorizontal,
    {
        LayoutType::TilingEqualHorizontal
    }

    /// The layout with the given mask bit.
    pub fn try_from_mask(n: u64) -> (r: Result<Self, Error>)
        ensures
            match layout_with_mask(n) {
                Some(l) => r == Ok::<LayoutType, Error>(l),
                None => r matches Err(Error::InvalidLayoutId(x)) && x == n,
            },
    {
        if n == TILING_EQUAL_HORIZONTAL {
            Ok(LayoutType::TilingEqualHorizontal)
        } else if n == TILING_EQUAL_VERTICAL {
            Ok(LayoutType::TilingEqualVertical)
        } else if n == TILING_MASTER_STACK {
            Ok(LayoutType::TilingMasterStack)
        } else if n == STACKING_HORIZONTAL {
            Ok(LayoutType::StackingHorizontal)
        } else {
            Err(Error::InvalidLayoutId(n))
        }
    }

    /// The layout named `s`, in any case.
    pub fn try_from_str(s: &str) -> (r: Result<Self, Error>)
        ensures
            match layout_named(spec_to_lowercase(s@)) {
                Some(l) => r == Ok::<LayoutType, Error>(l),
                None => r matches Err(Error::UnknownLayout(x)) && x@ == s@,
            },
    {
        let lower = to_lowercase(s);
        Self::from_lowercase(lower.as_str(), s)
    }

    /// The layout named by the lowercase name `lower`; `s` is the name as written.
    pub fn from_lowercase(lower: &str, s: &str) -> (r: Result<Self, Error>)
        ensures
            match layout_named(lower@) {
                Some(l) => r == Ok::<LayoutType, Error>(l),
                None => r matches Err(Error::UnknownLayout(x)) && x@ == s@,
            },
    {
        if str_eq(lower, "tiling_equal_horizontal") || str_eq(lower, "tilingequalhorizontal") {
            Ok(LayoutType::TilingEqualHorizontal)
        } else if str_eq(lower, "tiling_equal_vertical") || str_eq(lower, "tilingequalvertical") {
            Ok(LayoutType::TilingEqualVertical)
        } else if str_eq(lower, "tiling_master_stack") || str_eq(lower, "tilingmasterstack") {
            Ok(LayoutType::TilingMasterStack)
        } else if str_eq(lower, "stacking") {
            Ok(LayoutType::StackingHorizontal)
        } else {
            Err(Error::UnknownLayout(String::from_str(s)))
        }
    }
}

/// What reading a list of layout names gives, from the name at `i` on, with the names
/// before folded into `acc`: `Err` holds the (lowercased) name that is not a layout.
pub open spec fn layout_mask_from(names: Seq<Seq<char>>, i: int, acc: u64) -> Result<u64, Seq<char>>
    decreases names.len() - i,
{
    if i >= names.len() || i < 0 {
        Ok(acc)
    } else {
        let lower = spec_to_lowercase(names[i]);
        if lower == "none"@ {
            Ok(0)
        } else if lower == "all"@ {
            Ok(ALL_LAYOUTS)
        } else {
            match layout_named(spec_to_lowercase(lower)) {
                Some(l) => layout_mask_from(names, i + 1, acc | l.spec_mask()),
                None => Err(lower),
            }
        }
    }
}

pub open spec fn string_views(v: Seq<String>) -> Seq<Seq<char>> {
    v.map_values(|s: String| s@)
}

impl LayoutMask {
    /// The mask of the layouts named in a list: `none` gives no layout, `all` every layout
    /// (either ends the list); other names add their layout.
    pub fn from_slice(slice: &[String]) -> (r: Result<u64, Error>)
        ensures
            match layout_mask_from(string_views(slice@), 0, 0) {
                Ok(m) => r == Ok::<u64, Error>(m),
                Err(name) => r matches Err(Error::UnknownLayout(x)) && x@ == name,
            },
    {
        let mut mask: u64 = 0;
        let mut i: usize = 0;
        let ghost names = string_views(slice@);
        while i < slice.len()
            invariant
                i <= slice@.len(),
                names == string_views(slice@),
                layout_mask_from(names, i as int, mask) == layout_mask_from(names, 0, 0),
            decreases slice@.len() - i,
        {
            let each = to_lowercase(slice[i].as_str());
            if str_eq(each.as_str(), "none") {
                return Ok(0);
            } else if str_eq(each.as_str(), "all") {
                return Ok(ALL_LAYOUTS);
            } else {
                let layout = LayoutType::try_from_str(each.as_str());
                match layout {
                    Ok(l) => {
                        mask = mask | l.mask();
                    },
                    Err(e) => {
                        return Err(e);
                    },
                }
            }
            i = i + 1;
        }
        Ok(mask)
    }
}

/// What applying a layout asks of the X server, in order.
#[derive(Debug, Clone, Copy)]
pub enum LayoutEffect {
    /// Give the client's window its geometry and draw its border.
    DrawBorders(Client),
    /// Map the window and its subwindows.
    MapWindow(u32),
    /// Unmap the window and its subwindows.
    UnmapWindow(u32),
}

/// The number of containers of `s` that a tiling layout places (all but the floating ones).
pub open spec fn placed_count(s: Seq<Container>) -> nat
    decreases s.len(),
{
    if s.len() == 0 {
        0
    } else {
        placed_count(s.drop_last()) + if s.last().container_type is Floating {
            0nat
        } else {
            1nat
        }
    }
}

impl LayoutType {
    /// Where a tiling layout puts the `k`-th placed container (counting from 0) when `n`
    /// clients are in the layout; `empty` tells an empty container from a client.
    pub open spec fn tiled_geometry(self, screen: Geometry, n: nat, k: nat, empty: bool) -> Geometry {
        match self {
            LayoutType::TilingEqualHorizontal => {
                let width = (screen.width / (n as u16)) as u16;
                Geometry {
                    x: screen.x.wrapping_add((width as i16).wrapping_mul(k as i16)),
                    y: screen.y,
                    width,
                    height: screen.height,
                }
            },
            LayoutType::TilingEqualVertical => {
                let height = (screen.height / (n as u16)) as u16;
                Geometry {
                    x: screen.x,
                    y: screen.y.wrapping_add((height as i16).wrapping_mul(k as i16)),
                    width: screen.width,
                    height,
                }
            },
            LayoutType::TilingMasterStack => {
                if n == 1 {
                    screen
                } else {
                    let height = (screen.height / ((n - 1) as u16)) as u16;
                    let width = (screen.width / 2) as u16;
                    let ii = (k - 1) as i16;
                    if empty {
                        if k == 0 {
                            Geometry { x: 0, y: 0, width, height: screen.height }
                        } else {
                            Geometry { x: width as i16, y: (height as i16).wrapping_mul(ii), width, height }
                        }
                    } else {
                        if k == 0 {
                            Geometry { x: screen.x, y: screen.y, width, height: screen.height }
                        } else {
                            Geometry {
                                x: screen.x.wrapping_add(width as i16).wrapping_sub(1),
                                y: screen.y.wrapping_add((height as i16).wrapping_mul(ii)),
                                width,
                                height,
                            }
                        }
                    }
                }
            },
            LayoutType::StackingHorizontal => screen,
        }
    }

    /// The container `c`, the `k`-th placed one, once the layout is applied for `n`
    /// clients in the layout and the focused window `focused`.
    pub open spec fn laid_out_at(self, screen: Geometry, n: nat, focused: Option<u32>, c: Container, k: nat) -> Container {
        if n == 0 {
            c
        } else {
            match self {
                LayoutType::StackingHorizontal => match c.container_type {
                    ContainerType::InLayout(cl) => if focused is Some {
                        Container { container_type: ContainerType::InLayout(Client { geometry: screen, ..cl }), ..c }
                    } else {
                        c
                    },
                    _ => c,
                },
                _ => match c.container_type {
                    ContainerType::Floating(_) => c,
                    ContainerType::Empty(_) => Container {
                        container_type: ContainerType::Empty(self.tiled_geometry(screen, n, k, true)),
                        ..c
                    },
                    ContainerType::InLayout(cl) => Container {
                        container_type: ContainerType::InLayout(
                            Client { geometry: self.tiled_geometry(screen, n, k, false), ..cl },
                        ),
                        ..c
                    },
                },
            }
        }
    }

    /// The container at position `i` of `s` once the layout is applied.
    pub open spec fn laid_out(self, screen: Geometry, n: nat, focused: Option<u32>, s: Seq<Container>, i: int) -> Container {
        self.laid_out_at(screen, n, focused, s[i], placed_count(s.subrange(0, i)))
    }

    /// What the X server is asked to do for the (already laid out) container `c`.
    pub open spec fn effects_for(self, focused: Option<u32>, c: Container) -> Seq<LayoutEffect> {
        match c.container_type {
            ContainerType::InLayout(cl) => match self {
                LayoutType::StackingHorizontal => match focused {
                    Some(f) => if f == cl.window_id {
                        seq![LayoutEffect::DrawBorders(cl), LayoutEffect::MapWindow(cl.window_id)]
                    } else {
                        seq![LayoutEffect::UnmapWindow(cl.window_id)]
                    },
                    None => seq![],
                },
                _ => seq![LayoutEffect::DrawBorders(cl)],
            },
            _ => seq![],
        }
    }

    /// The requests for the laid out containers `s`, in order.
    pub open spec fn effects_of(self, focused: Option<u32>, s: Seq<Container>) -> Seq<LayoutEffect>
        decreases s.len(),
    {
        if s.len() == 0 {
            seq![]
        } else {
            self.effects_of(focused, s.drop_last()) + self.effects_for(focused, s.last())
        }
    }

    /// The sizes that the layout divides by are not zero (as 16-bit numbers).
    pub open spec fn can_apply(self, n: nat) -> bool {
        n == 0 || match self {
            LayoutType::TilingEqualHorizontal | LayoutType::TilingEqualVertical => (n as u16) != 0,
            LayoutType::TilingMasterStack => n == 1 || ((n - 1) as nat) as u16 != 0,
            LayoutType::StackingHorizontal => true,
        }
    }
}

} // verus!

verus! {

impl LayoutType {
    fn tiled(self, screen: Geometry, n: usize, k: usize, empty: bool) -> (r: Geometry)
        requires
            n > 0,
            self != LayoutType::StackingHorizontal,
            (self == LayoutType::TilingEqualHorizontal || self == LayoutType::TilingEqualVertical) ==> (n as u16) != 0,
            self == LayoutType::TilingMasterStack && n != 1 ==> ((n - 1) as u16) != 0,
        ensures
            r == self.tiled_geometry(screen, n as nat, k as nat, empty),
    {
        match self {
            LayoutType::TilingEqualHorizontal => {
                let width = screen.width / (n as u16);
                Geometry {
                    x: screen.x.wrapping_add((width as i16).wrapping_mul(k as i16)),
                    y: screen.y,
                    width,
                    height: screen.height,
                }
            },
            LayoutType::TilingEqualVertical => {
                let height = screen.height / (n as u16);
                Geometry {
                    x: screen.x,
                    y: screen.y.wrapping_add((height as i16).wrapping_mul(k as i16)),
                    width: screen.width,
                    height,
                }
            },
            _ => {
                if n == 1 {
                    screen
                } else {
                    let height = screen.height / ((n - 1) as u16);
                    let width = screen.width / 2;
                    if k == 0 {
                        if empty {
                            Geometry { x: 0, y: 0, width, height: screen.height }
                        } else {
                            Geometry { x: screen.x, y: screen.y, width, height: screen.height }
                        }
                    } else {
                        let ii = (k - 1) as i16;
                        if empty {
                            Geometry { x: width as i16, y: (height as i16).wrapping_mul(ii), width, height }
                        } else {
                            Geometry {
                                x: screen.x.wrapping_add(width as i16).wrapping_sub(1),
                                y: screen.y.wrapping_add((height as i16).wrapping_mul(ii)),
                                width,
                                height,
                            }
                        }
                    }
                }
            },
        }
    }

    fn lay_out_one(&self, screen: Geometry, n: usize, k: usize, focused: Option<u32>, c: Container) -> (r: Container)
        requires
            n > 0,
            (*self == LayoutType::TilingEqualHorizontal || *self == LayoutType::TilingEqualVertical) ==> (n as u16) != 0,
            *self == LayoutType::TilingMasterStack && n != 1 ==> ((n - 1) as u16) != 0,
        ensures
            r == self.laid_out_at(screen, n as nat, focused, c, k as nat),
    {
        match c.container_type {
            ContainerType::Floating(_) => c,
            ContainerType::Empty(_) => {
                if *self != LayoutType::StackingHorizontal {
                    Container { container_type: ContainerType::Empty(self.tiled(screen, n, k, true)), ..c }
                } else {
                    c
                }
            },
            ContainerType::InLayout(cl) => {
                if *self != LayoutType::StackingHorizontal {
                    let g = self.tiled(screen, n, k, false);
                    Container { container_type: ContainerType::InLayout(Client { geometry: g, ..cl }), ..c }
                } else if focused.is_some() {
                    Container { container_type: ContainerType::InLayout(Client { geometry: screen, ..cl }), ..c }
                } else {
                    c
                }
            },
        }
    }

    fn effects_one(&self, focused: Option<u32>, c: Container) -> (r: Vec<LayoutEffect>)
        ensures
            r@ == self.effects_for(focused, c),
    {
        let mut r: Vec<LayoutEffect> = Vec::new();
        if let ContainerType::InLayout(cl) = c.container_type {
            if *self != LayoutType::StackingHorizontal {
                r.push(LayoutEffect::DrawBorders(cl));
            } else if let Some(f) = focused {
                if f == cl.window_id {
                    r.push(LayoutEffect::DrawBorders(cl));
                    r.push(LayoutEffect::MapWindow(cl.window_id));
                } else {
                    r.push(LayoutEffect::UnmapWindow(cl.window_id));
                }
            }
        }
        proof {
            assert(r@ =~= self.effects_for(focused, c));
        }
        r
    }

    /// Arrange the containers of a workspace on `screen`.
    ///
    /// Tiling layouts give each non-floating container its place, counting the containers
    /// in order, and ask for every client in the layout to be drawn with its border. The
    /// stacking layout gives every client in the layout the whole screen and shows only the
    /// focused one (nothing happens when no window is focused). With no client in the layout
    /// nothing changes. The result lists what the X server has to do, in order.
    pub fn apply(&self, screen: Geometry, containers: &mut ContainerList, focused_client: Option<u32>) -> (r: Vec<LayoutEffect>)
        requires
            old(containers).wf(),
            self.can_apply(crate::wm::container::in_layout_count(old(containers)@)),
        ensures
            final(containers).wf(),
            final(containers).spec_workspace_id() == old(containers).spec_workspace_id(),
            final(containers).spec_last_id() == old(containers).spec_last_id(),
            final(containers)@.len() == old(containers)@.len(),
            forall|i: int|
                0 <= i < old(containers)@.len() ==> final(containers)@[i] == self.laid_out(
                    screen,
                    crate::wm::container::in_layout_count(old(containers)@),
                    focused_client,
                    old(containers)@,
                    i,
                ),
            r@ == (if crate::wm::container::in_layout_count(old(containers)@) == 0 {
                Seq::<LayoutEffect>::empty()
            } else {
                self.effects_of(focused_client, final(containers)@)
            }),
    {
        let n = containers.in_layout_len();
        let mut effects: Vec<LayoutEffect> = Vec::new();
        if n == 0 {
            return effects;
        }
        let ghost old_s = containers@;
        let len = containers.iter().len();
        let mut k: usize = 0;
        let mut i: usize = 0;
        while i < len
            invariant
                containers.wf(),
                containers.spec_workspace_id() == old(containers).spec_workspace_id(),
                containers.spec_last_id() == old(containers).spec_last_id(),
                old_s == old(containers)@,
                len == old_s.len(),
                containers@.len() == len,
                n == crate::wm::container::in_layout_count(old_s),
                n > 0,
                self.can_apply(n as nat),
                i <= len,
                k == placed_count(old_s.subrange(0, i as int)),
                k <= i,
                forall|j: int| 0 <= j < i ==> containers@[j] == self.laid_out(screen, n as nat, focused_client, old_s, j),
                forall|j: int| i <= j < len ==> containers@[j] == old_s[j],
                effects@ == self.effects_of(focused_client, containers@.subrange(0, i as int)),
            decreases len - i,
        {
            proof {
                assert(old_s.subrange(0, i + 1).drop_last() =~= old_s.subrange(0, i as int));
                lemma_placed_count_bound(old_s.subrange(0, i as int), old_s);
            }
            let c = containers.iter()[i];
            let ghost before = containers@;
            let nc = self.lay_out_one(screen, n, k, focused_client, c);
            containers.update_at(i, nc);
            let mut more = self.effects_one(focused_client, nc);
            effects.append(&mut more);
            if !c.is_floating() {
                k = k + 1;
            }
            proof {
                assert forall|j: int| 0 <= j < i + 1 implies containers@[j] == self.laid_out(screen, n as nat, focused_client, old_s, j) by {
                    if j < i {
                        assert(containers@[j] == before[j]);
                    }
                }
                assert(containers@.subrange(0, i + 1).drop_last() =~= containers@.subrange(0, i as int));
                assert(containers@.subrange(0, i as int) =~= before.subrange(0, i as int));
                assert(containers@.subrange(0, i + 1).last() == containers@[i as int]);
            }
            i = i + 1;
        }
        proof {
            assert(containers@.subrange(0, len as int) =~= containers@);
        }
        effects
    }
}

proof fn lemma_placed_count_bound(t: Seq<Container>, s: Seq<Container>)
    requires
        t.len() <= s.len(),
        forall|j: int| 0 <= j < t.len() ==> t[j] == s[j],
    ensures
        placed_count(t) <= placed_count(s),
    decreases s.len(),
{
    if s.len() > 0 {
        if t.len() == s.len() {
            assert(t =~= s);
        } else {
            lemma_placed_count_bound(t, s.drop_last());
        }
    }
}

} // verus!
