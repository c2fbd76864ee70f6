use vstd::prelude::*;

use crate::error::Error;
use crate::text::spec_to_lowercase;
use crate::wm::container::{
    first_with_window, has_id, has_window, in_layout_count, index_of_id, new_container, next_index,
    previous_index, Client, Container, ContainerId, ContainerList,
};
use crate::wm::focus_stack::FocusStack;
use crate::wm::geometry::Geometry;
use crate::wm::layouts::{layout_named, layout_with_mask, LayoutEffect, LayoutType};

verus! {

pub type WorkspaceId = u32;

/// The layout bits set in `mask` among the `n` lowest bits, lowest first.
pub open spec fn mask_bits(mask: u64, n: nat) -> Seq<u64>
    decreases n,
{
    if n == 0 {
        seq![]
    } else {
        let rest = mask_bits(mask, (n - 1) as nat);
        let bit = 1u64 << ((n - 1) as u64);
        if mask & bit != 0 {
            rest.push(bit)
        } else {
            rest
        }
    }
}

/// The first position, from `i` on, where `s` holds `x`; the length of `s` if none.
pub open spec fn position_of(s: Seq<u64>, x: u64, i: int) -> int
    decreases s.len() - i,
{
    if i < 0 || i >= s.len() {
        s.len() as int
    } else if s[i] == x {
        i
    } else {
        position_of(s, x, i + 1)
    }
}

/// The layout that comes after `current` among the allowed layouts of `mask` (lowest bit
/// first, going round): `None` when the layout stays as it is, `Some(Err(n))` when the next
/// allowed bit `n` names no layout.
pub open spec fn next_layout(mask: u64, current: LayoutType) -> Option<Result<LayoutType, u64>> {
    let bits = mask_bits(mask, 64);
    let i = position_of(bits, current.spec_mask(), 0);
    if i >= bits.len() {
        None
    } else if i + 1 < bits.len() {
        Some(match layout_with_mask(bits[i + 1]) {
            Some(l) => Ok(l),
            None => Err(bits[i + 1]),
        })
    } else if bits.len() > 1 {
        Some(match layout_with_mask(bits[0]) {
            Some(l) => Ok(l),
            None => Err(bits[0]),
        })
    } else {
        None
    }
}

proof fn lemma_position_of(s: Seq<u64>, x: u64, i: int, k: int)
    requires
        0 <= i <= k <= s.len(),
        forall|j: int| i <= j < k ==> s[j] != x,
        k == s.len() || s[k] == x,
    ensures
        position_of(s, x, i) == k,
    decreases k - i,
{
    if i < k {
        lemma_position_of(s, x, i + 1, k);
    }
}

/// A workspace: its containers, its layout and the layouts it allows, the screen area it
/// covers, its name and id, and which of its windows had the focus.
#[derive(Clone)]
pub struct Workspace {
    containers: ContainerList,
    layout: LayoutType,
    allowed_layouts_mask: u64,
    screen_size: Geometry,
    name: String,
    id: WorkspaceId,
    focus: FocusStack,
}

/// `after` is `before` laid out on `screen_size` (or on its own screen area), and
/// `effects` is what the X server has to do: every container is placed by the layout,
/// nothing else of the workspace changes.
pub open spec fn layout_applied(before: Workspace, after: Workspace, screen_size: Option<Geometry>, effects: Seq<LayoutEffect>) -> bool {
    let screen = match screen_size {
        Some(g) => g,
        None => before.spec_screen(),
    };
    let n = in_layout_count(before.containers_view());
    let focused = if before.spec_focus().len() > 0 {
        Some(before.spec_focus()[0])
    } else {
        None::<u32>
    };
    &&& after.spec_containers().spec_last_id() == before.spec_containers().spec_last_id()
    &&& after.spec_containers().spec_workspace_id() == before.spec_containers().spec_workspace_id()
    &&& after.containers_view().len() == before.containers_view().len()
    &&& forall|i: int|
        0 <= i < before.containers_view().len() ==> after.containers_view()[i] == before.spec_layout().laid_out(
            screen,
            n,
            focused,
            before.containers_view(),
            i,
        )
    &&& effects == (if n == 0 {
        Seq::<LayoutEffect>::empty()
    } else {
        before.spec_layout().effects_of(focused, after.containers_view())
    })
    &&& after.spec_layout() == before.spec_layout()
    &&& after.spec_allowed_layouts() == before.spec_allowed_layouts()
    &&& after.spec_screen() == before.spec_screen()
    &&& after.spec_name() == before.spec_name()
    &&& after.spec_id() == before.spec_id()
    &&& after.spec_focus() == before.spec_focus()
}

/// The containers, the last container id and the ids handed out after `insert_client`
/// is called with the first `k` clients and masks, one after the other, on a workspace
/// `wid` holding `cv` whose last container id is `last`.
pub open spec fn inserted_one_by_one(cv: Seq<Container>, wid: u32, last: nat, cs: Seq<Client>, ts: Seq<u8>, k: nat) -> (Seq<Container>, nat, Seq<ContainerId>)
    decreases k,
{
    if k == 0 {
        (cv, last, seq![])
    } else {
        let (v, l, ids) = inserted_one_by_one(cv, wid, last, cs, ts, (k - 1) as nat);
        let id = ContainerId::spec_new(wid, (l + 1) as u32);
        (v.push(new_container(cs[k - 1], id, ts[k - 1])), l + 1, ids.push(id))
    }
}


impl Workspace {
    pub closed spec fn spec_containers(&self) -> ContainerList {
        self.containers
    }

    pub closed spec fn spec_layout(&self) -> LayoutType {
        self.layout
    }

    pub closed spec fn spec_allowed_layouts(&self) -> u64 {
        self.allowed_layouts_mask
    }

    pub closed spec fn spec_screen(&self) -> Geometry {
        self.screen_size
    }

    pub closed spec fn spec_name(&self) -> Seq<char> {
        self.name@
    }

    pub closed spec fn spec_id(&self) -> WorkspaceId {
        self.id
    }

    pub closed spec fn spec_focus(&self) -> Seq<u32> {
        self.focus@
    }

    /// The containers of the workspace.
    pub open spec fn containers_view(&self) -> Seq<Container> {
        self.spec_containers()@
    }

    /// The container list is well formed and belongs to this workspace.
    pub open spec fn wf(&self) -> bool {
        &&& self.spec_containers().wf()
        &&& self.spec_containers().spec_workspace_id() == self.spec_id()
    }

    /// Room for another container id.
    pub open spec fn can_insert(&self) -> bool {
        self.spec_containers().spec_last_id() < u32::MAX
    }

    /// A new workspace without containers, laid out side by side.
    pub fn new(name: String, id: WorkspaceId, allowed_layouts_mask: u64, root_window: u32, screen_size: Geometry) -> (r: Self)
        ensures
            r.wf(),
            r.containers_view() == Seq::<Container>::empty(),
            r.spec_containers().spec_last_id() == 0,
            r.spec_layout() == LayoutType::TilingEqualHorizontal,
            r.spec_allowed_layouts() == allowed_layouts_mask,
            r.spec_screen() == screen_size,
            r.spec_name() == name@,
            r.spec_id() == id,
            r.spec_focus() == Seq::<u32>::empty(),
    {
        Workspace {
            containers: ContainerList::new(id),
            layout: LayoutType::default(),
            allowed_layouts_mask,
            name,
            id,
            focus: FocusStack::new(),
            screen_size,
        }
    }

    pub fn id(&self) -> (r: WorkspaceId)
        ensures
            r == self.spec_id(),
    {
        self.id
    }

    pub fn name(&self) -> (r: &String)
        ensures
            r@ == self.spec_name(),
    {
        &self.name
    }

    pub fn layout(&self) -> (r: LayoutType)
        ensures
            r == self.spec_layout(),
    {
        self.layout
    }

    /// The windows of the workspace, most recently focused first.
    pub fn focus(&self) -> (r: &FocusStack)
        ensures
            r@ == self.spec_focus(),
    {
        &self.focus
    }

    /// Focus a window of the workspace: it moves to the top of the focus stack.
    pub fn set_focused_client(&mut self, window: u32)
        ensures
            final(self).spec_focus() == seq![window] + crate::wm::focus_stack::seq_without(old(self).spec_focus(), window),
            final(self).spec_containers() == old(self).spec_containers(),
            final(self).spec_layout() == old(self).spec_layout(),
            final(self).spec_allowed_layouts() == old(self).spec_allowed_layouts(),
            final(self).spec_screen() == old(self).spec_screen(),
            final(self).spec_name() == old(self).spec_name(),
            final(self).spec_id() == old(self).spec_id(),
    {
        self.focus.set_focused_client(window);
    }

    /// Forget a window in the focus stack.
    pub fn remove_focused_client(&mut self, window: u32)
        ensures
            final(self).spec_focus() == crate::wm::focus_stack::seq_without(old(self).spec_focus(), window),
            final(self).spec_containers() == old(self).spec_containers(),
            final(self).spec_layout() == old(self).spec_layout(),
            final(self).spec_allowed_layouts() == old(self).spec_allowed_layouts(),
            final(self).spec_screen() == old(self).spec_screen(),
            final(self).spec_name() == old(self).spec_name(),
            final(self).spec_id() == old(self).spec_id(),
    {
        self.focus.remove_client(window);
    }

    /// Switch to the named layout, when the workspace allows it; a layout that is not
    /// allowed leaves the layout as it is.
    pub fn change_layout(&mut self, layout_string: String) -> (r: Result<(), Error>)
        ensures
            final(self).spec_containers() == old(self).spec_containers(),
            final(self).spec_allowed_layouts() == old(self).spec_allowed_layouts(),
            final(self).spec_screen() == old(self).spec_screen(),
            final(self).spec_name() == old(self).spec_name(),
            final(self).spec_id() == old(self).spec_id(),
            final(self).spec_focus() == old(self).spec_focus(),
            match layout_named(spec_to_lowercase(layout_string@)) {
                Some(l) => r is Ok && final(self).spec_layout() == (if l.spec_mask()
                    & old(self).spec_allowed_layouts() != 0 {
                    l
                } else {
                    old(self).spec_layout()
                }),
                None => r matches Err(Error::UnknownLayout(x)) && x@ == layout_string@
                    && final(self).spec_layout() == old(self).spec_layout(),
            },
    {
        let layout = LayoutType::try_from_str(layout_string.as_str())?;
        if layout.mask() & self.allowed_layouts_mask != 0 {
            self.layout = layout;
        }
        Ok(())
    }

    /// Switch to the next allowed layout (by mask bit, lowest first, going round).
    pub fn cycle_layout(&mut self) -> (r: Result<(), Error>)
        ensures
            final(self).spec_containers() == old(self).spec_containers(),
            final(self).spec_allowed_layouts() == old(self).spec_allowed_layouts(),
            final(self).spec_screen() == old(self).spec_screen(),
            final(self).spec_name() == old(self).spec_name(),
            final(self).spec_id() == old(self).spec_id(),
            final(self).spec_focus() == old(self).spec_focus(),
            if old(self).spec_allowed_layouts() == 0 {
                r matches Err(Error::NoLayouts) && final(self).spec_layout() == old(self).spec_layout()
            } else {
                match next_layout(old(self).spec_allowed_layouts(), old(self).spec_layout()) {
                    None => r is Ok && final(self).spec_layout() == old(self).spec_layout(),
                    Some(Ok(l)) => r is Ok && final(self).spec_layout() == l,
                    Some(Err(n)) => r matches Err(Error::InvalidLayoutId(x)) && x == n
                        && final(self).spec_layout() == old(self).spec_layout(),
                }
            },
    {
        if self.allowed_layouts_mask == 0 {
            return Err(Error::NoLayouts);
        }
        let n = self.layout.mask();
        let mut active_layouts: Vec<u64> = Vec::new();
        let mut ii: u64 = 0;
        while ii < 64
            invariant
                ii <= 64,
                *self == *old(self),
                active_layouts@ == mask_bits(self.allowed_layouts_mask, ii as nat),
            decreases 64 - ii,
        {
            if self.allowed_layouts_mask & (1u64 << ii) != 0 {
                active_layouts.push(1u64 << ii);
            }
            ii = ii + 1;
        }
        let ghost bits = active_layouts@;
        let mut index: usize = 0;
        while index < active_layouts.len()
            invariant
                active_layouts@ == bits,
                bits == mask_bits(self.allowed_layouts_mask, 64),
                index <= bits.len(),
                forall|j: int| 0 <= j < index ==> bits[j] != n,
                n == self.layout.spec_mask(),
                *self == *old(self),
                self.allowed_layouts_mask != 0,
            decreases bits.len() - index,
        {
            if active_layouts[index] == n {
                proof {
                    lemma_position_of(bits, n, 0, index as int);
                    assert(position_of(bits, n, 0) == index as int);
                    assert(old(self).spec_allowed_layouts() == self.allowed_layouts_mask);
                    assert(old(self).spec_layout() == self.layout);
                }
                if index + 1 < active_layouts.len() {
                    match LayoutType::try_from_mask(active_layouts[index + 1]) {
                        Ok(l) => {
                            self.layout = l;
                            return Ok(());
                        },
                        Err(e) => {
                            return Err(e);
                        },
                    }
                } else if active_layouts.len() > 1 {
                    match LayoutType::try_from_mask(active_layouts[0]) {
                        Ok(l) => {
                            self.layout = l;
                            return Ok(());
                        },
                        Err(e) => {
                            return Err(e);
                        },
                    }
                } else {
                    return Ok(());
                }
            }
            index = index + 1;
        }
        proof {
            lemma_position_of(bits, n, 0, bits.len() as int);
        }
        Ok(())
    }

    /// Some container holds a client with the window id `wid`.
    pub fn contains_window(&self, wid: u32) -> (r: bool)
        ensures
            r == has_window(self.containers_view(), wid),
    {
        self.containers.id_for_window(wid).is_ok()
    }

    /// The first container holding a client with the window id `wid`.
    pub fn find_by_window_id(&self, wid: u32) -> (r: Result<&Container, Error>)
        requires
            self.wf(),
        ensures
            match r {
                Ok(c) => exists|i: int| first_with_window(self.containers_view(), wid, i) && *c == self.containers_view()[i],
                Err(e) => !has_window(self.containers_view(), wid) && e == Error::NoContainerForWindow(wid),
            },
    {
        let id = self.containers.id_for_window(wid)?;
        proof {
            let i = choose|i: int| first_with_window(self.containers_view(), wid, i) && self.containers_view()[i].container_id == id;
            assert(has_id(self.containers_view(), id));
            let k = index_of_id(self.containers_view(), id);
            assert(k == i);
        }
        self.containers.find(id)
    }

    /// Put a client into a new container at the end of the workspace.
    pub fn insert_client(&mut self, c: Client, t: u8) -> (r: ContainerId)
        requires
            old(self).wf(),
            old(self).can_insert(),
        ensures
            final(self).wf(),
            r == ContainerId::spec_new(old(self).spec_id(), (old(self).spec_containers().spec_last_id() + 1) as u32),
            !has_id(old(self).containers_view(), r),
            final(self).containers_view() == old(self).containers_view().push(new_container(c, r, t)),
            final(self).spec_containers().spec_last_id() == old(self).spec_containers().spec_last_id() + 1,
            final(self).spec_layout() == old(self).spec_layout(),
            final(self).spec_allowed_layouts() == old(self).spec_allowed_layouts(),
            final(self).spec_screen() == old(self).spec_screen(),
            final(self).spec_name() == old(self).spec_name(),
            final(self).spec_id() == old(self).spec_id(),
            final(self).spec_focus() == old(self).spec_focus(),
    {
        self.containers.insert_back(c, t)
    }

    /// Put clients into new containers at the end of the workspace, pairing each client with
    /// a container type mask (as far as both lists go).
    pub fn insert_many(&mut self, cs: Vec<Client>, t: Vec<u8>) -> (r: Vec<ContainerId>)
        requires
            old(self).wf(),
            old(self).spec_containers().spec_last_id() + (if cs@.len() <= t@.len() { cs@.len() } else { t@.len() }) <= u32::MAX,
        ensures
            final(self).wf(),
            r@.len() == (if cs@.len() <= t@.len() { cs@.len() } else { t@.len() }),
            final(self).containers_view() == old(self).containers_view() + Seq::new(
                r@.len(),
                |i: int| new_container(cs@[i], r@[i], t@[i]),
            ),
            forall|i: int| 0 <= i < r@.len() ==> r@[i] == ContainerId::spec_new(
                old(self).spec_id(),
                (old(self).spec_containers().spec_last_id() + i + 1) as u32,
            ),
            final(self).spec_containers().spec_last_id() == old(self).spec_containers().spec_last_id() + r@.len(),
            final(self).spec_layout() == old(self).spec_layout(),
            final(self).spec_allowed_layouts() == old(self).spec_allowed_layouts(),
            final(self).spec_screen() == old(self).spec_screen(),
            final(self).spec_name() == old(self).spec_name(),
            final(self).spec_id() == old(self).spec_id(),
            final(self).spec_focus() == old(self).spec_focus(),
    {
        let m = if cs.len() <= t.len() {
            cs.len()
        } else {
            t.len()
        };
        let mut ret: Vec<ContainerId> = Vec::new();
        let mut i: usize = 0;
        while i < m
            invariant
                self.wf(),
                i <= m,
                m == (if cs@.len() <= t@.len() { cs@.len() } else { t@.len() }),
                ret@.len() == i,
                self.spec_containers().spec_last_id() == old(self).spec_containers().spec_last_id() + i,
                old(self).spec_containers().spec_last_id() + m <= u32::MAX,
                self.containers_view() == old(self).containers_view() + Seq::new(
                    i as nat,
                    |j: int| new_container(cs@[j], ret@[j], t@[j]),
                ),
                forall|j: int| 0 <= j < i ==> ret@[j] == ContainerId::spec_new(
                    old(self).spec_id(),
                    (old(self).spec_containers().spec_last_id() + j + 1) as u32,
                ),
                self.spec_layout() == old(self).spec_layout(),
                self.spec_allowed_layouts() == old(self).spec_allowed_layouts(),
                self.spec_screen() == old(self).spec_screen(),
                self.spec_name() == old(self).spec_name(),
                self.spec_id() == old(self).spec_id(),
                self.spec_focus() == old(self).spec_focus(),
            decreases m - i,
        {
            let id = self.containers.insert_back(cs[i], t[i]);
            ret.push(id);
            proof {
                assert(self.containers_view() =~= old(self).containers_view() + Seq::new(
                    (i + 1) as nat,
                    |j: int| new_container(cs@[j], ret@[j], t@[j]),
                ));
            }
            i = i + 1;
        }
        ret
    }

    /// Lay out the workspace on `screen_size` (or on its own screen area) and return what the
    /// X server has to do.
    pub fn apply_layout(&mut self, screen_size: Option<Geometry>) -> (r: Vec<LayoutEffect>)
        requires
            old(self).wf(),
            old(self).spec_layout().can_apply(in_layout_count(old(self).containers_view())),
        ensures
            final(self).wf(),
            layout_applied(*old(self), *final(self), screen_size, r@),
    {
        let screen = match screen_size {
            Some(g) => g,
            None => self.screen_size,
        };
        let focused = self.focus.focused_client();
        self.layout.apply(screen, &mut self.containers, focused)
    }

    /// Is there an id left for another container?
    pub fn has_room_for_container(&self) -> (r: bool)
        ensures
            r == self.can_insert(),
    {
        self.containers.last_id() < u32::MAX
    }

    /// How many containers the workspace has.
    pub fn in_layout_len_total(&self) -> (r: usize)
        ensures
            r == self.containers_view().len(),
    {
        self.containers.iter().len()
    }

    /// How many clients are placed by the layout.
    pub fn in_layout_len(&self) -> (r: usize)
        ensures
            r == in_layout_count(self.containers_view()),
    {
        self.containers.in_layout_len()
    }

    /// Remove the first container holding the window `wid`, if there is one.
    pub fn remove_window(&mut self, wid: u32) -> (r: Result<(), Error>)
        requires
            old(self).wf(),
        ensures
            final(self).wf(),
            r is Ok,
            final(self).containers_view() == (if has_window(old(self).containers_view(), wid) {
                old(self).containers_view().remove(choose|i: int| first_with_window(old(self).containers_view(), wid, i))
            } else {
                old(self).containers_view()
            }),
            final(self).spec_containers().spec_last_id() == old(self).spec_containers().spec_last_id(),
            final(self).spec_layout() == old(self).spec_layout(),
            final(self).spec_allowed_layouts() == old(self).spec_allowed_layouts(),
            final(self).spec_screen() == old(self).spec_screen(),
            final(self).spec_name() == old(self).spec_name(),
            final(self).spec_id() == old(self).spec_id(),
            final(self).spec_focus() == old(self).spec_focus(),
    {
        if let Ok(id) = self.containers.id_for_window(wid) {
            proof {
                lemma_first_window_unique(self.containers_view(), wid);
                let i = choose|i: int| first_with_window(self.containers_view(), wid, i);
                assert(has_id(self.containers_view(), id));
                assert(index_of_id(self.containers_view(), id) == i);
            }
            self.containers.remove(id)?;
        }
        Ok(())
    }

    /// Take out the first container holding the window `wid`, to move it elsewhere.
    pub fn remove_and_return_window(&mut self, wid: u32) -> (r: Result<Container, Error>)
        requires
            old(self).wf(),
        ensures
            final(self).wf(),
            if has_window(old(self).containers_view(), wid) {
                let i = choose|i: int| first_with_window(old(self).containers_view(), wid, i);
                r == Ok::<Container, Error>(old(self).containers_view()[i])
                    && final(self).containers_view() == old(self).containers_view().remove(i)
            } else {
                r matches Err(Error::NoClientToRemove(x)) && x == wid
                    && final(self).containers_view() == old(self).containers_view()
            },
            final(self).spec_containers().spec_last_id() == old(self).spec_containers().spec_last_id(),
            final(self).spec_layout() == old(self).spec_layout(),
            final(self).spec_allowed_layouts() == old(self).spec_allowed_layouts(),
            final(self).spec_screen() == old(self).spec_screen(),
            final(self).spec_name() == old(self).spec_name(),
            final(self).spec_id() == old(self).spec_id(),
            final(self).spec_focus() == old(self).spec_focus(),
    {
        if let Ok(id) = self.containers.id_for_window(wid) {
            proof {
                lemma_first_window_unique(self.containers_view(), wid);
                let i = choose|i: int| first_with_window(self.containers_view(), wid, i);
                assert(has_id(self.containers_view(), id));
                assert(index_of_id(self.containers_view(), id) == i);
            }
            return self.containers.remove(id);
        }
        Err(Error::NoClientToRemove(wid))
    }

    /// The container after the one with id `c`, going round.
    pub fn next_container(&self, c: ContainerId) -> (r: Result<&Container, Error>)
        requires
            self.wf(),
        ensures
            if has_id(self.containers_view(), c) {
                r matches Ok(x) && *x == self.containers_view()[next_index(
                    self.containers_view().len() as int,
                    index_of_id(self.containers_view(), c),
                )]
            } else {
                r matches Err(Error::NoNeighbourContainer)
            },
    {
        self.containers.next_for_id(c)
    }

    /// The container before the one with id `c`, going round.
    pub fn previous_container(&self, c: ContainerId) -> (r: Result<&Container, Error>)
        requires
            self.wf(),
        ensures
            if has_id(self.containers_view(), c) {
                r matches Ok(x) && *x == self.containers_view()[previous_index(
                    self.containers_view().len() as int,
                    index_of_id(self.containers_view(), c),
                )]
            } else {
                r matches Err(Error::NoNeighbourContainer)
            },
    {
        self.containers.previous_for_id(c)
    }

    /// The container with id `id`.
    pub fn find(&self, id: ContainerId) -> (r: Result<&Container, Error>)
        requires
            self.wf(),
        ensures
            if has_id(self.containers_view(), id) {
                r matches Ok(c) && *c == self.containers_view()[index_of_id(self.containers_view(), id)]
            } else {
                r matches Err(Error::ContainerNotFound(x)) && x == id
            },
    {
        self.containers.find(id)
    }

    /// Replace the container with id `id` (it keeps its id).
    pub fn replace(&mut self, id: ContainerId, container: Container) -> (r: Result<(), Error>)
        requires
            old(self).wf(),
        ensures
            final(self).wf(),
            if has_id(old(self).containers_view(), id) {
                r is Ok && final(self).containers_view() == old(self).containers_view().update(
                    index_of_id(old(self).containers_view(), id),
                    (Container { container_id: id, ..container }),
                )
            } else {
                r matches Err(Error::ContainerNotFound(x)) && x == id
                    && final(self).containers_view() == old(self).containers_view()
            },
            final(self).spec_containers().spec_last_id() == old(self).spec_containers().spec_last_id(),
            final(self).spec_layout() == old(self).spec_layout(),
            final(self).spec_allowed_layouts() == old(self).spec_allowed_layouts(),
            final(self).spec_screen() == old(self).spec_screen(),
            final(self).spec_name() == old(self).spec_name(),
            final(self).spec_id() == old(self).spec_id(),
            final(self).spec_focus() == old(self).spec_focus(),
    {
        self.containers.replace(id, container)
    }

    /// The containers, in order.
    pub fn iter_containers(&self) -> (r: Result<&[Container], Error>)
        ensures
            r matches Ok(s) && s@ == self.containers_view(),
    {
        Ok(self.containers.iter())
    }

    /// Take a container from elsewhere: it gets a fresh id and goes to the end.
    pub fn insert_container(&mut self, container: Container) -> (r: Result<ContainerId, Error>)
        requires
            old(self).wf(),
            old(self).can_insert(),
        ensures
            final(self).wf(),
            r matches Ok(id) && id == ContainerId::spec_new(
                old(self).spec_id(),
                (old(self).spec_containers().spec_last_id() + 1) as u32,
            ) && !has_id(old(self).containers_view(), id) && final(self).containers_view()
                == old(self).containers_view().push((Container { container_id: id, ..container })),
            final(self).spec_containers().spec_last_id() == old(self).spec_containers().spec_last_id() + 1,
            final(self).spec_layout() == old(self).spec_layout(),
            final(self).spec_allowed_layouts() == old(self).spec_allowed_layouts(),
            final(self).spec_screen() == old(self).spec_screen(),
            final(self).spec_name() == old(self).spec_name(),
            final(self).spec_id() == old(self).spec_id(),
            final(self).spec_focus() == old(self).spec_focus(),
    {
        self.containers.container_insert_back(container)
    }

    /// The screen area of the workspace.
    pub fn screen(&self) -> (r: Geometry)
        ensures
            r == self.spec_screen(),
    {
        self.screen_size
    }

    /// Swap two containers, given their ids.
    pub fn swap(&mut self, a: ContainerId, b: ContainerId) -> (r: Result<(), Error>)
        requires
            old(self).wf(),
        ensures
            final(self).wf(),
            if !has_id(old(self).containers_view(), a) {
                r matches Err(Error::WrongContainerId(x)) && x == a
                    && final(self).containers_view() == old(self).containers_view()
            } else if !has_id(old(self).containers_view(), b) {
                r matches Err(Error::WrongContainerId(x)) && x == b
                    && final(self).containers_view() == old(self).containers_view()
            } else {
                r is Ok && final(self).containers_view() == crate::wm::container::swapped(old(self).containers_view(), a, b)
            },
            final(self).spec_containers().spec_last_id() == old(self).spec_containers().spec_last_id(),
            final(self).spec_layout() == old(self).spec_layout(),
            final(self).spec_allowed_layouts() == old(self).spec_allowed_layouts(),
            final(self).spec_screen() == old(self).spec_screen(),
            final(self).spec_name() == old(self).spec_name(),
            final(self).spec_id() == old(self).spec_id(),
            final(self).spec_focus() == old(self).spec_focus(),
    {
        self.containers.swap(a, b)?;
        Ok(())
    }
}

/// There is one first position holding a given window.
pub proof fn lemma_first_window_unique(s: Seq<Container>, wid: u32)
    requires
        has_window(s, wid),
    ensures
        exists|i: int| first_with_window(s, wid, i),
        forall|i: int, j: int| first_with_window(s, wid, i) && first_with_window(s, wid, j) ==> i == j,
{
    let k = choose|k: int| 0 <= k < s.len() && s[k].container_type.spec_window_id() == Some(wid);
    lemma_first_window_exists(s, wid, k);
}

proof fn lemma_first_window_exists(s: Seq<Container>, wid: u32, k: int)
    requires
        0 <= k < s.len(),
        s[k].container_type.spec_window_id() == Some(wid),
    ensures
        exists|i: int| first_with_window(s, wid, i),
    decreases k,
{
    if forall|j: int| 0 <= j < k ==> s[j].container_type.spec_window_id() != Some(wid) {
        assert(first_with_window(s, wid, k));
    } else {
        let j = choose|j: int| 0 <= j < k && s[j].container_type.spec_window_id() == Some(wid);
        lemma_first_window_exists(s, wid, j);
    }
}

} // verus!
