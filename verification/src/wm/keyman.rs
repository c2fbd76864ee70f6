use vstd::prelude::*;

use crate::config::keysyms::{is_mod_value, mod_mask_of, Keysym};
use crate::error::Error;
use crate::wm::actions::Action;

verus! {

/// The keycode of a keysym, or 0 when it was read from none.
pub open spec fn code_of(k: Keysym) -> u8 {
    match k.code {
        Some(c) => c,
        None => 0,
    }
}

/// The modifier mask of a keybind's keysyms: the bits of its modifier keys together.
pub open spec fn keys_mask(ks: Seq<Keysym>) -> u16
    decreases ks.len(),
{
    if ks.len() == 0 {
        0
    } else if is_mod_value(ks.last().value as u32) {
        keys_mask(ks.drop_last()) | mod_mask_of(ks.last().value as u32)
    } else {
        keys_mask(ks.drop_last())
    }
}

/// The keycodes of a keybind's keysyms that are not modifiers, in order.
pub open spec fn keys_codes(ks: Seq<Keysym>) -> Seq<u8>
    decreases ks.len(),
{
    if ks.len() == 0 {
        seq![]
    } else if is_mod_value(ks.last().value as u32) {
        keys_codes(ks.drop_last())
    } else {
        keys_codes(ks.drop_last()).push(code_of(ks.last()))
    }
}

/// A keybind as the key manager matches it: a modifier mask and keycodes.
#[derive(Debug, Clone)]
pub struct ManagedKeybind {
    pub mask: u16,
    pub codes: Vec<u8>,
    pub action: Action,
}

/// Remembers the keys held down and finds the keybind they make.
#[derive(Debug)]
pub struct KeyManager {
    pub managed_keybinds: Vec<ManagedKeybind>,
    pub keys: Vec<u8>,
    pub mask: u16,
}

/// The modifier mask and keycodes of a keybind's keysyms.
fn mask_and_codes(ks: &Vec<Keysym>) -> (r: (u16, Vec<u8>))
    ensures
        r.0 == keys_mask(ks@),
        r.1@ == keys_codes(ks@),
{
    let mut mask: u16 = 0;
    let mut codes: Vec<u8> = Vec::new();
    let mut i: usize = 0;
    proof {
        assert(ks@.subrange(0, 0) =~= Seq::<Keysym>::empty());
    }
    while i < ks.len()
        invariant
            i <= ks@.len(),
            mask == keys_mask(ks@.subrange(0, i as int)),
            codes@ == keys_codes(ks@.subrange(0, i as int)),
        decreases ks@.len() - i,
    {
        proof {
            assert(ks@.subrange(0, i + 1).drop_last() =~= ks@.subrange(0, i as int));
        }
        let keysym = &ks[i];
        if keysym.is_mod() {
            mask = mask | keysym.mod_mask();
        } else {
            codes.push(keysym.code());
        }
        i = i + 1;
    }
    proof {
        assert(ks@.subrange(0, ks@.len() as int) =~= ks@);
    }
    (mask, codes)
}

/// The first keybind whose keycodes and mask are `keys` and `mask`.
pub open spec fn first_match(kbs: Seq<ManagedKeybind>, keys: Seq<u8>, mask: u16) -> Option<int>
    decreases kbs.len(),
{
    if kbs.len() == 0 {
        None
    } else {
        match first_match(kbs.drop_last(), keys, mask) {
            Some(i) => Some(i),
            None => if kbs.last().codes@ == keys && kbs.last().mask == mask {
                Some(kbs.len() - 1)
            } else {
                None
            },
        }
    }
}

proof fn lemma_first_match_prefix(s: Seq<ManagedKeybind>, k: int, keys: Seq<u8>, mask: u16)
    requires
        0 < k <= s.len(),
        first_match(s.subrange(0, k - 1), keys, mask) is None,
        s[k - 1].codes@ == keys && s[k - 1].mask == mask,
    ensures
        first_match(s, keys, mask) == Some(k - 1),
    decreases s.len(),
{
    if s.len() > k {
        assert(s.drop_last().subrange(0, k - 1) =~= s.subrange(0, k - 1));
        assert(s.drop_last()[k - 1] == s[k - 1]);
        lemma_first_match_prefix(s.drop_last(), k, keys, mask);
    } else {
        assert(s.drop_last() =~= s.subrange(0, k - 1));
    }
}

impl Default for KeyManager {
    /// A key manager with no keybinds and no keys held.
    fn default() -> (r: Self)
        ensures
            r.managed_keybinds@.len() == 0,
            r.keys@.len() == 0,
            r.mask == 0,
    {
        KeyManager { managed_keybinds: Vec::new(), keys: Vec::new(), mask: 0 }
    }
}

impl KeyManager {
    /// Sets up the keybinds from the keysyms of each keybind (with their keycodes) and its
    /// action: modifier keysyms make the mask, the others the keycodes.
    pub fn init(&mut self, keybinds: Vec<(Vec<Keysym>, Action)>) -> (r: Result<(), Error>)
        ensures
            r is Ok,
            final(self).keys == old(self).keys,
            final(self).mask == old(self).mask,
            final(self).managed_keybinds@.len() == keybinds@.len(),
            forall|i: int| 0 <= i < keybinds@.len() ==> {
                &&& (#[trigger] final(self).managed_keybinds@[i]).mask == keys_mask(keybinds@[i].0@)
                &&& final(self).managed_keybinds@[i].codes@ == keys_codes(keybinds@[i].0@)
                &&& final(self).managed_keybinds@[i].action@ == keybinds@[i].1@
            },
    {
        let mut managed: Vec<ManagedKeybind> = Vec::new();
        let mut i: usize = 0;
        while i < keybinds.len()
            invariant
                i <= keybinds@.len(),
                managed@.len() == i,
                forall|j: int| 0 <= j < i ==> {
                    &&& (#[trigger] managed@[j]).mask == keys_mask(keybinds@[j].0@)
                    &&& managed@[j].codes@ == keys_codes(keybinds@[j].0@)
                    &&& managed@[j].action@ == keybinds@[j].1@
                },
            decreases keybinds@.len() - i,
        {
            let (mask, codes) = mask_and_codes(&keybinds[i].0);
            managed.push(ManagedKeybind { mask, codes, action: keybinds[i].1.duplicate() });
            i = i + 1;
        }
        self.managed_keybinds = managed;
        Ok(())
    }

    /// The modifier mask and keycodes to grab for each keybind, from its keysyms.
    pub fn get_grab_codes(&self, keybinds: Vec<Vec<Keysym>>) -> (r: Result<Vec<(u16, Vec<u8>)>, Error>)
        ensures
            r matches Ok(v) && v@.len() == keybinds@.len() && forall|i: int| 0 <= i < keybinds@.len() ==> {
                &&& (#[trigger] v@[i]).0 == keys_mask(keybinds@[i]@)
                &&& v@[i].1@ == keys_codes(keybinds@[i]@)
            },
    {
        let mut ret: Vec<(u16, Vec<u8>)> = Vec::new();
        let mut i: usize = 0;
        while i < keybinds.len()
            invariant
                i <= keybinds@.len(),
                ret@.len() == i,
                forall|j: int| 0 <= j < i ==> {
                    &&& (#[trigger] ret@[j]).0 == keys_mask(keybinds@[j]@)
                    &&& ret@[j].1@ == keys_codes(keybinds@[j]@)
                },
            decreases keybinds@.len() - i,
        {
            ret.push(mask_and_codes(&keybinds[i]));
            i = i + 1;
        }
        Ok(ret)
    }

    /// A key went down with the given keycode and modifier state. The keycode is added to
    /// the keys held, the state becomes the mask, and the action of the first keybind with
    /// exactly these keys and mask is returned.
    pub fn key_press(&mut self, detail: u8, state: u16) -> (r: Result<Option<Action>, Error>)
        ensures
            final(self).keys@ == old(self).keys@.push(detail),
            final(self).mask == state,
            final(self).managed_keybinds@ == old(self).managed_keybinds@,
            r matches Ok(found) && match first_match(old(self).managed_keybinds@, old(self).keys@.push(detail), state) {
                Some(i) => found matches Some(a) && a@ == old(self).managed_keybinds@[i].action@,
                None => found is None,
            },
    {
        self.keys.push(detail);
        self.mask = state;
        let ghost kbs = self.managed_keybinds@;
        let mut i: usize = 0;
        proof {
            assert(kbs.subrange(0, 0) =~= Seq::<ManagedKeybind>::empty());
        }
        while i < self.managed_keybinds.len()
            invariant
                kbs == self.managed_keybinds@,
                kbs == old(self).managed_keybinds@,
                self.keys@ == old(self).keys@.push(detail),
                self.mask == state,
                i <= kbs.len(),
                first_match(kbs.subrange(0, i as int), self.keys@, self.mask) is None,
            decreases kbs.len() - i,
        {
            proof {
                assert(kbs.subrange(0, i + 1).drop_last() =~= kbs.subrange(0, i as int));
            }
            let keybind = &self.managed_keybinds[i];
            if same_codes(&self.keys, &keybind.codes) && self.mask == keybind.mask {
                proof {
                    lemma_first_match_prefix(kbs, i as int + 1, self.keys@, self.mask);
                }
                return Ok(Some(keybind.action.duplicate()));
            }
            i = i + 1;
        }
        proof {
            assert(kbs.subrange(0, kbs.len() as int) =~= kbs);
        }
        Ok(None)
    }

    /// A key went up: no keys are held and the mask is cleared.
    pub fn key_release(&mut self) -> (r: Result<(), Error>)
        ensures
            r is Ok,
            final(self).keys@.len() == 0,
            final(self).mask == 0,
            final(self).managed_keybinds@ == old(self).managed_keybinds@,
    {
        self.keys.clear();
        self.mask = 0;
        Ok(())
    }
}

/// Are two lists of keycodes the same?
fn same_codes(a: &Vec<u8>, b: &Vec<u8>) -> (r: bool)
    ensures
        r == (a@ == b@),
{
    if a.len() != b.len() {
        return false;
    }
    let mut i: usize = 0;
    while i < a.len()
        invariant
            a@.len() == b@.len(),
            i <= a@.len(),
            forall|j: int| 0 <= j < i ==> a@[j] == b@[j],
        decreases a@.len() - i,
    {
        if a[i] != b[i] {
            return false;
        }
        i = i + 1;
    }
    proof {
        assert(a@ =~= b@);
    }
    true
}

} // verus!
