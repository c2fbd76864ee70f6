use vstd::prelude::*;

verus! {

/// The X11 keysym value of the left Shift key (`X11/keysymdef.h`).
pub const XK_SHIFT_L: u32 = 0xFFE1;
/// The X11 keysym value of the right Shift key.
pub const XK_SHIFT_R: u32 = 0xFFE2;
/// The X11 keysym value of the left Control key.
pub const XK_CONTROL_L: u32 = 0xFFE3;
/// The X11 keysym value of the right Control key.
pub const XK_CONTROL_R: u32 = 0xFFE4;
/// The X11 keysym value of the Caps Lock key.
pub const XK_CAPS_LOCK: u32 = 0xFFE5;
/// The X11 keysym value of the left Meta key.
pub const XK_META_L: u32 = 0xFFE7;
/// The X11 keysym value of the right Meta key.
pub const XK_META_R: u32 = 0xFFE8;
/// The X11 keysym value of the left Alt key.
pub const XK_ALT_L: u32 = 0xFFE9;
/// The X11 keysym value of the right Alt key.
pub const XK_ALT_R: u32 = 0xFFEA;
/// The X11 keysym value of the left Super key.
pub const XK_SUPER_L: u32 = 0xFFEB;
/// The X11 keysym value of the right Super key.
pub const XK_SUPER_R: u32 = 0xFFEC;

/// An X11 keysym: its name, the keycode it was read from (if any) and its value.
#[derive(Clone, PartialEq, Eq, Debug)]
pub struct Keysym {
    pub name: String,
    pub code: Option<u8>,
    pub value: u64,
}

/// Is the keysym value (taken as 32 bits) one of the Super, Control, Alt or Shift keys?
pub open spec fn is_mod_value(v: u32) -> bool {
    v == XK_SUPER_L || v == XK_SUPER_R || v == XK_CONTROL_L || v == XK_CONTROL_R || v == XK_ALT_L
        || v == XK_ALT_R || v == XK_SHIFT_L || v == XK_SHIFT_R
}

/// The modifier mask of a modifier keysym value: Shift is bit 0, Control bit 2, left Super
/// bit 6; the other modifier keys (right Super, both Alts) give no bit.
pub open spec fn mod_mask_of(v: u32) -> u16 {
    if !is_mod_value(v) {
        0
    } else if v == XK_SHIFT_R || v == XK_SHIFT_L {
        1
    } else if v == XK_CONTROL_R || v == XK_CONTROL_L {
        4
    } else if v == XK_SUPER_L {
        64
    } else {
        0
    }
}

impl Keysym {
    /// A keysym of the given name and value, read from no keycode.
    pub fn new(name: String, value: u64) -> (r: Self)
        ensures
            r.name@ == name@,
            r.value == value,
            r.code is None,
    {
        Keysym { name, value, code: None }
    }

    /// A keysym of the given name and value, read from the given keycode.
    pub fn new_full(name: String, value: u64, code: Option<u8>) -> (r: Self)
        ensures
            r.name@ == name@,
            r.value == value,
            r.code == code,
    {
        Keysym { name, value, code }
    }

    /// The name of the keysym, such as `a` or `Super_L`.
    pub fn name(&self) -> (r: String)
        ensures
            r@ == self.name@,
    {
        self.name.clone()
    }

    /// The keycode the keysym was read from, or 0.
    pub fn code(&self) -> (r: u8)
        ensures
            r == match self.code {
                Some(c) => c,
                None => 0,
            },
    {
        if let Some(c) = self.code {
            return c;
        }
        0
    }

    /// The value of the keysym.
    pub fn value(&self) -> (r: u64)
        ensures
            r == self.value,
    {
        self.value
    }

    /// Is the keysym a modifier key: Shift, Control, Alt or Super?
    pub fn is_mod(&self) -> (r: bool)
        ensures
            r == is_mod_value(self.value as u32),
    {
        let v = self.value() as u32;
        v == XK_SUPER_L || v == XK_SUPER_R || v == XK_CONTROL_L || v == XK_CONTROL_R || v == XK_ALT_L
            || v == XK_ALT_R || v == XK_SHIFT_L || v == XK_SHIFT_R
    }

    /// The modifier mask bit of the keysym, 0 if it gives none.
    pub fn mod_mask(&self) -> (r: u16)
        ensures
            r == mod_mask_of(self.value as u32),
    {
        if self.is_mod() {
            let v = self.value() as u32;
            if v == XK_SHIFT_R || v == XK_SHIFT_L {
                return 1;
            } else if v == XK_CAPS_LOCK {
                return 2;
            } else if v == XK_CONTROL_R || v == XK_CONTROL_L {
                return 4;
            } else if v == XK_META_L || v == XK_META_R {
                return 8;
            } else if v == XK_SUPER_L {
                return 64;
            } else {
                return 0;
            }
        }
        0
    }
}

} // verus!
