use vstd::prelude::*;

use crate::config::Config;
use crate::utils::{border_color_value, parse_border_color};

verus! {

/// A rectangle on the screen.
#[derive(Debug, Clone, Copy, PartialEq, Eq, Structural)]
pub struct Geometry {
    pub x: i16,
    pub y: i16,
    pub width: u16,
    pub height: u16,
}

impl Default for Geometry {
    fn default() -> (r: Self)
        ensures
            r == (Geometry { x: 0, y: 0, width: 0, height: 0 }),
    {
        Geometry { x: 0, y: 0, width: 0, height: 0 }
    }
}

impl Geometry {
    /// `self` without a strip of `rhs`: the position of `rhs` (its height as the `y`),
    /// the width less `rhs`'s `x` and the height less `rhs`'s height (both wrapping).
    pub fn sub(self, rhs: Self) -> (r: Self)
        ensures
            r == (Geometry {
                x: rhs.x,
                y: rhs.height as i16,
                width: self.width.wrapping_sub(rhs.x as u16),
                height: self.height.wrapping_sub(rhs.height),
            }),
    {
        Geometry {
            x: rhs.x,
            y: rhs.height as i16,
            width: self.width.wrapping_sub(rhs.x as u16),
            height: self.height.wrapping_sub(rhs.height),
        }
    }

    /// The area of `self` that is left once a bar of geometry `other` takes its strip.
    ///
    /// When the bar sits at the top edge of `self` (same `y`), the area starts below it;
    /// in any case the height shrinks by the bar's height.
    pub fn minus_bar(self, other: Self) -> (r: Self)
        ensures
            r.x == self.x,
            r.width == self.width,
            r.height == self.height.wrapping_sub(other.height),
            r.y == (if self.y == other.y {
                self.y.wrapping_add(other.height as i16)
            } else {
                self.y
            }),
    {
        let height = self.height.wrapping_sub(other.height);
        let mut y_0 = self.y;
        if y_0 == other.y {
            y_0 = y_0.wrapping_add(other.height as i16);
        }
        Geometry { x: self.x, y: y_0, width: self.width, height }
    }
}

/// Gaps and border of a client window, in pixels, and its border color as `0xRRGGBB`.
#[derive(Debug, Clone, Copy, PartialEq, Eq, Structural)]
pub struct ClientAttributes {
    pub gap_top: u32,
    pub gap_bottom: u32,
    pub gap_left: u32,
    pub gap_right: u32,
    pub border_size: u32,
    pub border_color: u32,
}

impl Default for ClientAttributes {
    fn default() -> (r: Self)
        ensures
            r == (ClientAttributes {
                gap_top: 0,
                gap_bottom: 0,
                gap_left: 0,
                gap_right: 0,
                border_size: 0,
                border_color: 0,
            }),
    {
        ClientAttributes {
            gap_top: 0,
            gap_bottom: 0,
            gap_left: 0,
            gap_right: 0,
            border_size: 0,
            border_color: 0,
        }
    }
}

/// The size of a gap or border side: its configured size when enabled, else nothing.
pub open spec fn enabled_size(enabled: bool, size: u32) -> u32 {
    if enabled {
        size
    } else {
        0
    }
}

pub open spec fn max_u32(a: u32, b: u32) -> u32 {
    if a >= b {
        a
    } else {
        b
    }
}

/// The client attributes that a configuration asks for.
pub open spec fn attributes_of(config: Config) -> ClientAttributes {
    let o = config.settings;
    ClientAttributes {
        gap_top: enabled_size(o.gap_top, o.gap_top_size),
        gap_bottom: enabled_size(o.gap_bottom, o.gap_bottom_size),
        gap_left: enabled_size(o.gap_left, o.gap_left_size),
        gap_right: enabled_size(o.gap_right, o.gap_right_size),
        border_size: max_u32(
            max_u32(
                enabled_size(o.border_up, o.border_up_size),
                enabled_size(o.border_down, o.border_down_size),
            ),
            max_u32(
                enabled_size(o.border_left, o.border_left_size),
                enabled_size(o.border_right, o.border_right_size),
            ),
        ),
        border_color: border_color_value(o.border_color@),
    }
}

fn size_if(enabled: bool, size: u32) -> (r: u32)
    ensures
        r == enabled_size(enabled, size),
{
    if enabled {
        size
    } else {
        0
    }
}

fn max_of(a: u32, b: u32) -> (r: u32)
    ensures
        r == max_u32(a, b),
{
    if a >= b {
        a
    } else {
        b
    }
}

impl ClientAttributes {
    /// Gaps, border width and border color of clients, as configured.
    ///
    /// A gap side counts only when it is enabled; the border is as wide as the widest
    /// enabled border side; a border color that is not `#RRGGBB` reads as black.
    pub fn from_config(config: &Config) -> (r: Self)
        ensures
            r == attributes_of(*config),
    {
        let o = &config.settings;
        let up = size_if(o.border_up, o.border_up_size);
        let down = size_if(o.border_down, o.border_down_size);
        let left = size_if(o.border_left, o.border_left_size);
        let right = size_if(o.border_right, o.border_right_size);
        ClientAttributes {
            gap_top: size_if(o.gap_top, o.gap_top_size),
            gap_bottom: size_if(o.gap_bottom, o.gap_bottom_size),
            gap_left: size_if(o.gap_left, o.gap_left_size),
            gap_right: size_if(o.gap_right, o.gap_right_size),
            border_size: max_of(max_of(up, down), max_of(left, right)),
            border_color: parse_border_color(o.border_color.as_str()),
        }
    }
}

} // verus!
