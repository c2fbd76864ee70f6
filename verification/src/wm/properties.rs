//! Reading the value of a window property from the bytes of the X server's reply.

use vstd::prelude::*;

use x11rb::properties::{WmClass, WmHints, WmSizeHints};
use x11rb::protocol::xproto::GetPropertyReply;

use crate::error::Error;
use crate::text::{opt_chars, utf8_decoded, utf8_string};
use crate::wm::atoms::{WmClassWrapper, ATOM_STRING, ATOM_WM_CLASS, ATOM_WM_HINTS, ATOM_WM_SIZE_HINTS};

verus! {

#[verifier::external_type_specification]
#[verifier::external_body]
pub struct ExWmHints(x11rb::properties::WmHints);

#[verifier::external_type_specification]
#[verifier::external_body]
pub struct ExWmSizeHints(x11rb::properties::WmSizeHints);

/// One value read from a window property.
#[derive(Debug)]
pub enum PropertyValue {
    String(String),
    Byte(u8),
    DoubleByte(u16),
    Number(u32),
    WmClass(WmClassWrapper),
    WmHints(WmHints),
    WmSizeHints(WmSizeHints),
}

/// The text of a `STRING` property.
pub fn property_string(bytes: &[u8]) -> (r: Result<String, Error>)
    ensures
        match utf8_decoded(bytes@) {
            Some(s) => r matches Ok(x) && x@ == s,
            None => r matches Err(Error::InvalidUtf8),
        },
{
    match utf8_string(bytes) {
        Some(s) => Ok(s),
        None => Err(Error::InvalidUtf8),
    }
}

/// The position of the first zero byte of `v`, or its length when it has none.
pub open spec fn first_zero(v: Seq<u8>) -> int
    decreases v.len(),
{
    if v.len() == 0 || v[0] == 0 {
        0
    } else {
        1 + first_zero(v.drop_first())
    }
}

/// What `WmClass::from_reply` and its `instance` and `class` give for a reply of type
/// `reply_type` and format `format` holding `v`: no class unless the reply is an 8-bit
/// `STRING`; else the instance is the bytes before the first zero byte, and the class the
/// bytes after it, without a last zero byte.
pub open spec fn wm_class_parts(reply_type: u32, format: u8, v: Seq<u8>) -> Option<(Seq<u8>, Seq<u8>)> {
    if reply_type != ATOM_STRING || format != 8 {
        None
    } else {
        let off = first_zero(v);
        let class = if off + 1 >= v.len() {
            Seq::<u8>::empty()
        } else {
            v.subrange(off + 1, if v.last() == 0 { v.len() - 1 } else { v.len() as int })
        };
        Some((v.subrange(0, off), class))
    }
}

/// Calls `x11rb::properties::WmClass::from_reply` on a reply of the given type and format
/// holding `value`, and copies out the instance and the class it finds.
#[verifier::external_body]
fn wm_class_from(reply_type: u32, format: u8, value: &[u8]) -> (r: Option<(Vec<u8>, Vec<u8>)>)
    ensures
        match wm_class_parts(reply_type, format, value@) {
            Some((i, c)) => r matches Some(x) && x.0@ == i && x.1@ == c,
            None => r is None,
        },
{
    let reply = GetPropertyReply { format, sequence: 0, length: 0, type_: reply_type, bytes_after: 0, value_len: 0, value: value.to_vec() };
    match WmClass::from_reply(reply) {
        Ok(Some(c)) => Some((c.instance().to_vec(), c.class().to_vec())),
        _ => None,
    }
}

/// The 32-bit word at `i` of `v`, little endian.
pub open spec fn le32(v: Seq<u8>, i: int) -> int {
    v[i] + 256 * v[i + 1] + 65536 * v[i + 2] + 16777216 * v[i + 3]
}

/// The 32-bit word at `i` of `v`, big endian.
pub open spec fn be32(v: Seq<u8>, i: int) -> int {
    v[i + 3] + 256 * v[i + 2] + 65536 * v[i + 1] + 16777216 * v[i]
}

/// Are there as many bytes as `WM_HINTS` takes: eight words, or nine or more (with the
/// window group)?
pub open spec fn hints_length(v: Seq<u8>) -> bool {
    v.len() == 32 || v.len() >= 36
}

/// Read little endian, is the window state (the third word) `1` or `3`, or is its flag
/// (bit 1 of the first word) clear?
pub open spec fn hints_state_le(v: Seq<u8>) -> bool {
    (v[0] / 2) % 2 == 0 || le32(v, 8) == 1 || le32(v, 8) == 3
}

/// Read big endian, is the window state (the third word) `1` or `3`, or is its flag (bit 1
/// of the first word) clear?
pub open spec fn hints_state_be(v: Seq<u8>) -> bool {
    (v[3] / 2) % 2 == 0 || be32(v, 8) == 1 || be32(v, 8) == 3
}

/// Are there as many bytes as `WM_SIZE_HINTS` takes: fifteen words, or eighteen or more
/// (with the base size and the gravity)?
pub open spec fn size_hints_length(v: Seq<u8>) -> bool {
    v.len() == 60 || v.len() >= 72
}

/// Calls `x11rb::properties::WmHints::from_reply` on a reply of the given type and format
/// holding `value`. It gives no hints unless the reply is a 32-bit `WM_HINTS`. Then the
/// bytes give hints when they are long enough and the window state, if its flag is set,
/// is normal (1) or iconic (3); both words are read in the machine's byte order, which is
/// not stated, so the state is stated for one order when hints come, and asked of both
/// for hints to come.
#[verifier::external_body]
fn wm_hints_from(reply_type: u32, format: u8, value: &[u8]) -> (r: Option<WmHints>)
    ensures
        (reply_type != ATOM_WM_HINTS || format != 32) ==> r is None,
        r is Some ==> hints_length(value@) && (hints_state_le(value@) || hints_state_be(value@)),
        (reply_type == ATOM_WM_HINTS && format == 32 && hints_length(value@) && hints_state_le(value@)
            && hints_state_be(value@)) ==> r is Some,
{
    let reply = GetPropertyReply { format, sequence: 0, length: 0, type_: reply_type, bytes_after: 0, value_len: 0, value: value.to_vec() };
    WmHints::from_reply(&reply).ok().flatten()
}

/// Calls `x11rb::properties::WmSizeHints::from_reply` on a reply of the given type and
/// format holding `value`: it gives hints exactly when the reply is a 32-bit
/// `WM_SIZE_HINTS` with as many bytes as the hints take.
#[verifier::external_body]
fn wm_size_hints_from(reply_type: u32, format: u8, value: &[u8]) -> (r: Option<WmSizeHints>)
    ensures
        r is Some <==> (reply_type == ATOM_WM_SIZE_HINTS && format == 32 && size_hints_length(value@)),
{
    let reply = GetPropertyReply { format, sequence: 0, length: 0, type_: reply_type, bytes_after: 0, value_len: 0, value: value.to_vec() };
    WmSizeHints::from_reply(&reply).ok().flatten()
}

/// A 16-bit number written in two bytes, in little or big endian order.
pub open spec fn u16_of(v: Seq<u8>, i: int, x: u16) -> bool {
    x == v[i] + 256 * v[i + 1] || x == v[i + 1] + 256 * v[i]
}

/// A 32-bit number written in four bytes, in little or big endian order.
pub open spec fn u32_of(v: Seq<u8>, i: int, x: u32) -> bool {
    x == v[i] + 256 * v[i + 1] + 65536 * v[i + 2] + 16777216 * v[i + 3]
        || x == v[i + 3] + 256 * v[i + 2] + 65536 * v[i + 1] + 16777216 * v[i]
}

/// Calls `u16::from_ne_bytes`: the bytes in the machine's order, which is little or big
/// endian (which one is not stated).
#[verifier::external_body]
fn u16_native(a: u8, b: u8) -> (r: u16)
    ensures
        r == a + 256 * b || r == b + 256 * a,
{
    u16::from_ne_bytes([a, b])
}

/// Calls `u32::from_ne_bytes`: the bytes in the machine's order, which is little or big
/// endian (which one is not stated).
#[verifier::external_body]
fn u32_native(a: u8, b: u8, c: u8, d: u8) -> (r: u32)
    ensures
        r == a + 256 * b + 65536 * c + 16777216 * d || r == d + 256 * c + 65536 * b + 16777216 * a,
{
    u32::from_ne_bytes([a, b, c, d])
}

/// Are `vs` the bytes of `value`, one value each?
pub open spec fn are_bytes(vs: Seq<PropertyValue>, value: Seq<u8>) -> bool {
    &&& vs.len() == value.len()
    &&& forall|i: int| 0 <= i < vs.len() ==> (#[trigger] vs[i] matches PropertyValue::Byte(b) && b == value[i])
}

/// Are `vs` the 16-bit numbers of `value`, two bytes each (a last odd byte is left out)?
pub open spec fn are_double_bytes(vs: Seq<PropertyValue>, value: Seq<u8>) -> bool {
    &&& vs.len() == value.len() / 2
    &&& forall|i: int| 0 <= i < vs.len() ==> (#[trigger] vs[i] matches PropertyValue::DoubleByte(x) && u16_of(value, 2 * i, x))
}

/// Are `vs` the 32-bit numbers of `value`, four bytes each (last bytes that do not make
/// four are left out)?
pub open spec fn are_numbers(vs: Seq<PropertyValue>, value: Seq<u8>) -> bool {
    &&& vs.len() == value.len() / 4
    &&& forall|i: int| 0 <= i < vs.len() ==> (#[trigger] vs[i] matches PropertyValue::Number(x) && u32_of(value, 4 * i, x))
}

/// Is `v` the text `s`?
pub open spec fn is_text(v: PropertyValue, s: Seq<char>) -> bool {
    v matches PropertyValue::String(x) && x@ == s
}

/// Is `v` the class of a window with the instance bytes `i` and the class bytes `c`?
pub open spec fn is_class(v: PropertyValue, i: Seq<u8>, c: Seq<u8>) -> bool {
    v matches PropertyValue::WmClass(w) && opt_chars(w.class) == utf8_decoded(c) && opt_chars(w.instance)
        == utf8_decoded(i)
}

/// What a property reply gives when no special type applies: the items of the reply's
/// format, when that is the format asked for (32 when none is asked for), else nothing.
pub open spec fn plain_values(vs: Seq<PropertyValue>, reply_format: u8, value: Seq<u8>, want: u8) -> bool {
    if reply_format != want {
        vs.len() == 0
    } else if want == 8 {
        are_bytes(vs, value)
    } else if want == 16 {
        are_double_bytes(vs, value)
    } else {
        are_numbers(vs, value)
    }
}

/// The bytes of `value`, one value each.
fn bytes_of(value: &[u8]) -> (r: Vec<PropertyValue>)
    ensures
        are_bytes(r@, value@),
{
    let mut r: Vec<PropertyValue> = Vec::new();
    let mut i: usize = 0;
    while i < value.len()
        invariant
            i <= value@.len(),
            r@.len() == i,
            forall|j: int| 0 <= j < i ==> (#[trigger] r@[j] matches PropertyValue::Byte(b) && b == value@[j]),
        decreases value@.len() - i,
    {
        r.push(PropertyValue::Byte(value[i]));
        i = i + 1;
    }
    r
}

/// The 16-bit numbers of `value`.
fn double_bytes_of(value: &[u8]) -> (r: Vec<PropertyValue>)
    ensures
        are_double_bytes(r@, value@),
{
    let len: usize = value.len();
    let n: usize = len / 2;
    let mut r: Vec<PropertyValue> = Vec::new();
    let mut i: usize = 0;
    while i < n
        invariant
            len == value@.len(),
            n == value@.len() / 2,
            i <= n,
            r@.len() == i,
            forall|j: int| 0 <= j < i ==> (#[trigger] r@[j] matches PropertyValue::DoubleByte(x) && u16_of(value@, 2 * j, x)),
        decreases n - i,
    {
        let x = u16_native(value[2 * i], value[2 * i + 1]);
        r.push(PropertyValue::DoubleByte(x));
        i = i + 1;
    }
    r
}

/// The 32-bit numbers of `value`.
fn numbers_of(value: &[u8]) -> (r: Vec<PropertyValue>)
    ensures
        are_numbers(r@, value@),
{
    let len: usize = value.len();
    let n: usize = len / 4;
    let mut r: Vec<PropertyValue> = Vec::new();
    let mut i: usize = 0;
    while i < n
        invariant
            len == value@.len(),
            n == value@.len() / 4,
            i <= n,
            r@.len() == i,
            forall|j: int| 0 <= j < i ==> (#[trigger] r@[j] matches PropertyValue::Number(x) && u32_of(value@, 4 * j, x)),
        decreases n - i,
    {
        let x = u32_native(value[4 * i], value[4 * i + 1], value[4 * i + 2], value[4 * i + 3]);
        r.push(PropertyValue::Number(x));
        i = i + 1;
    }
    r
}

/// The values of a window property read with the type `requested_type`, from a reply of
/// type `reply_type` and format `reply_format` holding `value`; `format` is the item size
/// asked for when no special type applies.
///
/// A `STRING` property is its text (an 8-bit reply only); `WM_HINTS`, `WM_SIZE_HINTS` and
/// `WM_CLASS` are read as those structures, when the reply holds one (see
/// `hints_length`, `hints_state_le`, `hints_state_be`, `size_hints_length` and
/// `wm_class_parts`); anything else is
/// read as items of `format` bits (32 when none is given), when the reply has that format.
pub fn property_values(requested_type: u32, reply_type: u32, reply_format: u8, value: &[u8], format: Option<u8>) -> (r: Result<Vec<PropertyValue>, Error>)
    ensures
        if requested_type == ATOM_STRING {
            if reply_format != 8 {
                r matches Ok(vs) && vs@.len() == 0
            } else {
                match utf8_decoded(value@) {
                    Some(s) => r matches Ok(vs) && vs@.len() == 1 && is_text(vs@[0], s),
                    None => r matches Err(Error::InvalidUtf8),
                }
            }
        } else if requested_type == ATOM_WM_HINTS {
            r matches Ok(vs) && vs@.len() <= 1 && (vs@.len() == 1 ==> vs@[0] is WmHints)
                && (vs@.len() == 1 ==> (reply_type == ATOM_WM_HINTS && reply_format == 32 && hints_length(value@)
                    && (hints_state_le(value@) || hints_state_be(value@))))
                && ((reply_type == ATOM_WM_HINTS && reply_format == 32 && hints_length(value@) && hints_state_le(value@)
                    && hints_state_be(value@)) ==> vs@.len() == 1)
        } else if requested_type == ATOM_WM_SIZE_HINTS {
            r matches Ok(vs) && vs@.len() <= 1 && (vs@.len() == 1 ==> vs@[0] is WmSizeHints)
                && (vs@.len() == 1 <==> (reply_type == ATOM_WM_SIZE_HINTS && reply_format == 32
                    && size_hints_length(value@)))
        } else if requested_type == ATOM_WM_CLASS {
            match wm_class_parts(reply_type, reply_format, value@) {
                Some((i, c)) => r matches Ok(vs) && vs@.len() == 1 && is_class(vs@[0], i, c),
                None => r matches Ok(vs) && vs@.len() == 0,
            }
        } else {
            match format {
                Some(f) => if f == 8 || f == 16 || f == 32 {
                    r matches Ok(vs) && plain_values(vs@, reply_format, value@, f)
                } else {
                    r matches Err(Error::InvalidPropertyFormat(x)) && x == f
                },
                None => r matches Ok(vs) && plain_values(vs@, reply_format, value@, 32),
            }
        },
{
    let mut ret: Vec<PropertyValue> = Vec::new();
    if requested_type == ATOM_STRING {
        if reply_format == 8 {
            match property_string(value) {
                Ok(s) => ret.push(PropertyValue::String(s)),
                Err(e) => return Err(e),
            }
        }
        Ok(ret)
    } else if requested_type == ATOM_WM_HINTS {
        if let Some(h) = wm_hints_from(reply_type, reply_format, value) {
            ret.push(PropertyValue::WmHints(h));
        }
        Ok(ret)
    } else if requested_type == ATOM_WM_SIZE_HINTS {
        if let Some(h) = wm_size_hints_from(reply_type, reply_format, value) {
            ret.push(PropertyValue::WmSizeHints(h));
        }
        Ok(ret)
    } else if requested_type == ATOM_WM_CLASS {
        if let Some((instance, class)) = wm_class_from(reply_type, reply_format, value) {
            ret.push(PropertyValue::WmClass(WmClassWrapper::from_class(class.as_slice(), instance.as_slice())));
        }
        Ok(ret)
    } else {
        let want: u8 = match format {
            Some(f) => f,
            None => 32,
        };
        if want != 8 && want != 16 && want != 32 {
            return Err(Error::InvalidPropertyFormat(want));
        }
        if reply_format != want {
            Ok(ret)
        } else if want == 8 {
            Ok(bytes_of(value))
        } else if want == 16 {
            Ok(double_bytes_of(value))
        } else {
            Ok(numbers_of(value))
        }
    }
}

} // verus!
