use vstd::prelude::*;

use crate::error::{Error, ErrorModel, IntErrorKind};
use crate::parsers::{lemma_split_two, views};
use crate::text::{chars_of, first_char_is, spec_to_lowercase, split_char, split_on, starts_with_char, str_eq, to_lowercase, utf8_decoded, utf8_string};

verus! {

/// The value of a hexadecimal digit (either case), if `c` is one.
pub open spec fn hex_digit_value(c: char) -> Option<u32> {
    if '0' <= c && c <= '9' {
        Some((c as u32 - '0' as u32) as u32)
    } else if 'a' <= c && c <= 'f' {
        Some((c as u32 - 'a' as u32 + 10) as u32)
    } else if 'A' <= c && c <= 'F' {
        Some((c as u32 - 'A' as u32 + 10) as u32)
    } else {
        None
    }
}

pub open spec fn all_hex_digits(s: Seq<char>) -> bool {
    forall|i: int| 0 <= i < s.len() ==> (#[trigger] hex_digit_value(s[i])) is Some
}

/// The number that a string of hexadecimal digits spells.
pub open spec fn hex_number(s: Seq<char>) -> int
    decreases s.len(),
{
    if s.len() == 0 {
        0
    } else {
        hex_number(s.drop_last()) * 16 + hex_digit_value(s.last())->0
    }
}

/// A border color `#RRGGBB` as the number `0xRRGGBB`; any other string means black (0).
pub open spec fn border_color_value(s: Seq<char>) -> u32 {
    if s.len() == 7 && s[0] == '#' && all_hex_digits(s.subrange(1, 7)) {
        hex_number(s.subrange(1, 7)) as u32
    } else {
        0
    }
}

pub fn hex_digit(c: char) -> (r: Option<u32>)
    ensures
        r == hex_digit_value(c),
{
    if '0' <= c && c <= '9' {
        Some(c as u32 - '0' as u32)
    } else if 'a' <= c && c <= 'f' {
        Some(c as u32 - 'a' as u32 + 10)
    } else if 'A' <= c && c <= 'F' {
        Some(c as u32 - 'A' as u32 + 10)
    } else {
        None
    }
}

pub open spec fn pow16(n: nat) -> nat
    decreases n,
{
    if n == 0 {
        1
    } else {
        16 * pow16((n - 1) as nat)
    }
}

proof fn lemma_hex_number_bound(s: Seq<char>)
    requires
        all_hex_digits(s),
    ensures
        0 <= hex_number(s) < pow16(s.len()),
    decreases s.len(),
{
    if s.len() > 0 {
        let t = s.drop_last();
        assert(all_hex_digits(t)) by {
            assert forall|i: int| 0 <= i < t.len() implies (#[trigger] hex_digit_value(t[i])) is Some by {
                assert(t[i] == s[i]);
            }
        }
        assert(hex_digit_value(s[s.len() - 1]) is Some);
        lemma_hex_number_bound(t);
        let p = pow16(t.len());
        assert(hex_number(s) == hex_number(t) * 16 + hex_digit_value(s.last())->0);
        assert(hex_number(t) * 16 + 16 <= p * 16) by (nonlinear_arith)
            requires hex_number(t) < p;
    }
}

/// Read a border color: `#RRGGBB` gives `0xRRGGBB`, anything else gives black (0).
pub fn parse_border_color(s: &str) -> (r: u32)
    ensures
        r == border_color_value(s@),
{
    let n = s.unicode_len();
    if n != 7 {
        return 0;
    }
    if s.get_char(0) != '#' {
        return 0;
    }
    let mut acc: u32 = 0;
    let mut i: usize = 1;
    while i < 7
        invariant
            1 <= i <= 7,
            s@.len() == 7,
            all_hex_digits(s@.subrange(1, i as int)),
            acc as int == hex_number(s@.subrange(1, i as int)),
            acc < pow16((i - 1) as nat),
        decreases 7 - i,
    {
        let c = s.get_char(i);
        match hex_digit(c) {
            Some(d) => {
                proof {
                    let t = s@.subrange(1, i as int + 1);
                    assert(t.drop_last() =~= s@.subrange(1, i as int));
                    assert(t.last() == c);
                    assert(all_hex_digits(t)) by {
                        assert forall|j: int| 0 <= j < t.len() implies (#[trigger] hex_digit_value(t[j])) is Some by {
                            if j < t.len() - 1 {
                                assert(t[j] == s@.subrange(1, i as int)[j]);
                            }
                        }
                    }
                    assert(pow16(i as nat) == 16 * pow16((i - 1) as nat));
                    assert(pow16((i - 1) as nat) <= 0x100000) by {
                        reveal_with_fuel(pow16, 6);
                    }
                    assert(acc * 16 + d < 16 * pow16((i - 1) as nat)) by (nonlinear_arith)
                        requires acc < pow16((i - 1) as nat), d < 16;
                }
                acc = acc * 16 + d;
            },
            None => {
                proof {
                    assert(!all_hex_digits(s@.subrange(1, 7))) by {
                        assert(s@.subrange(1, 7)[i - 1] == c);
                    }
                }
                return 0;
            },
        }
        i = i + 1;
    }
    proof {
        lemma_hex_number_bound(s@.subrange(1, 7));
    }
    acc
}

/// The slant of a font.
#[derive(Debug, Clone, Copy, PartialEq, Eq, Structural)]
pub enum FontSlant {
    Normal,
    Italic,
    Oblique,
}

/// The weight of a font.
#[derive(Debug, Clone, Copy, PartialEq, Eq, Structural)]
pub enum FontWeight {
    Normal,
    Bold,
}

/// A font to draw text with: the family, the slant and the weight.
#[derive(Debug, Clone)]
pub struct FontDescription {
    pub family: String,
    pub slant: FontSlant,
    pub weight: FontWeight,
}

/// The slant a (lowercase) name gives; an unknown name keeps `current`.
pub open spec fn slant_named(name: Seq<char>, current: FontSlant) -> FontSlant {
    if name == "normal"@ {
        FontSlant::Normal
    } else if name == "italic"@ {
        FontSlant::Italic
    } else if name == "oblique"@ {
        FontSlant::Oblique
    } else {
        current
    }
}

/// The weight a (lowercase) name gives; an unknown name keeps `current`.
pub open spec fn weight_named(name: Seq<char>, current: FontWeight) -> FontWeight {
    if name == "normal"@ {
        FontWeight::Normal
    } else if name == "bold"@ {
        FontWeight::Bold
    } else {
        current
    }
}

/// One `:`-separated part of a font description read into the font so far: `slant=..`
/// and `weight=..` set those (the value in any case), another `key=..` is an error, and a
/// part without `=` names the family.
pub open spec fn font_step(
    acc: Result<(Seq<char>, FontSlant, FontWeight), ErrorModel>,
    part: Seq<char>,
) -> Result<(Seq<char>, FontSlant, FontWeight), ErrorModel> {
    match acc {
        Err(e) => Err(e),
        Ok((family, slant, weight)) => if part.contains('=') {
            let kv = split_on(part, '=');
            let value = spec_to_lowercase(kv[1]);
            if kv[0] == "slant"@ {
                Ok((family, slant_named(value, slant), weight))
            } else if kv[0] == "weight"@ {
                Ok((family, slant, weight_named(value, weight)))
            } else {
                Err(ErrorModel::InvalidFontProperty(kv[0]))
            }
        } else {
            Ok((part, slant, weight))
        },
    }
}

/// The font that the parts of a description give, read from the first: an empty family,
/// normal slant and weight to start with.
pub open spec fn font_fold(parts: Seq<Seq<char>>) -> Result<(Seq<char>, FontSlant, FontWeight), ErrorModel>
    decreases parts.len(),
{
    if parts.len() == 0 {
        Ok((seq![], FontSlant::Normal, FontWeight::Normal))
    } else {
        font_step(font_fold(parts.drop_last()), parts.last())
    }
}

proof fn lemma_font_fold_error(parts: Seq<Seq<char>>, k: int)
    requires
        0 <= k <= parts.len(),
        font_fold(parts.take(k)) is Err,
    ensures
        font_fold(parts) == font_fold(parts.take(k)),
    decreases parts.len(),
{
    if k == parts.len() {
        assert(parts.take(k) =~= parts);
    } else {
        assert(parts.drop_last().take(k) =~= parts.take(k));
        lemma_font_fold_error(parts.drop_last(), k);
    }
}

/// Does `s` hold the character `c`?
fn has_char(s: &str, c: char) -> (r: bool)
    ensures
        r == s@.contains(c),
{
    let chars = chars_of(s);
    let mut i: usize = 0;
    while i < chars.len()
        invariant
            chars@ == s@,
            i <= chars@.len(),
            forall|j: int| 0 <= j < i ==> chars@[j] != c,
        decreases chars@.len() - i,
    {
        if chars[i] == c {
            assert(s@[i as int] == c);
            return true;
        }
        i = i + 1;
    }
    false
}

/// Reads a font description such as `monospace:slant=italic:weight=bold`.
pub fn font_from_str(font: &str) -> (r: Result<FontDescription, Error>)
    ensures
        match font_fold(split_on(font@, ':')) {
            Ok((family, slant, weight)) => r matches Ok(d) && d.family@ == family && d.slant == slant && d.weight == weight,
            Err(e) => r matches Err(x) && x@ == e,
        },
{
    let parts = split_char(font, ':');
    let ghost ps = views(parts@);
    let mut family = String::new();
    let mut slant = FontSlant::Normal;
    let mut weight = FontWeight::Normal;
    let mut i: usize = 0;
    proof {
        assert(ps.take(0) =~= Seq::<Seq<char>>::empty());
    }
    while i < parts.len()
        invariant
            ps == views(parts@),
            ps == split_on(font@, ':'),
            i <= parts@.len(),
            font_fold(ps.take(i as int)) == Ok::<(Seq<char>, FontSlant, FontWeight), ErrorModel>((family@, slant, weight)),
        decreases parts@.len() - i,
    {
        proof {
            assert(ps.take(i + 1).drop_last() =~= ps.take(i as int));
            assert(ps.take(i + 1).last() == parts@[i as int]@);
        }
        let part = parts[i].as_str();
        if has_char(part, '=') {
            let kv = split_char(part, '=');
            proof {
                let k = choose|k: int| 0 <= k < part@.len() && part@[k] == '=';
                lemma_split_two(part@, k, '=');
                assert(views(kv@).len() == kv@.len());
            }
            let value = to_lowercase(kv[1].as_str());
            if str_eq(kv[0].as_str(), "slant") {
                if str_eq(value.as_str(), "normal") {
                    slant = FontSlant::Normal;
                } else if str_eq(value.as_str(), "italic") {
                    slant = FontSlant::Italic;
                } else if str_eq(value.as_str(), "oblique") {
                    slant = FontSlant::Oblique;
                }
            } else if str_eq(kv[0].as_str(), "weight") {
                if str_eq(value.as_str(), "normal") {
                    weight = FontWeight::Normal;
                } else if str_eq(value.as_str(), "bold") {
                    weight = FontWeight::Bold;
                }
            } else {
                let key = kv[0].clone();
                proof {
                    lemma_font_fold_error(ps, i + 1);
                }
                return Err(Error::InvalidFontProperty(key));
            }
        } else {
            family = parts[i].clone();
        }
        i = i + 1;
    }
    proof {
        assert(ps.take(ps.len() as int) =~= ps);
    }
    Ok(FontDescription { family, slant, weight })
}

/// What `u8::from_str_radix(s, 16)` reads from at most two characters: an optional `+`,
/// then hexadecimal digits (in either case). Longer strings do not occur here (they come
/// from two bytes); they read as too large.
pub open spec fn hex_byte(s: Seq<char>) -> Result<u8, IntErrorKind> {
    if s.len() == 0 {
        Err(IntErrorKind::Empty)
    } else if s.len() > 2 {
        Err(IntErrorKind::PosOverflow)
    } else {
        let d = if s[0] == '+' {
            s.drop_first()
        } else {
            s
        };
        if d.len() == 0 || !all_hex_digits(d) {
            Err(IntErrorKind::InvalidDigit)
        } else {
            Ok(hex_number(d) as u8)
        }
    }
}

/// The `i`-th chunk of two bytes of `b` (the last one may be shorter).
pub open spec fn chunk_at(b: Seq<u8>, i: int) -> Seq<u8> {
    b.subrange(2 * i, if 2 * i + 2 <= b.len() {
        2 * i + 2
    } else {
        b.len() as int
    })
}

/// The bytes that the first `n` chunks of two bytes of `b` spell, each read as UTF-8 text
/// holding a hexadecimal number; the first chunk that fails gives the error.
pub open spec fn chunk_values(b: Seq<u8>, n: nat) -> Result<Seq<u8>, ErrorModel>
    decreases n,
{
    if n == 0 {
        Ok(seq![])
    } else {
        match chunk_values(b, (n - 1) as nat) {
            Err(e) => Err(e),
            Ok(vs) => match utf8_decoded(chunk_at(b, n - 1)) {
                None => Err(ErrorModel::InvalidUtf8),
                Some(cs) => match hex_byte(cs) {
                    Err(k) => Err(ErrorModel::ParseInt(k)),
                    Ok(v) => Ok(vs.push(v)),
                },
            },
        }
    }
}

/// The bytes of a color `#RRGGBB...`: the UTF-8 bytes after the `#`, two by two, each
/// pair a hexadecimal number.
pub open spec fn color_values(input: Seq<char>) -> Result<Seq<u8>, ErrorModel> {
    if !starts_with_char(input, '#') {
        Err(ErrorModel::InvalidColor(input))
    } else {
        let e = vstd::utf8::encode_utf8(input);
        let b = if e.len() > 0 {
            e.drop_first()
        } else {
            seq![]
        };
        chunk_values(b, ((b.len() + 1) / 2) as nat)
    }
}

/// Reads at most two characters as `u8::from_str_radix(_, 16)` does.
fn hex_byte_of(s: &str) -> (r: Result<u8, IntErrorKind>)
    ensures
        r == hex_byte(s@),
{
    let chars = chars_of(s);
    let n = chars.len();
    if n == 0 {
        return Err(IntErrorKind::Empty);
    }
    if n > 2 {
        return Err(IntErrorKind::PosOverflow);
    }
    let start: usize = if chars[0] == '+' {
        1
    } else {
        0
    };
    let ghost d = if s@[0] == '+' {
        s@.drop_first()
    } else {
        s@
    };
    assert(d =~= chars@.subrange(start as int, n as int));
    if start == n {
        return Err(IntErrorKind::InvalidDigit);
    }
    let mut acc: u32 = 0;
    let mut i: usize = start;
    while i < n
        invariant
            chars@ == s@,
            n == chars@.len(),
            n <= 2,
            start <= i <= n,
            s@.len() > 0,
            d == (if s@[0] == '+' {
                s@.drop_first()
            } else {
                s@
            }),
            d == chars@.subrange(start as int, n as int),
            all_hex_digits(chars@.subrange(start as int, i as int)),
            acc as int == hex_number(chars@.subrange(start as int, i as int)),
            acc < 256,
        decreases n - i,
    {
        match hex_digit(chars[i]) {
            Some(v) => {
                proof {
                    let t = chars@.subrange(start as int, i + 1);
                    assert(t.drop_last() =~= chars@.subrange(start as int, i as int));
                    assert(all_hex_digits(t)) by {
                        assert forall|j: int| 0 <= j < t.len() implies (#[trigger] hex_digit_value(t[j])) is Some by {
                            if j < t.len() - 1 {
                                assert(t[j] == chars@.subrange(start as int, i as int)[j]);
                            }
                        }
                    }
                    lemma_hex_number_bound(t);
                    assert(t.len() <= 2);
                    assert(pow16(2) == 256) by {
                        reveal_with_fuel(pow16, 3);
                    }
                    assert(pow16(1) == 16);
                }
                acc = acc * 16 + v;
            },
            None => {
                proof {
                    assert(d[i - start] == chars[i as int]);
                    assert(hex_digit_value(d[i - start]) is None);
                    assert(!all_hex_digits(d));
                }
                return Err(IntErrorKind::InvalidDigit);
            },
        }
        i = i + 1;
    }
    proof {
        assert(chars@.subrange(start as int, n as int) =~= d);
    }
    Ok(acc as u8)
}

/// The bytes of a color `#RRGGBB` (such as the red, green and blue of `#ff8000`): the
/// UTF-8 bytes after the `#`, two by two, each pair read as a hexadecimal number; the
/// first three numbers are the color.
pub fn color_bytes(input: &str) -> (r: Result<(u8, u8, u8), Error>)
    requires
        color_values(input@) matches Ok(vs) ==> vs.len() >= 3,
    ensures
        match color_values(input@) {
            Ok(vs) => r == Ok::<(u8, u8, u8), Error>((vs[0], vs[1], vs[2])),
            Err(e) => r matches Err(x) && x@ == e,
        },
{
    if !first_char_is(input, '#') {
        return Err(Error::InvalidColor(input.to_owned()));
    }
    let bytes = input.as_bytes();
    let b: &[u8] = if bytes.len() > 0 {
        vstd::slice::slice_subrange(bytes, 1, bytes.len())
    } else {
        bytes
    };
    proof {
        let e = vstd::utf8::encode_utf8(input@);
        if e.len() > 0 {
            assert(b@ =~= e.drop_first());
        } else {
            assert(b@ =~= Seq::<u8>::empty());
        }
    }
    let n: usize = b.len() / 2 + b.len() % 2;
    assert(n == (b@.len() + 1) / 2);
    assert(color_values(input@) == chunk_values(b@, n as nat));
    let mut values: Vec<u8> = Vec::new();
    let mut i: usize = 0;
    while i < n
        invariant
            n == (b@.len() + 1) / 2,
            color_values(input@) == chunk_values(b@, n as nat),
            i <= n,
            chunk_values(b@, i as nat) == Ok::<Seq<u8>, ErrorModel>(values@),
        decreases n - i,
    {
        assert(2 * i <= b@.len());
        let end: usize = if b.len() - 2 * i >= 2 {
            2 * i + 2
        } else {
            b.len()
        };
        let chunk = vstd::slice::slice_subrange(b, 2 * i, end);
        assert(chunk@ == chunk_at(b@, i as int));
        let text = match utf8_string(chunk) {
            Some(t) => t,
            None => {
                proof {
                    lemma_chunk_values_error(b@, (i + 1) as nat, n as nat);
                }
                return Err(Error::InvalidUtf8);
            },
        };
        let v = match hex_byte_of(text.as_str()) {
            Ok(v) => v,
            Err(k) => {
                proof {
                    lemma_chunk_values_error(b@, (i + 1) as nat, n as nat);
                }
                return Err(Error::ParseInt(k));
            },
        };
        values.push(v);
        i = i + 1;
    }
    Ok((values[0], values[1], values[2]))
}

proof fn lemma_chunk_values_error(b: Seq<u8>, k: nat, n: nat)
    requires
        k <= n,
        chunk_values(b, k) is Err,
    ensures
        chunk_values(b, n) == chunk_values(b, k),
    decreases n - k,
{
    if k < n {
        lemma_chunk_values_error(b, k, (n - 1) as nat);
    }
}

} // verus!
