use vstd::prelude::*;

use crate::error::{Error, ErrorModel, IntErrorKind};
use crate::numbers::{decimal, decimal_string, parse_bool_spec, parse_uint, parse_bool, parse_u32};
use crate::text::{spec_to_lowercase, str_eq, to_lowercase, first_char_is};

verus! {

/// General window manager settings: borders, gaps, window names and the display to use.
#[derive(Debug, Clone)]
pub struct Options {
    /// Should a window border be shown on the given side of the window?
    pub border_up: bool,
    pub border_down: bool,
    pub border_left: bool,
    pub border_right: bool,
    /// Size, in pixels, of window borders.
    pub border_up_size: u32,
    pub border_down_size: u32,
    pub border_left_size: u32,
    pub border_right_size: u32,
    /// A hexadecimal RGB representation of the window border color.
    pub border_color: String,
    /// Render a bar on top of the window to show its name.
    pub show_window_name: bool,
    /// Where in the name bar a window's name is shown: left, middle or right.
    pub window_name_position: String,
    /// The display name to use when connecting to an X11 server; empty means `$DISPLAY`.
    pub display_name: String,
    /// Should a gap be produced on the given side of the window?
    pub gap_top: bool,
    pub gap_bottom: bool,
    pub gap_left: bool,
    pub gap_right: bool,
    /// Size, in pixels, of the gap between windows on each side.
    pub gap_top_size: u32,
    pub gap_bottom_size: u32,
    pub gap_left_size: u32,
    pub gap_right_size: u32,
}

/// [`Options`] with its strings taken as character sequences.
pub struct OptionsModel {
    pub border_up: bool,
    pub border_down: bool,
    pub border_left: bool,
    pub border_right: bool,
    pub border_up_size: u32,
    pub border_down_size: u32,
    pub border_left_size: u32,
    pub border_right_size: u32,
    pub border_color: Seq<char>,
    pub show_window_name: bool,
    pub window_name_position: Seq<char>,
    pub display_name: Seq<char>,
    pub gap_top: bool,
    pub gap_bottom: bool,
    pub gap_left: bool,
    pub gap_right: bool,
    pub gap_top_size: u32,
    pub gap_bottom_size: u32,
    pub gap_left_size: u32,
    pub gap_right_size: u32,
}

impl View for Options {
    type V = OptionsModel;

    open spec fn view(&self) -> OptionsModel {
        OptionsModel {
            border_up: self.border_up,
            border_down: self.border_down,
            border_left: self.border_left,
            border_right: self.border_right,
            border_up_size: self.border_up_size,
            border_down_size: self.border_down_size,
            border_left_size: self.border_left_size,
            border_right_size: self.border_right_size,
            border_color: self.border_color@,
            show_window_name: self.show_window_name,
            window_name_position: self.window_name_position@,
            display_name: self.display_name@,
            gap_top: self.gap_top,
            gap_bottom: self.gap_bottom,
            gap_left: self.gap_left,
            gap_right: self.gap_right,
            gap_top_size: self.gap_top_size,
            gap_bottom_size: self.gap_bottom_size,
            gap_left_size: self.gap_left_size,
            gap_right_size: self.gap_right_size,
        }
    }
}

/// The default settings: no borders or gaps, border sizes 1, black borders, window names
/// shown on the left, the default display.
pub open spec fn default_options() -> OptionsModel {
    OptionsModel {
        border_up: false,
        border_down: false,
        border_left: false,
        border_right: false,
        border_up_size: 1,
        border_down_size: 1,
        border_left_size: 1,
        border_right_size: 1,
        border_color: "#000000"@,
        show_window_name: true,
        window_name_position: "left"@,
        display_name: ""@,
        gap_top: false,
        gap_bottom: false,
        gap_left: false,
        gap_right: false,
        gap_top_size: 0,
        gap_bottom_size: 0,
        gap_left_size: 0,
        gap_right_size: 0,
    }
}

impl Default for Options {
    fn default() -> (r: Self)
        ensures
            r@ == default_options(),
    {
        Options {
            border_up: false,
            border_down: false,
            border_left: false,
            border_right: false,
            border_up_size: 1,
            border_down_size: 1,
            border_left_size: 1,
            border_right_size: 1,
            border_color: String::from_str("#000000"),
            show_window_name: true,
            window_name_position: String::from_str("left"),
            display_name: String::from_str(""),
            gap_top: false,
            gap_bottom: false,
            gap_left: false,
            gap_right: false,
            gap_top_size: 0,
            gap_bottom_size: 0,
            gap_left_size: 0,
            gap_right_size: 0,
        }
    }
}

/// Why a setting could not be applied.
pub enum OptionError {
    /// The value of a yes/no setting is not `true` or `false` (in any case).
    Bool,
    /// The value of a size setting is not a `u32`.
    Int(IntErrorKind),
    /// The value is not one that the setting takes.
    BadValue,
    /// No setting has this name.
    Unknown,
}

/// The boolean that a setting value gives: it is lowercased, then read as `true` or `false`.
pub open spec fn option_bool(value: Seq<char>) -> Option<bool> {
    parse_bool_spec(spec_to_lowercase(value))
}

/// The size that a setting value gives: it is lowercased, then read as a `u32`.
pub open spec fn option_u32(value: Seq<char>) -> Result<nat, IntErrorKind> {
    parse_uint(spec_to_lowercase(value), u32::MAX as nat)
}

/// Sets a yes/no setting with `set`, or fails.
pub open spec fn with_bool(value: Seq<char>, set: spec_fn(bool) -> OptionsModel) -> Result<OptionsModel, OptionError> {
    match option_bool(value) {
        Some(b) => Ok(set(b)),
        None => Err(OptionError::Bool),
    }
}

/// Sets a size setting with `set`, or fails.
pub open spec fn with_u32(value: Seq<char>, set: spec_fn(u32) -> OptionsModel) -> Result<OptionsModel, OptionError> {
    match option_u32(value) {
        Ok(n) => Ok(set(n as u32)),
        Err(k) => Err(OptionError::Int(k)),
    }
}

/// Is `value` a border color that the settings take: `#` and six more bytes?
pub open spec fn is_color_setting(value: Seq<char>) -> bool {
    value.len() > 0 && value[0] == '#' && crate::text::utf8_len(value) == 7
}

/// Is `value` a window name position: `left`, `right` or `middle`, in any case?
pub open spec fn is_name_position(value: Seq<char>) -> bool {
    let l = spec_to_lowercase(value);
    l == "left"@ || l == "right"@ || l == "middle"@
}

/// Is `name` one of the border settings (shown, size or color of a side)?
pub open spec fn is_border_setting(name: Seq<char>) -> bool {
    name == "border_up"@
        || name == "border_down"@
        || name == "border_left"@
        || name == "border_right"@
        || name == "border_up_size"@
        || name == "border_down_size"@
        || name == "border_left_size"@
        || name == "border_right_size"@
        || name == "border_color"@

}

/// The settings after a border setting line.
pub open spec fn border_options_add(o: OptionsModel, name: Seq<char>, value: Seq<char>) -> Result<OptionsModel, OptionError> {
    if name == "border_up"@ {
        with_bool(value, |b: bool| OptionsModel { border_up: b, ..o })
    } else if name == "border_down"@ {
        with_bool(value, |b: bool| OptionsModel { border_down: b, ..o })
    } else if name == "border_left"@ {
        with_bool(value, |b: bool| OptionsModel { border_left: b, ..o })
    } else if name == "border_right"@ {
        with_bool(value, |b: bool| OptionsModel { border_right: b, ..o })
    } else if name == "border_up_size"@ {
        with_u32(value, |n: u32| OptionsModel { border_up_size: n, ..o })
    } else if name == "border_down_size"@ {
        with_u32(value, |n: u32| OptionsModel { border_down_size: n, ..o })
    } else if name == "border_left_size"@ {
        with_u32(value, |n: u32| OptionsModel { border_left_size: n, ..o })
    } else if name == "border_right_size"@ {
        with_u32(value, |n: u32| OptionsModel { border_right_size: n, ..o })
    } else if name == "border_color"@ {
        if is_color_setting(value) { Ok(OptionsModel { border_color: value, ..o }) } else { Ok(o) }
    } else {
        Err(OptionError::Unknown)
    }
}

/// The settings after a setting line that is not a border setting.
pub open spec fn other_options_add(o: OptionsModel, name: Seq<char>, value: Seq<char>) -> Result<OptionsModel, OptionError> {
    if name == "show_window_name"@ {
        with_bool(value, |b: bool| OptionsModel { show_window_name: b, ..o })
    } else if name == "window_name_position"@ {
        if is_name_position(value) { Ok(OptionsModel { window_name_position: value, ..o }) } else { Err(OptionError::BadValue) }
    } else if name == "display_name"@ {
        Ok(OptionsModel { display_name: value, ..o })
    } else if name == "gap_top"@ {
        with_bool(value, |b: bool| OptionsModel { gap_top: b, ..o })
    } else if name == "gap_bottom"@ {
        with_bool(value, |b: bool| OptionsModel { gap_bottom: b, ..o })
    } else if name == "gap_left"@ {
        with_bool(value, |b: bool| OptionsModel { gap_left: b, ..o })
    } else if name == "gap_right"@ {
        with_bool(value, |b: bool| OptionsModel { gap_right: b, ..o })
    } else if name == "gap_top_size"@ {
        with_u32(value, |n: u32| OptionsModel { gap_top_size: n, ..o })
    } else if name == "gap_bottom_size"@ {
        with_u32(value, |n: u32| OptionsModel { gap_bottom_size: n, ..o })
    } else if name == "gap_left_size"@ {
        with_u32(value, |n: u32| OptionsModel { gap_left_size: n, ..o })
    } else if name == "gap_right_size"@ {
        with_u32(value, |n: u32| OptionsModel { gap_right_size: n, ..o })
    } else {
        Err(OptionError::Unknown)
    }
}

/// The settings after the line `set name value`. A border color that does not start with
/// `#` or is not seven bytes long leaves the settings as they are.
pub open spec fn options_add(o: OptionsModel, name: Seq<char>, value: Seq<char>) -> Result<OptionsModel, OptionError> {
    if is_border_setting(name) {
        border_options_add(o, name, value)
    } else {
        other_options_add(o, name, value)
    }
}

/// The yes/no settings.
pub open spec fn is_bool_option(name: Seq<char>) -> bool {
    name == "border_up"@ || name == "border_down"@ || name == "border_left"@ || name == "border_right"@
        || name == "show_window_name"@ || name == "gap_top"@ || name == "gap_bottom"@ || name == "gap_left"@
        || name == "gap_right"@
}

/// The size settings.
pub open spec fn is_size_option(name: Seq<char>) -> bool {
    name == "border_up_size"@ || name == "border_down_size"@ || name == "border_left_size"@
        || name == "border_right_size"@ || name == "gap_top_size"@ || name == "gap_bottom_size"@
        || name == "gap_left_size"@ || name == "gap_right_size"@
}

/// The names of all settings.
pub open spec fn is_option_name(name: Seq<char>) -> bool {
    is_bool_option(name) || is_size_option(name) || name == "border_color"@ || name == "window_name_position"@
        || name == "display_name"@
}

/// Does the library's error `e` report the failure `k` of the line `set name value`?
pub open spec fn option_error_is(e: Error, k: OptionError, name: Seq<char>, value: Seq<char>) -> bool {
    match k {
        OptionError::Bool => e matches Error::ParseBool,
        OptionError::Int(kind) => e matches Error::ParseInt(x) && x == kind,
        OptionError::BadValue => e matches Error::BadOptionValue(n, v) && n@ == name && v@ == value,
        OptionError::Unknown => e matches Error::UnknownOption(n) && n@ == name,
    }
}

/// The error that reports the failure `k` of the line `set name value`.
pub open spec fn option_error_model(k: OptionError, name: Seq<char>, value: Seq<char>) -> ErrorModel {
    match k {
        OptionError::Bool => ErrorModel::ParseBool,
        OptionError::Int(kind) => ErrorModel::ParseInt(kind),
        OptionError::BadValue => ErrorModel::BadOptionValue(name, value),
        OptionError::Unknown => ErrorModel::UnknownOption(name),
    }
}

/// An error that reports a failed setting is that failure's error.
pub proof fn lemma_option_error_model(e: Error, k: OptionError, name: Seq<char>, value: Seq<char>)
    requires
        option_error_is(e, k, name, value),
    ensures
        e@ == option_error_model(k, name, value),
{
}

/// Reads the value of a yes/no setting.
fn read_bool(value: &String) -> (r: Result<bool, Error>)
    ensures
        match option_bool(value@) {
            Some(b) => r matches Ok(x) && x == b,
            None => r matches Err(Error::ParseBool),
        },
{
    let lower = to_lowercase(value.as_str());
    parse_bool(lower.as_str())
}

/// Reads the value of a size setting.
fn read_u32(value: &String) -> (r: Result<u32, Error>)
    ensures
        match option_u32(value@) {
            Ok(n) => r matches Ok(x) && x == n,
            Err(k) => r matches Err(Error::ParseInt(x)) && x == k,
        },
{
    let lower = to_lowercase(value.as_str());
    parse_u32(lower.as_str())
}

impl Options {
    /// Applies a border setting line.
    #[verifier::rlimit(40)]
    fn add_border(&mut self, name: String, value: String) -> (r: Result<(), Error>)
        ensures
            match border_options_add(old(self)@, name@, value@) {
                Ok(m) => r is Ok && final(self)@ == m,
                Err(k) => r matches Err(e) && option_error_is(e, k, name@, value@) && final(self)@ == old(self)@,
            },
    {
        let n = name.as_str();
        if str_eq(n, "border_up") {
            match read_bool(&value) {
                Ok(b) => self.border_up = b,
                Err(e) => return Err(e),
            }
        } else if str_eq(n, "border_down") {
            match read_bool(&value) {
                Ok(b) => self.border_down = b,
                Err(e) => return Err(e),
            }
        } else if str_eq(n, "border_left") {
            match read_bool(&value) {
                Ok(b) => self.border_left = b,
                Err(e) => return Err(e),
            }
        } else if str_eq(n, "border_right") {
            match read_bool(&value) {
                Ok(b) => self.border_right = b,
                Err(e) => return Err(e),
            }
        } else if str_eq(n, "border_up_size") {
            match read_u32(&value) {
                Ok(x) => self.border_up_size = x,
                Err(e) => return Err(e),
            }
        } else if str_eq(n, "border_down_size") {
            match read_u32(&value) {
                Ok(x) => self.border_down_size = x,
                Err(e) => return Err(e),
            }
        } else if str_eq(n, "border_left_size") {
            match read_u32(&value) {
                Ok(x) => self.border_left_size = x,
                Err(e) => return Err(e),
            }
        } else if str_eq(n, "border_right_size") {
            match read_u32(&value) {
                Ok(x) => self.border_right_size = x,
                Err(e) => return Err(e),
            }
        } else if str_eq(n, "border_color") {
            if first_char_is(value.as_str(), '#') && crate::text::has_utf8_len(value.as_str(), 7) {
                self.border_color = value;
            }
        } else {
            return Err(Error::UnknownOption(name.clone()));
        }
        Ok(())
    }

    /// Applies a setting line that is not a border setting.
    #[verifier::rlimit(40)]
    fn add_other(&mut self, name: String, value: String) -> (r: Result<(), Error>)
        ensures
            match other_options_add(old(self)@, name@, value@) {
                Ok(m) => r is Ok && final(self)@ == m,
                Err(k) => r matches Err(e) && option_error_is(e, k, name@, value@) && final(self)@ == old(self)@,
            },
    {
        let n = name.as_str();
        if str_eq(n, "show_window_name") {
            match read_bool(&value) {
                Ok(b) => self.show_window_name = b,
                Err(e) => return Err(e),
            }
        } else if str_eq(n, "window_name_position") {
            let lower = to_lowercase(value.as_str());
            let l = lower.as_str();
            if str_eq(l, "left") || str_eq(l, "right") || str_eq(l, "middle") {
                self.window_name_position = value;
            } else {
                return Err(Error::BadOptionValue(name.clone(), value));
            }
        } else if str_eq(n, "display_name") {
            self.display_name = value;
        } else if str_eq(n, "gap_top") {
            match read_bool(&value) {
                Ok(b) => self.gap_top = b,
                Err(e) => return Err(e),
            }
        } else if str_eq(n, "gap_bottom") {
            match read_bool(&value) {
                Ok(b) => self.gap_bottom = b,
                Err(e) => return Err(e),
            }
        } else if str_eq(n, "gap_left") {
            match read_bool(&value) {
                Ok(b) => self.gap_left = b,
                Err(e) => return Err(e),
            }
        } else if str_eq(n, "gap_right") {
            match read_bool(&value) {
                Ok(b) => self.gap_right = b,
                Err(e) => return Err(e),
            }
        } else if str_eq(n, "gap_top_size") {
            match read_u32(&value) {
                Ok(x) => self.gap_top_size = x,
                Err(e) => return Err(e),
            }
        } else if str_eq(n, "gap_bottom_size") {
            match read_u32(&value) {
                Ok(x) => self.gap_bottom_size = x,
                Err(e) => return Err(e),
            }
        } else if str_eq(n, "gap_left_size") {
            match read_u32(&value) {
                Ok(x) => self.gap_left_size = x,
                Err(e) => return Err(e),
            }
        } else if str_eq(n, "gap_right_size") {
            match read_u32(&value) {
                Ok(x) => self.gap_right_size = x,
                Err(e) => return Err(e),
            }
        } else {
            return Err(Error::UnknownOption(name.clone()));
        }
        Ok(())
    }

    /// Applies the config line `set name value`. On an error the settings stay as they were.
    pub fn add(&mut self, name: String, value: String) -> (r: Result<(), Error>)
        ensures
            match options_add(old(self)@, name@, value@) {
                Ok(m) => r is Ok && final(self)@ == m,
                Err(k) => r matches Err(e) && option_error_is(e, k, name@, value@) && final(self)@ == old(self)@,
            },
    {
        let n = name.as_str();
        if str_eq(n, "border_up")
            || str_eq(n, "border_down")
            || str_eq(n, "border_left")
            || str_eq(n, "border_right")
            || str_eq(n, "border_up_size")
            || str_eq(n, "border_down_size")
            || str_eq(n, "border_left_size")
            || str_eq(n, "border_right_size")
            || str_eq(n, "border_color")
 {
            self.add_border(name, value)
        } else {
            self.add_other(name, value)
        }
    }
}

/// The config word of a yes/no setting.
pub open spec fn bool_word(b: bool) -> Seq<char> {
    if b {
        "true"@
    } else {
        "false"@
    }
}

/// The config line `set name value`.
pub open spec fn set_line(name: Seq<char>, value: Seq<char>) -> Seq<char> {
    "set "@ + name + " "@ + value + "\n"@
}

/// The config lines that write every setting, one `set` line each; the display name is
/// written in quotes, so that an empty one is still a word.
pub open spec fn options_text(o: OptionsModel) -> Seq<char> {
    set_line("border_up"@, bool_word(o.border_up))
        + set_line("border_down"@, bool_word(o.border_down))
        + set_line("border_left"@, bool_word(o.border_left))
        + set_line("border_right"@, bool_word(o.border_right))
        + set_line("border_up_size"@, decimal(o.border_up_size as nat))
        + set_line("border_down_size"@, decimal(o.border_down_size as nat))
        + set_line("border_left_size"@, decimal(o.border_left_size as nat))
        + set_line("border_right_size"@, decimal(o.border_right_size as nat))
        + set_line("border_color"@, o.border_color)
        + set_line("show_window_name"@, bool_word(o.show_window_name))
        + set_line("window_name_position"@, o.window_name_position)
        + set_line("display_name"@, "\""@ + o.display_name + "\""@)
        + set_line("gap_top"@, bool_word(o.gap_top))
        + set_line("gap_bottom"@, bool_word(o.gap_bottom))
        + set_line("gap_left"@, bool_word(o.gap_left))
        + set_line("gap_right"@, bool_word(o.gap_right))
        + set_line("gap_top_size"@, decimal(o.gap_top_size as nat))
        + set_line("gap_bottom_size"@, decimal(o.gap_bottom_size as nat))
        + set_line("gap_left_size"@, decimal(o.gap_left_size as nat))
        + set_line("gap_right_size"@, decimal(o.gap_right_size as nat))
}

/// Appends the line `set name value` to `out`.
fn push_set_line(out: &mut String, name: &str, value: &str)
    ensures
        final(out)@ == old(out)@ + set_line(name@, value@),
{
    out.append("set ");
    out.append(name);
    out.append(" ");
    out.append(value);
    out.append("\n");
    proof {
        assert(final(out)@ =~= old(out)@ + set_line(name@, value@));
    }
}

/// The config word of a yes/no setting.
fn bool_text(b: bool) -> (r: &'static str)
    ensures
        r@ == bool_word(b),
{
    if b {
        "true"
    } else {
        "false"
    }
}

impl crate::config::Repr for Options {
    /// The config lines that write every setting.
    fn repr(&self) -> (r: Result<String, Error>)
        ensures
            r matches Ok(s) && s@ == options_text(self@),
    {
        let mut s = String::new();
        let ghost o = self@;
        push_set_line(&mut s, "border_up", bool_text(self.border_up));
        push_set_line(&mut s, "border_down", bool_text(self.border_down));
        push_set_line(&mut s, "border_left", bool_text(self.border_left));
        push_set_line(&mut s, "border_right", bool_text(self.border_right));
        let d = decimal_string(self.border_up_size as u64);
        push_set_line(&mut s, "border_up_size", d.as_str());
        let d = decimal_string(self.border_down_size as u64);
        push_set_line(&mut s, "border_down_size", d.as_str());
        let d = decimal_string(self.border_left_size as u64);
        push_set_line(&mut s, "border_left_size", d.as_str());
        let d = decimal_string(self.border_right_size as u64);
        push_set_line(&mut s, "border_right_size", d.as_str());
        push_set_line(&mut s, "border_color", self.border_color.as_str());
        push_set_line(&mut s, "show_window_name", bool_text(self.show_window_name));
        push_set_line(&mut s, "window_name_position", self.window_name_position.as_str());
        let mut q = String::from_str("\"");
        q.append(self.display_name.as_str());
        q.append("\"");
        push_set_line(&mut s, "display_name", q.as_str());
        push_set_line(&mut s, "gap_top", bool_text(self.gap_top));
        push_set_line(&mut s, "gap_bottom", bool_text(self.gap_bottom));
        push_set_line(&mut s, "gap_left", bool_text(self.gap_left));
        push_set_line(&mut s, "gap_right", bool_text(self.gap_right));
        let d = decimal_string(self.gap_top_size as u64);
        push_set_line(&mut s, "gap_top_size", d.as_str());
        let d = decimal_string(self.gap_bottom_size as u64);
        push_set_line(&mut s, "gap_bottom_size", d.as_str());
        let d = decimal_string(self.gap_left_size as u64);
        push_set_line(&mut s, "gap_left_size", d.as_str());
        let d = decimal_string(self.gap_right_size as u64);
        push_set_line(&mut s, "gap_right_size", d.as_str());
        proof {
            assert(s@ =~= options_text(o));
        }
        Ok(s)
    }
}

/// The value of the setting `name` as a config word: `true` or `false` for yes/no
/// settings, the decimal number for sizes, the text for the others; `None` for a name that
/// is no setting.
pub open spec fn option_word(o: OptionsModel, name: Seq<char>) -> Option<Seq<char>> {
    if name == "border_up"@ {
        Some(bool_word(o.border_up))
    } else if name == "border_down"@ {
        Some(bool_word(o.border_down))
    } else if name == "border_left"@ {
        Some(bool_word(o.border_left))
    } else if name == "border_right"@ {
        Some(bool_word(o.border_right))
    } else if name == "border_up_size"@ {
        Some(decimal(o.border_up_size as nat))
    } else if name == "border_down_size"@ {
        Some(decimal(o.border_down_size as nat))
    } else if name == "border_left_size"@ {
        Some(decimal(o.border_left_size as nat))
    } else if name == "border_right_size"@ {
        Some(decimal(o.border_right_size as nat))
    } else if name == "border_color"@ {
        Some(o.border_color)
    } else if name == "show_window_name"@ {
        Some(bool_word(o.show_window_name))
    } else if name == "window_name_position"@ {
        Some(o.window_name_position)
    } else if name == "display_name"@ {
        Some(o.display_name)
    } else if name == "gap_top"@ {
        Some(bool_word(o.gap_top))
    } else if name == "gap_bottom"@ {
        Some(bool_word(o.gap_bottom))
    } else if name == "gap_left"@ {
        Some(bool_word(o.gap_left))
    } else if name == "gap_right"@ {
        Some(bool_word(o.gap_right))
    } else if name == "gap_top_size"@ {
        Some(decimal(o.gap_top_size as nat))
    } else if name == "gap_bottom_size"@ {
        Some(decimal(o.gap_bottom_size as nat))
    } else if name == "gap_left_size"@ {
        Some(decimal(o.gap_left_size as nat))
    } else if name == "gap_right_size"@ {
        Some(decimal(o.gap_right_size as nat))
    } else {
        None
    }
}

} // verus!
