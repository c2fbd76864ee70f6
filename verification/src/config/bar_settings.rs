use vstd::prelude::*;

use crate::error::{Error, ErrorModel};
use crate::numbers::{parse_bool, parse_bool_spec, parse_u32, parse_uint};
use crate::parsers::views;
use crate::text::{first_char_is, join_with, starts_with_char, str_eq};

verus! {

/// Settings for a single widget.
#[derive(Clone, Debug)]
pub struct WidgetSettings {
    /// A name or an identifier for the widget.
    pub id: String,
    /// Text shown before the widget's value.
    pub icon: String,
    /// Foreground color of the icon text.
    pub icon_color: String,
    /// Foreground color of the value text.
    pub value_color: String,
    /// Foreground color of the separator text.
    pub separator_color: String,
    /// Background color for the whole widget.
    pub background_color: String,
    /// A command that is run on every update.
    pub command: String,
    /// Time, in seconds, of how often should the widget be updated.
    pub update_time: u32,
    /// Font of the widget.
    pub font: String,
    /// Text which separates two widgets from one another.
    pub separator: String,
    /// How the widget is written: `{icon}`, `{value}` and `{separator}` are replaced.
    pub format: String,
}

/// [`WidgetSettings`] with its strings taken as character sequences.
pub struct WidgetModel {
    pub id: Seq<char>,
    pub icon: Seq<char>,
    pub icon_color: Seq<char>,
    pub value_color: Seq<char>,
    pub separator_color: Seq<char>,
    pub background_color: Seq<char>,
    pub command: Seq<char>,
    pub update_time: u32,
    pub font: Seq<char>,
    pub separator: Seq<char>,
    pub format: Seq<char>,
}

impl View for WidgetSettings {
    type V = WidgetModel;

    open spec fn view(&self) -> WidgetModel {
        WidgetModel {
            id: self.id@,
            icon: self.icon@,
            icon_color: self.icon_color@,
            value_color: self.value_color@,
            separator_color: self.separator_color@,
            background_color: self.background_color@,
            command: self.command@,
            update_time: self.update_time,
            font: self.font@,
            separator: self.separator@,
            format: self.format@,
        }
    }
}

/// The settings of a widget that no setting has changed.
pub open spec fn default_widget() -> WidgetModel {
    WidgetModel {
        id: "none"@,
        icon: "NONE"@,
        icon_color: "#ffffff"@,
        value_color: "#ffffff"@,
        separator_color: "#ffffff"@,
        background_color: "#00a2ff"@,
        command: ""@,
        update_time: 0,
        font: "monospace"@,
        separator: "|"@,
        format: "{separator} {icon} {value} {separator}"@,
    }
}

impl Default for WidgetSettings {
    fn default() -> (r: Self)
        ensures
            r@ == default_widget(),
    {
        WidgetSettings {
            id: String::from_str("none"),
            icon: String::from_str("NONE"),
            icon_color: String::from_str("#ffffff"),
            value_color: String::from_str("#ffffff"),
            separator_color: String::from_str("#ffffff"),
            background_color: String::from_str("#00a2ff"),
            command: String::from_str(""),
            update_time: 0,
            font: String::from_str("monospace"),
            separator: String::from_str("|"),
            format: String::from_str("{separator} {icon} {value} {separator}"),
        }
    }
}

impl WidgetSettings {
    /// A copy of the settings.
    pub fn duplicate(&self) -> (r: Self)
        ensures
            r@ == self@,
    {
        WidgetSettings {
            id: self.id.clone(),
            icon: self.icon.clone(),
            icon_color: self.icon_color.clone(),
            value_color: self.value_color.clone(),
            separator_color: self.separator_color.clone(),
            background_color: self.background_color.clone(),
            command: self.command.clone(),
            update_time: self.update_time,
            font: self.font.clone(),
            separator: self.separator.clone(),
            format: self.format.clone(),
        }
    }
}

/// Settings of a workspace info segment.
#[derive(Clone, Debug)]
pub struct WorkspaceSegmentSettings {
    /// Text color of the currently focused workspace.
    pub focused_foreground_color: String,
    /// Background color of the currently focused workspace.
    pub focused_background_color: String,
    /// Text color of the currently unfocused workspace.
    pub normal_foreground_color: String,
    /// Background color of the currently unfocused workspace.
    pub normal_background_color: String,
    /// Font used to display workspace segment text (workspace name and id).
    pub font: String,
    /// How each workspace is written: `{name}` and `{id}` are replaced.
    pub format: String,
}

/// [`WorkspaceSegmentSettings`] with its strings taken as character sequences.
pub struct WorkspaceSegmentModel {
    pub focused_foreground_color: Seq<char>,
    pub focused_background_color: Seq<char>,
    pub normal_foreground_color: Seq<char>,
    pub normal_background_color: Seq<char>,
    pub font: Seq<char>,
    pub format: Seq<char>,
}

impl View for WorkspaceSegmentSettings {
    type V = WorkspaceSegmentModel;

    open spec fn view(&self) -> WorkspaceSegmentModel {
        WorkspaceSegmentModel {
            focused_foreground_color: self.focused_foreground_color@,
            focused_background_color: self.focused_background_color@,
            normal_foreground_color: self.normal_foreground_color@,
            normal_background_color: self.normal_background_color@,
            font: self.font@,
            format: self.format@,
        }
    }
}

/// The settings of a workspace info segment that no setting has changed.
pub open spec fn default_workspace_segment() -> WorkspaceSegmentModel {
    WorkspaceSegmentModel {
        focused_foreground_color: "#ffffff"@,
        focused_background_color: "#00a2ff"@,
        normal_foreground_color: "#ffffff"@,
        normal_background_color: "#333333"@,
        font: "monospace"@,
        format: " {name}:{id} "@,
    }
}

impl Default for WorkspaceSegmentSettings {
    fn default() -> (r: Self)
        ensures
            r@ == default_workspace_segment(),
    {
        WorkspaceSegmentSettings {
            focused_foreground_color: String::from_str("#ffffff"),
            focused_background_color: String::from_str("#00a2ff"),
            normal_foreground_color: String::from_str("#ffffff"),
            normal_background_color: String::from_str("#333333"),
            font: String::from_str("monospace"),
            format: String::from_str(" {name}:{id} "),
        }
    }
}

impl WorkspaceSegmentSettings {
    /// A copy of the settings.
    pub fn duplicate(&self) -> (r: Self)
        ensures
            r@ == self@,
    {
        WorkspaceSegmentSettings {
            focused_foreground_color: self.focused_foreground_color.clone(),
            focused_background_color: self.focused_background_color.clone(),
            normal_foreground_color: self.normal_foreground_color.clone(),
            normal_background_color: self.normal_background_color.clone(),
            font: self.font.clone(),
            format: self.format.clone(),
        }
    }
}

/// Settings of a window title segment.
#[derive(Clone, Debug)]
pub struct WindowTitleSettings {
    /// Font used for displaying window title.
    pub font: String,
    /// Text color for the window title.
    pub foreground_color: String,
    /// Background color for the window title.
    pub background_color: String,
}

/// [`WindowTitleSettings`] with its strings taken as character sequences.
pub struct TitleModel {
    pub font: Seq<char>,
    pub foreground_color: Seq<char>,
    pub background_color: Seq<char>,
}

impl View for WindowTitleSettings {
    type V = TitleModel;

    open spec fn view(&self) -> TitleModel {
        TitleModel {
            font: self.font@,
            foreground_color: self.foreground_color@,
            background_color: self.background_color@,
        }
    }
}

/// The settings of a window title segment that no setting has changed.
pub open spec fn default_title() -> TitleModel {
    TitleModel { font: "monospace"@, foreground_color: "#ffffff"@, background_color: "#00a2ff"@ }
}

impl Default for WindowTitleSettings {
    fn default() -> (r: Self)
        ensures
            r@ == default_title(),
    {
        WindowTitleSettings {
            font: String::from_str("monospace"),
            foreground_color: String::from_str("#ffffff"),
            background_color: String::from_str("#00a2ff"),
        }
    }
}

impl WindowTitleSettings {
    /// A copy of the settings.
    pub fn duplicate(&self) -> (r: Self)
        ensures
            r@ == self@,
    {
        WindowTitleSettings {
            font: self.font.clone(),
            foreground_color: self.foreground_color.clone(),
            background_color: self.background_color.clone(),
        }
    }
}

/// Settings of an icon tray segment (there are none yet).
#[derive(Clone, Debug)]
pub struct IconTraySettings {}

impl Default for IconTraySettings {
    fn default() -> (r: Self) {
        IconTraySettings {  }
    }
}

/// What a bar segment shows, with its settings.
#[derive(Debug, Clone)]
pub enum SegmentSettingsType {
    Widget(Vec<WidgetSettings>),
    Workspace(WorkspaceSegmentSettings),
    Title(WindowTitleSettings),
    IconTray(IconTraySettings),
}

/// A [`SegmentSettingsType`] with its settings taken by their views.
pub enum SegmentTypeModel {
    Widget(Seq<WidgetModel>),
    Workspace(WorkspaceSegmentModel),
    Title(TitleModel),
    IconTray,
}

impl View for SegmentSettingsType {
    type V = SegmentTypeModel;

    open spec fn view(&self) -> SegmentTypeModel {
        match self {
            SegmentSettingsType::Widget(ws) => SegmentTypeModel::Widget(ws@.map_values(|w: WidgetSettings| w@)),
            SegmentSettingsType::Workspace(s) => SegmentTypeModel::Workspace(s@),
            SegmentSettingsType::Title(s) => SegmentTypeModel::Title(s@),
            SegmentSettingsType::IconTray(_) => SegmentTypeModel::IconTray,
        }
    }
}

/// A segment of a bar: what it shows, where, and the name that settings refer to.
#[derive(Debug, Clone)]
pub struct SegmentSettings {
    pub segment_type: SegmentSettingsType,
    pub position: String,
    pub name: String,
}

/// [`SegmentSettings`] taken by views.
pub struct SegmentModel {
    pub segment_type: SegmentTypeModel,
    pub position: Seq<char>,
    pub name: Seq<char>,
}

impl View for SegmentSettings {
    type V = SegmentModel;

    open spec fn view(&self) -> SegmentModel {
        SegmentModel { segment_type: self.segment_type@, position: self.position@, name: self.name@ }
    }
}

impl SegmentSettings {
    /// A segment of the given type, position and name.
    pub fn new(segment_type: SegmentSettingsType, position: String, name: String) -> (r: Self)
        ensures
            r@ == (SegmentModel { segment_type: segment_type@, position: position@, name: name@ }),
    {
        SegmentSettings { segment_type, position, name }
    }
}

/// Settings of one bar.
#[derive(Debug, Clone)]
pub struct BarSettings {
    /// Identifier for the bar, unique 32-bit integer.
    pub identifier: u32,
    /// Monitor id of the bar.
    pub monitor: u32,
    /// The segments of the bar, in the order in which they were added.
    pub segments: Vec<SegmentSettings>,
    /// Size of all fonts used in the bar.
    pub font_size: u32,
    /// Height of the bar.
    pub height: u32,
    /// Background color of the bar.
    pub background_color: String,
    /// Is the bar placed at the top of the screen (else at the bottom)?
    pub location_top: bool,
}

/// [`BarSettings`] taken by views.
pub struct BarModel {
    pub identifier: u32,
    pub monitor: u32,
    pub segments: Seq<SegmentModel>,
    pub font_size: u32,
    pub height: u32,
    pub background_color: Seq<char>,
    pub location_top: bool,
}

impl View for BarSettings {
    type V = BarModel;

    open spec fn view(&self) -> BarModel {
        BarModel {
            identifier: self.identifier,
            monitor: self.monitor,
            segments: self.segments@.map_values(|s: SegmentSettings| s@),
            font_size: self.font_size,
            height: self.height,
            background_color: self.background_color@,
            location_top: self.location_top,
        }
    }
}

/// The settings of a bar that no setting has changed.
pub open spec fn default_bar(identifier: u32) -> BarModel {
    BarModel {
        identifier,
        monitor: 1,
        segments: seq![],
        font_size: 10,
        height: 15,
        background_color: "#333333"@,
        location_top: true,
    }
}

impl BarSettings {
    /// The default settings of the bar `identifier`.
    pub fn new(identifier: u32) -> (r: Self)
        ensures
            r@ == default_bar(identifier),
    {
        let r = BarSettings {
            background_color: String::from_str("#333333"),
            identifier,
            monitor: 1,
            segments: Vec::new(),
            font_size: 10,
            height: 15,
            location_top: true,
        };
        proof {
            assert(r@.segments =~= Seq::<SegmentModel>::empty());
        }
        r
    }

    /// A copy of the settings.
    pub fn duplicate(&self) -> (r: Self)
        ensures
            r@ == self@,
    {
        let mut segs: Vec<SegmentSettings> = Vec::new();
        let mut i: usize = 0;
        while i < self.segments.len()
            invariant
                i <= self.segments@.len(),
                segs@.len() == i,
                forall|j: int| 0 <= j < i ==> #[trigger] segs@[j]@ == self.segments@[j]@,
            decreases self.segments@.len() - i,
        {
            segs.push(self.segments[i].duplicate());
            i = i + 1;
        }
        let r = BarSettings {
            identifier: self.identifier,
            monitor: self.monitor,
            segments: segs,
            font_size: self.font_size,
            height: self.height,
            background_color: self.background_color.clone(),
            location_top: self.location_top,
        };
        proof {
            assert(r@.segments =~= self@.segments);
        }
        r
    }

    /// Does the bar have a window title segment? (A tray is placed next to it.)
    pub fn contains_tray(&self) -> (r: bool)
        ensures
            r == exists|i: int| 0 <= i < self@.segments.len() && self@.segments[i].segment_type is Title,
    {
        let mut i: usize = 0;
        while i < self.segments.len()
            invariant
                i <= self.segments@.len(),
                forall|j: int| 0 <= j < i ==> !(self@.segments[j].segment_type is Title),
            decreases self.segments@.len() - i,
        {
            proof {
                assert(self@.segments[i as int] == self.segments@[i as int]@);
            }
            if let SegmentSettingsType::Title(_) = &self.segments[i].segment_type {
                return true;
            }
            i = i + 1;
        }
        false
    }
}

/// Is `p` a segment position: `left`, `right` or `middle`?
pub open spec fn is_position(p: Seq<char>) -> bool {
    p == "left"@ || p == "right"@ || p == "middle"@
}

/// The default settings of a segment of the type named `t`.
pub open spec fn default_segment_type(t: Seq<char>) -> Option<SegmentTypeModel> {
    if t == "widget"@ {
        Some(SegmentTypeModel::Widget(seq![]))
    } else if t == "workspace"@ {
        Some(SegmentTypeModel::Workspace(default_workspace_segment()))
    } else if t == "title"@ {
        Some(SegmentTypeModel::Title(default_title()))
    } else if t == "icon_tray"@ {
        Some(SegmentTypeModel::IconTray)
    } else {
        None
    }
}

/// The first segment of `segs` named `name`.
pub open spec fn first_segment_named(segs: Seq<SegmentModel>, name: Seq<char>) -> Option<int>
    decreases segs.len(),
{
    if segs.len() == 0 {
        None
    } else {
        match first_segment_named(segs.drop_last(), name) {
            Some(i) => Some(i),
            None => if segs.last().name == name {
                Some(segs.len() - 1)
            } else {
                None
            },
        }
    }
}

/// The value after position `ii` of `v`, if there is one.
pub open spec fn value_after(v: Seq<Seq<char>>, ii: int) -> Option<Seq<char>> {
    if ii + 1 < v.len() {
        Some(v[ii + 1])
    } else {
        None
    }
}

/// Does a word end the command of a widget?
pub open spec fn ends_command(w: Seq<char>) -> bool {
    w == "icon"@ || w == "update_time"@ || w == "font"@
}

/// The words of `s` before the first word that ends a command.
pub open spec fn command_words(s: Seq<Seq<char>>) -> Seq<Seq<char>>
    decreases s.len(),
{
    if s.len() == 0 || ends_command(s[0]) {
        seq![]
    } else {
        seq![s[0]] + command_words(s.drop_first())
    }
}

/// The value of a widget color key: a missing value changes nothing, a value that does
/// not start with `#` is an error.
pub open spec fn widget_color(w: WidgetModel, next: Option<Seq<char>>, key: Seq<char>, set: spec_fn(Seq<char>) -> WidgetModel) -> Result<WidgetModel, ErrorModel> {
    match next {
        None => Ok(w),
        Some(x) => if starts_with_char(x, '#') {
            Ok(set(x))
        } else {
            Err(ErrorModel::NotAColor(x, key))
        },
    }
}

/// The value of a widget key that must have one.
pub open spec fn widget_text(next: Option<Seq<char>>, key: Seq<char>, set: spec_fn(Seq<char>) -> WidgetModel) -> Result<WidgetModel, ErrorModel> {
    match next {
        None => Err(ErrorModel::MissingValue(key)),
        Some(x) => Ok(set(x)),
    }
}

/// The widget after reading the word at position `ii` of `v` as a key. Every word from
/// the third on is read as a key, values included. `command` takes the words after it up
/// to the next `icon`, `update_time` or `font`, joined by spaces: the command and its
/// arguments, to be run by `/bin/sh -c`.
pub open spec fn widget_step(w: WidgetModel, v: Seq<Seq<char>>, ii: int) -> Result<WidgetModel, ErrorModel> {
    let key = v[ii];
    let next = value_after(v, ii);
    if key == "icon"@ {
        widget_text(next, key, |x: Seq<char>| WidgetModel { icon: x, ..w })
    } else if key == "icon_fg"@ || key == "icon_foreground"@ || key == "icon_color"@ {
        widget_color(w, next, key, |x: Seq<char>| WidgetModel { icon_color: x, ..w })
    } else if key == "value_fg"@ || key == "value_foreground"@ || key == "value_color"@ {
        widget_color(w, next, key, |x: Seq<char>| WidgetModel { value_color: x, ..w })
    } else if key == "separator_fg"@ || key == "separator_foreground"@ || key == "separator_color"@ {
        widget_color(w, next, key, |x: Seq<char>| WidgetModel { separator_color: x, ..w })
    } else if key == "bg"@ || key == "bg_color"@ || key == "background_color"@ {
        widget_color(w, next, key, |x: Seq<char>| WidgetModel { background_color: x, ..w })
    } else if key == "command"@ {
        Ok(WidgetModel { command: crate::text::trim_end(join_with(command_words(v.subrange(ii + 1, v.len() as int)), " "@)), ..w })
    } else if key == "update_time"@ {
        match next {
            None => Err(ErrorModel::MissingValue(key)),
            Some(x) => match parse_uint(x, u32::MAX as nat) {
                Ok(n) => Ok(WidgetModel { update_time: n as u32, ..w }),
                Err(k) => Err(ErrorModel::ParseInt(k)),
            },
        }
    } else if key == "font"@ {
        widget_text(next, key, |x: Seq<char>| WidgetModel { font: x, ..w })
    } else if key == "separator"@ {
        widget_text(next, key, |x: Seq<char>| WidgetModel { separator: x, ..w })
    } else if key == "format"@ {
        widget_text(next, key, |x: Seq<char>| WidgetModel { format: x, ..w })
    } else {
        Ok(w)
    }
}

/// The widget that the words of `v` before position `n` describe (read from position 2).
pub open spec fn widget_fold(v: Seq<Seq<char>>, n: int) -> Result<WidgetModel, ErrorModel>
    decreases n,
{
    if n <= 2 {
        Ok(default_widget())
    } else {
        match widget_fold(v, n - 1) {
            Err(e) => Err(e),
            Ok(w) => widget_step(w, v, n - 1),
        }
    }
}

/// The value of a workspace segment color key: a missing value changes nothing, a value
/// that does not start with `#` is an error.
pub open spec fn segment_color(ws: WorkspaceSegmentModel, next: Option<Seq<char>>, key: Seq<char>, set: spec_fn(Seq<char>) -> WorkspaceSegmentModel) -> (WorkspaceSegmentModel, Option<ErrorModel>) {
    match next {
        None => (ws, None),
        Some(x) => if starts_with_char(x, '#') {
            (set(x), None)
        } else {
            (ws, Some(ErrorModel::NotAColor(x, key)))
        },
    }
}

/// The value of a workspace segment key that must have one.
pub open spec fn segment_text(ws: WorkspaceSegmentModel, next: Option<Seq<char>>, key: Seq<char>, set: spec_fn(Seq<char>) -> WorkspaceSegmentModel) -> (WorkspaceSegmentModel, Option<ErrorModel>) {
    match next {
        None => (ws, Some(ErrorModel::MissingValue(key))),
        Some(x) => (set(x), None),
    }
}

/// The workspace segment settings after reading the word at position `ii` of `v` as a key.
pub open spec fn workspace_step(ws: WorkspaceSegmentModel, v: Seq<Seq<char>>, ii: int) -> (WorkspaceSegmentModel, Option<ErrorModel>) {
    let key = v[ii];
    let next = value_after(v, ii);
    if key == "focused_bg"@ || key == "focused_background"@ || key == "focused_background_color"@ {
        segment_color(ws, next, key, |x: Seq<char>| WorkspaceSegmentModel { focused_background_color: x, ..ws })
    } else if key == "focused_fg"@ || key == "focused_foreground"@ || key == "focused_foreground_color"@ {
        segment_color(ws, next, key, |x: Seq<char>| WorkspaceSegmentModel { focused_foreground_color: x, ..ws })
    } else if key == "normal_bg"@ || key == "normal_background"@ || key == "normal_background_color"@ {
        segment_color(ws, next, key, |x: Seq<char>| WorkspaceSegmentModel { normal_background_color: x, ..ws })
    } else if key == "normal_fg"@ || key == "normal_foreground"@ || key == "normal_foreground_color"@ {
        segment_color(ws, next, key, |x: Seq<char>| WorkspaceSegmentModel { normal_foreground_color: x, ..ws })
    } else if key == "font"@ {
        segment_text(ws, next, key, |x: Seq<char>| WorkspaceSegmentModel { font: x, ..ws })
    } else if key == "format"@ {
        segment_text(ws, next, key, |x: Seq<char>| WorkspaceSegmentModel { format: x, ..ws })
    } else {
        (ws, None)
    }
}

/// The workspace segment settings after reading the words of `v` before position `n` as
/// keys (from position 2), and the first error. Keys read before an error keep their effect.
pub open spec fn workspace_fold(ws: WorkspaceSegmentModel, v: Seq<Seq<char>>, n: int) -> (WorkspaceSegmentModel, Option<ErrorModel>)
    decreases n,
{
    if n <= 2 {
        (ws, None)
    } else {
        let (w, e) = workspace_fold(ws, v, n - 1);
        if e is Some {
            (w, e)
        } else {
            workspace_step(w, v, n - 1)
        }
    }
}

/// The title segment settings after reading the word at position `ii` of `v` as a key.
pub open spec fn title_step(t: TitleModel, v: Seq<Seq<char>>, ii: int) -> (TitleModel, Option<ErrorModel>) {
    let key = v[ii];
    let next = value_after(v, ii);
    if key == "font"@ {
        match next {
            None => (t, Some(ErrorModel::MissingValue(key))),
            Some(x) => (TitleModel { font: x, ..t }, None),
        }
    } else if key == "foreground_color"@ || key == "fg_color"@ || key == "fg"@ {
        match next {
            None => (t, Some(ErrorModel::MissingValue(key))),
            Some(x) => if starts_with_char(x, '#') {
                (TitleModel { foreground_color: x, ..t }, None)
            } else {
                (t, Some(ErrorModel::BadTitleColor(x)))
            },
        }
    } else if key == "background_color"@ || key == "bg_color"@ || key == "bg"@ {
        match next {
            None => (t, Some(ErrorModel::MissingValue(key))),
            Some(x) => if starts_with_char(x, '#') {
                (TitleModel { background_color: x, ..t }, None)
            } else {
                (t, Some(ErrorModel::BadTitleColor(x)))
            },
        }
    } else {
        (t, None)
    }
}

/// The title segment settings after reading the words of `v` before position `n` as keys
/// (from position 1, so the segment name is read as a key too), and the first error.
pub open spec fn title_fold(t: TitleModel, v: Seq<Seq<char>>, n: int) -> (TitleModel, Option<ErrorModel>)
    decreases n,
{
    if n <= 1 {
        (t, None)
    } else {
        let (x, e) = title_fold(t, v, n - 1);
        if e is Some {
            (x, e)
        } else {
            title_step(x, v, n - 1)
        }
    }
}

/// A result that is an error when there is one.
pub open spec fn err_of(e: Option<ErrorModel>) -> Result<(), ErrorModel> {
    match e {
        Some(x) => Err(x),
        None => Ok(()),
    }
}

/// `bar` with segment `j` replaced by one of the type `t`.
pub open spec fn with_segment_type(bar: BarModel, j: int, t: SegmentTypeModel) -> BarModel {
    BarModel { segments: bar.segments.update(j, SegmentModel { segment_type: t, ..bar.segments[j] }), ..bar }
}

/// The bar after `segment` values: `add type name position` adds a segment of that type
/// with its default settings, when the position is `left`, `right` or `middle`.
pub open spec fn segment_setting(bar: BarModel, v: Seq<Seq<char>>) -> (BarModel, Result<(), ErrorModel>) {
    if v[0] == "add"@ {
        if v.len() < 2 {
            (bar, Err(ErrorModel::MissingSegmentType))
        } else {
            match default_segment_type(v[1]) {
                None => (bar, Err(ErrorModel::UnknownSegmentType(v[1]))),
                Some(t) => if v.len() < 3 {
                    (bar, Err(ErrorModel::MissingSegmentName(v[1])))
                } else if v.len() >= 4 && is_position(v[3]) {
                    (BarModel { segments: bar.segments.push(SegmentModel { segment_type: t, position: v[3], name: v[2] }), ..bar }, Ok(()))
                } else {
                    (bar, Ok(()))
                },
            }
        }
    } else {
        (bar, Ok(()))
    }
}

/// The bar after `widget` values: `add segment keys...` adds a widget to the first
/// segment of that name (if it is a widget segment).
pub open spec fn widget_setting(bar: BarModel, v: Seq<Seq<char>>) -> (BarModel, Result<(), ErrorModel>) {
    if v[0] == "add"@ {
        match first_segment_named(bar.segments, v[1]) {
            None => (bar, Err(ErrorModel::WidgetSegmentNotFound(v[1]))),
            Some(j) => match widget_fold(v, v.len() as int) {
                Err(e) => (bar, Err(e)),
                Ok(w) => match bar.segments[j].segment_type {
                    SegmentTypeModel::Widget(ws) => (with_segment_type(bar, j, SegmentTypeModel::Widget(ws.push(w))), Ok(())),
                    _ => (bar, Ok(())),
                },
            },
        }
    } else {
        (bar, Ok(()))
    }
}

/// The bar after `workspace` values: `set segment keys...` changes the first segment of
/// that name (if it is a workspace segment).
pub open spec fn workspace_setting(bar: BarModel, v: Seq<Seq<char>>) -> (BarModel, Result<(), ErrorModel>) {
    if v[0] == "set"@ {
        match first_segment_named(bar.segments, v[1]) {
            None => (bar, Err(ErrorModel::WorkspaceSegmentNotFound(v[1]))),
            Some(j) => match bar.segments[j].segment_type {
                SegmentTypeModel::Workspace(ws) => {
                    let (w, e) = workspace_fold(ws, v, v.len() as int);
                    (with_segment_type(bar, j, SegmentTypeModel::Workspace(w)), err_of(e))
                },
                _ => (bar, Ok(())),
            },
        }
    } else {
        (bar, Ok(()))
    }
}

/// The bar after `title` values: `set segment keys...` changes the first segment of that
/// name (if it is a title segment).
pub open spec fn title_setting(bar: BarModel, v: Seq<Seq<char>>) -> (BarModel, Result<(), ErrorModel>) {
    if v[0] == "set"@ {
        match first_segment_named(bar.segments, v[1]) {
            None => (bar, Err(ErrorModel::TitleSegmentNotFound(v[1]))),
            Some(j) => match bar.segments[j].segment_type {
                SegmentTypeModel::Title(t) => {
                    let (x, e) = title_fold(t, v, v.len() as int);
                    (with_segment_type(bar, j, SegmentTypeModel::Title(x)), err_of(e))
                },
                _ => (bar, Ok(())),
            },
        }
    } else {
        (bar, Ok(()))
    }
}

/// The bar after the line `bar_set id name values...`, and whether it succeeded. Some
/// failures keep the changes made before them.
pub open spec fn bar_setting(bar: BarModel, name: Seq<char>, v: Seq<Seq<char>>) -> (BarModel, Result<(), ErrorModel>) {
    if name == "segment"@ {
        segment_setting(bar, v)
    } else if name == "monitor"@ {
        match parse_uint(v[0], u32::MAX as nat) {
            Ok(n) => (BarModel { monitor: n as u32, ..bar }, Ok(())),
            Err(k) => (bar, Err(ErrorModel::ParseInt(k))),
        }
    } else if name == "widget"@ {
        widget_setting(bar, v)
    } else if name == "workspace"@ {
        workspace_setting(bar, v)
    } else if name == "title"@ {
        title_setting(bar, v)
    } else if name == "icon_tray"@ || name == "tray"@ {
        (bar, Ok(()))
    } else if name == "font_size"@ {
        match parse_uint(v[0], u32::MAX as nat) {
            Ok(n) => (BarModel { font_size: n as u32, ..bar }, Ok(())),
            Err(k) => (bar, Err(ErrorModel::ParseInt(k))),
        }
    } else if name == "height"@ {
        match parse_uint(v[0], u32::MAX as nat) {
            Ok(n) => (BarModel { height: n as u32, ..bar }, Ok(())),
            Err(k) => (bar, Err(ErrorModel::ParseInt(k))),
        }
    } else if name == "background_color"@ {
        if starts_with_char(v[0], '#') {
            (BarModel { background_color: v[0], ..bar }, Ok(()))
        } else {
            (bar, Err(ErrorModel::BadBarColor(v[0])))
        }
    } else if name == "location_top"@ {
        match parse_bool_spec(v[0]) {
            Some(b) => (BarModel { location_top: b, ..bar }, Ok(())),
            None => (bar, Err(ErrorModel::ParseBool)),
        }
    } else {
        (bar, Err(ErrorModel::UnknownBarSetting(name)))
    }
}

/// Does the bar setting `name` read its first value without checking that it exists?
pub open spec fn reads_first_value(name: Seq<char>) -> bool {
    name == "segment"@ || name == "monitor"@ || name == "widget"@ || name == "workspace"@
        || name == "title"@ || name == "icon_tray"@ || name == "tray"@ || name == "font_size"@
        || name == "height"@ || name == "background_color"@ || name == "location_top"@
}

/// Can a bar setting read its values without indexing past them? Known settings need a
/// first value; `widget add`, `workspace set` and `title set` also need a segment name.
pub open spec fn bar_setting_readable(name: Seq<char>, v: Seq<Seq<char>>) -> bool {
    &&& reads_first_value(name) ==> v.len() >= 1
    &&& (name == "widget"@ && v[0] == "add"@) ==> v.len() >= 2
    &&& ((name == "workspace"@ || name == "title"@) && v[0] == "set"@) ==> v.len() >= 2
}

/// Can a bar setting read its values without indexing past them?
pub fn setting_readable(name: &str, values: &Vec<String>) -> (r: bool)
    ensures
        r == bar_setting_readable(name@, views(values@)),
{
    let reads_first = str_eq(name, "segment") || str_eq(name, "monitor") || str_eq(name, "widget") || str_eq(
        name,
        "workspace",
    ) || str_eq(name, "title") || str_eq(name, "icon_tray") || str_eq(name, "tray") || str_eq(name, "font_size")
        || str_eq(name, "height") || str_eq(name, "background_color") || str_eq(name, "location_top");
    if values.len() == 0 {
        return !reads_first;
    }
    assert(views(values@)[0] == values@[0]@);
    let first = values[0].as_str();
    if str_eq(name, "widget") && str_eq(first, "add") && values.len() < 2 {
        return false;
    }
    if (str_eq(name, "workspace") || str_eq(name, "title")) && str_eq(first, "set") && values.len() < 2 {
        return false;
    }
    true
}

/// The first bar of `bars` with the identifier `id`.
pub open spec fn first_bar_with(bars: Seq<BarModel>, id: u32) -> Option<int>
    decreases bars.len(),
{
    if bars.len() == 0 {
        None
    } else {
        match first_bar_with(bars.drop_last(), id) {
            Some(i) => Some(i),
            None => if bars.last().identifier == id {
                Some(bars.len() - 1)
            } else {
                None
            },
        }
    }
}

/// The bars after the line `bar_set id name values...`, and whether it succeeded. A bar
/// with a new identifier is added at the end first, and stays even when the setting fails.
pub open spec fn bars_add(bars: Seq<BarModel>, id: u32, name: Seq<char>, v: Seq<Seq<char>>) -> (Seq<BarModel>, Result<(), ErrorModel>) {
    let (all, i) = match first_bar_with(bars, id) {
        Some(i) => (bars, i),
        None => (bars.push(default_bar(id)), bars.len() as int),
    };
    let (bar, r) = bar_setting(all[i], name, v);
    (all.update(i, bar), r)
}

/// All bars of a configuration.
#[derive(Debug, Clone)]
pub struct AllBarSettings(pub Vec<BarSettings>);

impl View for AllBarSettings {
    type V = Seq<BarModel>;

    open spec fn view(&self) -> Seq<BarModel> {
        self.0@.map_values(|b: BarSettings| b@)
    }
}

impl Default for AllBarSettings {
    /// No bars.
    fn default() -> (r: Self)
        ensures
            r@ == Seq::<BarModel>::empty(),
    {
        let r = AllBarSettings(Vec::new());
        proof {
            assert(r@ =~= Seq::<BarModel>::empty());
        }
        r
    }
}

/// The index of the first segment of `segs` named `name`.
fn find_segment(segs: &Vec<SegmentSettings>, name: &str) -> (r: Option<usize>)
    ensures
        match first_segment_named(segs@.map_values(|x: SegmentSettings| x@), name@) {
            Some(j) => r matches Some(x) && x == j,
            None => r is None,
        },
{
    let ghost sv = segs@.map_values(|x: SegmentSettings| x@);
    let mut i: usize = 0;
    proof {
        assert(sv.subrange(0, 0) =~= Seq::<SegmentModel>::empty());
    }
    while i < segs.len()
        invariant
            sv == segs@.map_values(|x: SegmentSettings| x@),
            i <= segs@.len(),
            first_segment_named(sv.subrange(0, i as int), name@) is None,
        decreases segs@.len() - i,
    {
        proof {
            assert(sv.subrange(0, i + 1).drop_last() =~= sv.subrange(0, i as int));
        }
        if str_eq(segs[i].name.as_str(), name) {
            proof {
                lemma_first_segment_prefix(sv, i as int + 1, name@);
            }
            return Some(i);
        }
        i = i + 1;
    }
    proof {
        assert(sv.subrange(0, sv.len() as int) =~= sv);
    }
    None
}

proof fn lemma_first_segment_prefix(s: Seq<SegmentModel>, k: int, name: Seq<char>)
    requires
        0 < k <= s.len(),
        first_segment_named(s.subrange(0, k - 1), name) is None,
        s[k - 1].name == name,
    ensures
        first_segment_named(s, name) == Some(k - 1),
    decreases s.len(),
{
    if s.len() > k {
        assert(s.drop_last().subrange(0, k - 1) =~= s.subrange(0, k - 1));
        assert(s.drop_last()[k - 1] == s[k - 1]);
        lemma_first_segment_prefix(s.drop_last(), k, name);
    } else {
        assert(s.drop_last() =~= s.subrange(0, k - 1));
    }
}

proof fn lemma_first_segment_range(s: Seq<SegmentModel>, name: Seq<char>)
    ensures
        first_segment_named(s, name) matches Some(j) ==> 0 <= j < s.len(),
    decreases s.len(),
{
    if s.len() > 0 {
        lemma_first_segment_range(s.drop_last(), name);
    }
}

/// The value after position `ii` of `v`, if there is one.
fn next_value(v: &Vec<String>, ii: usize) -> (r: Option<&String>)
    ensures
        match value_after(views(v@), ii as int) {
            Some(x) => r matches Some(y) && y@ == x,
            None => r is None,
        },
{
    if ii < v.len() && ii + 1 < v.len() {
        Some(&v[ii + 1])
    } else {
        None
    }
}

/// The command that starts at position `from` of `v`.
fn command_of(v: &Vec<String>, from: usize) -> (r: String)
    requires
        from <= v@.len(),
    ensures
        r@ == crate::text::trim_end(join_with(command_words(views(v@).subrange(from as int, v@.len() as int)), " "@)),
{
    let ghost vv = views(v@);
    let mut parts: Vec<String> = Vec::new();
    let mut i: usize = from;
    proof {
        assert(views(parts@) =~= Seq::<Seq<char>>::empty());
        assert(command_words(vv.subrange(from as int, vv.len() as int)) =~= views(parts@) + command_words(vv.subrange(i as int, vv.len() as int)));
    }
    while i < v.len()
        invariant
            vv == views(v@),
            from <= i <= v@.len(),
            command_words(vv.subrange(from as int, vv.len() as int)) == views(parts@) + command_words(vv.subrange(i as int, vv.len() as int)),
        decreases v@.len() - i,
    {
        let word = v[i].as_str();
        let ghost rest = vv.subrange(i as int, vv.len() as int);
        proof {
            assert(rest[0] == v@[i as int]@);
            assert(rest.drop_first() =~= vv.subrange(i + 1, vv.len() as int));
        }
        if str_eq(word, "icon") || str_eq(word, "update_time") || str_eq(word, "font") {
            proof {
                assert(vv.subrange(v@.len() as int, vv.len() as int) =~= Seq::<Seq<char>>::empty());
                assert(command_words(vv.subrange(from as int, vv.len() as int)) =~= views(parts@));
            }
            let joined = crate::text::join_strings(&parts, " ");
            return crate::text::trim_end_string(joined.as_str());
        }
        let ghost before = views(parts@);
        parts.push(v[i].clone());
        proof {
            assert(views(parts@) =~= before.push(rest[0]));
            assert(command_words(rest) == seq![rest[0]] + command_words(rest.drop_first()));
            assert(command_words(vv.subrange(from as int, vv.len() as int)) =~= views(parts@) + command_words(vv.subrange(i + 1, vv.len() as int)));
        }
        i = i + 1;
    }
    proof {
        assert(vv.subrange(i as int, vv.len() as int) =~= Seq::<Seq<char>>::empty());
        assert(command_words(vv.subrange(from as int, vv.len() as int)) =~= views(parts@));
    }
    let joined = crate::text::join_strings(&parts, " ");
    crate::text::trim_end_string(joined.as_str())
}

/// Reads the word at position `ii` of `v` as a widget key, changing `w`.
fn widget_key(w: &mut WidgetSettings, v: &Vec<String>, ii: usize) -> (r: Result<(), Error>)
    requires
        ii < v@.len(),
    ensures
        match widget_step(old(w)@, views(v@), ii as int) {
            Ok(m) => r is Ok && final(w)@ == m,
            Err(e) => r matches Err(x) && x@ == e,
        },
{
    let ghost vv = views(v@);
    assert(vv[ii as int] == v@[ii as int]@);
    let key = v[ii].as_str();
    let next = next_value(v, ii);
    if str_eq(key, "icon") {
        match next {
            Some(x) => w.icon = x.clone(),
            None => return Err(Error::MissingValue(v[ii].clone())),
        }
    } else if str_eq(key, "icon_fg") || str_eq(key, "icon_foreground") || str_eq(key, "icon_color") {
        if let Some(x) = next {
            if !first_char_is(x.as_str(), '#') {
                return Err(Error::NotAColor(x.clone(), v[ii].clone()));
            }
            w.icon_color = x.clone();
        }
    } else if str_eq(key, "value_fg") || str_eq(key, "value_foreground") || str_eq(key, "value_color") {
        if let Some(x) = next {
            if !first_char_is(x.as_str(), '#') {
                return Err(Error::NotAColor(x.clone(), v[ii].clone()));
            }
            w.value_color = x.clone();
        }
    } else if str_eq(key, "separator_fg") || str_eq(key, "separator_foreground") || str_eq(key, "separator_color") {
        if let Some(x) = next {
            if !first_char_is(x.as_str(), '#') {
                return Err(Error::NotAColor(x.clone(), v[ii].clone()));
            }
            w.separator_color = x.clone();
        }
    } else if str_eq(key, "bg") || str_eq(key, "bg_color") || str_eq(key, "background_color") {
        if let Some(x) = next {
            if !first_char_is(x.as_str(), '#') {
                return Err(Error::NotAColor(x.clone(), v[ii].clone()));
            }
            w.background_color = x.clone();
        }
    } else if str_eq(key, "command") {
        let len = v.len();
        assert(ii < len);
        w.command = command_of(v, ii + 1);
    } else if str_eq(key, "update_time") {
        match next {
            Some(x) => match parse_u32(x.as_str()) {
                Ok(n) => w.update_time = n,
                Err(e) => return Err(e),
            },
            None => return Err(Error::MissingValue(v[ii].clone())),
        }
    } else if str_eq(key, "font") {
        match next {
            Some(x) => w.font = x.clone(),
            None => return Err(Error::MissingValue(v[ii].clone())),
        }
    } else if str_eq(key, "separator") {
        match next {
            Some(x) => w.separator = x.clone(),
            None => return Err(Error::MissingValue(v[ii].clone())),
        }
    } else if str_eq(key, "format") {
        match next {
            Some(x) => w.format = x.clone(),
            None => return Err(Error::MissingValue(v[ii].clone())),
        }
    }
    Ok(())
}

/// Reads a widget from the words of `v` from position 2 on.
fn read_widget(v: &Vec<String>) -> (r: Result<WidgetSettings, Error>)
    ensures
        match widget_fold(views(v@), v@.len() as int) {
            Ok(m) => r matches Ok(x) && x@ == m,
            Err(e) => r matches Err(x) && x@ == e,
        },
{
    let ghost vv = views(v@);
    let mut widget = WidgetSettings::default();
    if v.len() <= 2 {
        return Ok(widget);
    }
    let mut i: usize = 2;
    while i < v.len()
        invariant
            vv == views(v@),
            2 <= i <= v@.len(),
            widget_fold(vv, i as int) == Ok::<WidgetModel, ErrorModel>(widget@),
        decreases v@.len() - i,
    {
        match widget_key(&mut widget, v, i) {
            Ok(()) => {},
            Err(e) => {
                proof {
                    lemma_widget_fold_stops(vv, i as int + 1, v@.len() as int);
                }
                return Err(e);
            },
        }
        i = i + 1;
    }
    Ok(widget)
}

/// Once reading a widget fails, reading more words fails the same way.
proof fn lemma_widget_fold_stops(v: Seq<Seq<char>>, k: int, n: int)
    requires
        2 < k <= n,
        widget_fold(v, k) is Err,
    ensures
        widget_fold(v, n) == widget_fold(v, k),
    decreases n,
{
    if n > k {
        lemma_widget_fold_stops(v, k, n - 1);
    }
}

/// Reads the word at position `ii` of `v` as a workspace segment key, changing `ws`.
fn workspace_key(ws: &mut WorkspaceSegmentSettings, v: &Vec<String>, ii: usize) -> (r: Result<(), Error>)
    requires
        ii < v@.len(),
    ensures
        final(ws)@ == workspace_step(old(ws)@, views(v@), ii as int).0,
        match workspace_step(old(ws)@, views(v@), ii as int).1 {
            Some(e) => r matches Err(x) && x@ == e,
            None => r is Ok,
        },
{
    let ghost vv = views(v@);
    assert(vv[ii as int] == v@[ii as int]@);
    let key = v[ii].as_str();
    let next = next_value(v, ii);
    if str_eq(key, "focused_bg") || str_eq(key, "focused_background") || str_eq(key, "focused_background_color") {
        if let Some(x) = next {
            if !first_char_is(x.as_str(), '#') {
                return Err(Error::NotAColor(x.clone(), v[ii].clone()));
            }
            ws.focused_background_color = x.clone();
        }
    } else if str_eq(key, "focused_fg") || str_eq(key, "focused_foreground") || str_eq(key, "focused_foreground_color") {
        if let Some(x) = next {
            if !first_char_is(x.as_str(), '#') {
                return Err(Error::NotAColor(x.clone(), v[ii].clone()));
            }
            ws.focused_foreground_color = x.clone();
        }
    } else if str_eq(key, "normal_bg") || str_eq(key, "normal_background") || str_eq(key, "normal_background_color") {
        if let Some(x) = next {
            if !first_char_is(x.as_str(), '#') {
                return Err(Error::NotAColor(x.clone(), v[ii].clone()));
            }
            ws.normal_background_color = x.clone();
        }
    } else if str_eq(key, "normal_fg") || str_eq(key, "normal_foreground") || str_eq(key, "normal_foreground_color") {
        if let Some(x) = next {
            if !first_char_is(x.as_str(), '#') {
                return Err(Error::NotAColor(x.clone(), v[ii].clone()));
            }
            ws.normal_foreground_color = x.clone();
        }
    } else if str_eq(key, "font") {
        match next {
            Some(x) => ws.font = x.clone(),
            None => return Err(Error::MissingValue(v[ii].clone())),
        }
    } else if str_eq(key, "format") {
        match next {
            Some(x) => ws.format = x.clone(),
            None => return Err(Error::MissingValue(v[ii].clone())),
        }
    }
    Ok(())
}

/// Reads the words of `v` from position 2 on as workspace segment keys, changing `ws`.
/// Keys read before an error keep their effect.
fn apply_workspace_keys(ws: &mut WorkspaceSegmentSettings, v: &Vec<String>) -> (r: Result<(), Error>)
    ensures
        final(ws)@ == workspace_fold(old(ws)@, views(v@), v@.len() as int).0,
        match workspace_fold(old(ws)@, views(v@), v@.len() as int).1 {
            Some(e) => r matches Err(x) && x@ == e,
            None => r is Ok,
        },
{
    let ghost vv = views(v@);
    let ghost start = ws@;
    if v.len() <= 2 {
        return Ok(());
    }
    let mut i: usize = 2;
    while i < v.len()
        invariant
            vv == views(v@),
            2 <= i <= v@.len(),
            start == old(ws)@,
            workspace_fold(start, vv, i as int) == (ws@, None::<ErrorModel>),
        decreases v@.len() - i,
    {
        let ghost prev = ws@;
        proof {
            assert(workspace_fold(start, vv, i as int + 1) == workspace_step(prev, vv, i as int));
        }
        match workspace_key(ws, v, i) {
            Ok(()) => {},
            Err(e) => {
                proof {
                    lemma_workspace_fold_stops(start, vv, i as int + 1, v@.len() as int);
                }
                return Err(e);
            },
        }
        i = i + 1;
    }
    Ok(())
}

/// Once reading workspace segment keys fails, reading more words changes nothing more.
proof fn lemma_workspace_fold_stops(ws: WorkspaceSegmentModel, v: Seq<Seq<char>>, k: int, n: int)
    requires
        2 < k <= n,
        workspace_fold(ws, v, k).1 is Some,
    ensures
        workspace_fold(ws, v, n) == workspace_fold(ws, v, k),
    decreases n,
{
    if n > k {
        lemma_workspace_fold_stops(ws, v, k, n - 1);
    }
}

/// Reads the word at position `ii` of `v` as a title segment key, changing `t`.
fn title_key(t: &mut WindowTitleSettings, v: &Vec<String>, ii: usize) -> (r: Result<(), Error>)
    requires
        ii < v@.len(),
    ensures
        final(t)@ == title_step(old(t)@, views(v@), ii as int).0,
        match title_step(old(t)@, views(v@), ii as int).1 {
            Some(e) => r matches Err(x) && x@ == e,
            None => r is Ok,
        },
{
    let ghost vv = views(v@);
    assert(vv[ii as int] == v@[ii as int]@);
    let key = v[ii].as_str();
    let next = next_value(v, ii);
    if str_eq(key, "font") {
        match next {
            Some(x) => t.font = x.clone(),
            None => return Err(Error::MissingValue(v[ii].clone())),
        }
    } else if str_eq(key, "foreground_color") || str_eq(key, "fg_color") || str_eq(key, "fg") {
        match next {
            Some(x) => {
                if !first_char_is(x.as_str(), '#') {
                    return Err(Error::BadTitleColor(x.clone()));
                }
                t.foreground_color = x.clone();
            },
            None => return Err(Error::MissingValue(v[ii].clone())),
        }
    } else if str_eq(key, "background_color") || str_eq(key, "bg_color") || str_eq(key, "bg") {
        match next {
            Some(x) => {
                if !first_char_is(x.as_str(), '#') {
                    return Err(Error::BadTitleColor(x.clone()));
                }
                t.background_color = x.clone();
            },
            None => return Err(Error::MissingValue(v[ii].clone())),
        }
    }
    Ok(())
}

/// Reads the words of `v` from position 1 on as title segment keys, changing `t`. Keys
/// read before an error keep their effect.
fn apply_title_keys(t: &mut WindowTitleSettings, v: &Vec<String>) -> (r: Result<(), Error>)
    ensures
        final(t)@ == title_fold(old(t)@, views(v@), v@.len() as int).0,
        match title_fold(old(t)@, views(v@), v@.len() as int).1 {
            Some(e) => r matches Err(x) && x@ == e,
            None => r is Ok,
        },
{
    let ghost vv = views(v@);
    let ghost start = t@;
    if v.len() <= 1 {
        return Ok(());
    }
    let mut i: usize = 1;
    while i < v.len()
        invariant
            vv == views(v@),
            1 <= i <= v@.len(),
            start == old(t)@,
            title_fold(start, vv, i as int) == (t@, None::<ErrorModel>),
        decreases v@.len() - i,
    {
        let ghost prev = t@;
        proof {
            assert(title_fold(start, vv, i as int + 1) == title_step(prev, vv, i as int));
        }
        match title_key(t, v, i) {
            Ok(()) => {},
            Err(e) => {
                proof {
                    lemma_title_fold_stops(start, vv, i as int + 1, v@.len() as int);
                }
                return Err(e);
            },
        }
        i = i + 1;
    }
    Ok(())
}

/// Once reading title segment keys fails, reading more words changes nothing more.
proof fn lemma_title_fold_stops(t: TitleModel, v: Seq<Seq<char>>, k: int, n: int)
    requires
        1 < k <= n,
        title_fold(t, v, k).1 is Some,
    ensures
        title_fold(t, v, n) == title_fold(t, v, k),
    decreases n,
{
    if n > k {
        lemma_title_fold_stops(t, v, k, n - 1);
    }
}

/// Replaces the type of segment `j` of `bar`.
fn set_segment_type(bar: &mut BarSettings, j: usize, t: SegmentSettingsType, old_seg: SegmentSettings)
    requires
        j < old(bar).segments@.len(),
        old_seg@ == old(bar)@.segments[j as int],
    ensures
        final(bar)@ == with_segment_type(old(bar)@, j as int, t@),
{
    let ghost b0 = bar@;
    let SegmentSettings { segment_type: _, position, name } = old_seg;
    bar.segments.set(j, SegmentSettings { segment_type: t, position, name });
    proof {
        assert(bar@.segments =~= b0.segments.update(j as int, SegmentModel { segment_type: t@, ..b0.segments[j as int] }));
    }
}

impl BarSettings {
    /// Applies `segment` values.
    fn apply_segment(&mut self, v: &Vec<String>) -> (r: Result<(), Error>)
        requires
            v@.len() >= 1,
        ensures
            final(self)@ == segment_setting(old(self)@, views(v@)).0,
            crate::error::result_err_view(r) == segment_setting(old(self)@, views(v@)).1,
    {
        let ghost vv = views(v@);
        let ghost b0 = self@;
        assert(vv[0] == v@[0]@);
        if !str_eq(v[0].as_str(), "add") {
            return Ok(());
        }
        if v.len() < 2 {
            return Err(Error::MissingSegmentType);
        }
        assert(vv[1] == v@[1]@);
        let t = v[1].as_str();
        let seg_type = if str_eq(t, "widget") {
            let e: Vec<WidgetSettings> = Vec::new();
            proof {
                assert(e@.map_values(|w: WidgetSettings| w@) =~= Seq::<WidgetModel>::empty());
            }
            SegmentSettingsType::Widget(e)
        } else if str_eq(t, "workspace") {
            SegmentSettingsType::Workspace(WorkspaceSegmentSettings::default())
        } else if str_eq(t, "title") {
            SegmentSettingsType::Title(WindowTitleSettings::default())
        } else if str_eq(t, "icon_tray") {
            SegmentSettingsType::IconTray(IconTraySettings {  })
        } else {
            return Err(Error::UnknownSegmentType(v[1].clone()));
        };
        assert(default_segment_type(vv[1]) == Some(seg_type@));
        if v.len() < 3 {
            return Err(Error::MissingSegmentName(v[1].clone()));
        }
        if v.len() >= 4 {
            assert(vv[2] == v@[2]@);
            assert(vv[3] == v@[3]@);
            let p = v[3].as_str();
            if str_eq(p, "left") || str_eq(p, "right") || str_eq(p, "middle") {
                let seg = SegmentSettings::new(seg_type, v[3].clone(), v[2].clone());
                self.segments.push(seg);
                proof {
                    assert(self@.segments =~= b0.segments.push(seg@));
                }
            }
        }
        Ok(())
    }

    /// Applies `widget` values.
    fn apply_widget(&mut self, v: &Vec<String>) -> (r: Result<(), Error>)
        requires
            v@.len() >= 1,
            views(v@)[0] == "add"@ ==> v@.len() >= 2,
        ensures
            final(self)@ == widget_setting(old(self)@, views(v@)).0,
            crate::error::result_err_view(r) == widget_setting(old(self)@, views(v@)).1,
    {
        let ghost vv = views(v@);
        let ghost b0 = self@;
        assert(vv[0] == v@[0]@);
        if !str_eq(v[0].as_str(), "add") {
            return Ok(());
        }
        assert(vv[1] == v@[1]@);
        proof {
            lemma_first_segment_range(b0.segments, vv[1]);
        }
        let j = match find_segment(&self.segments, v[1].as_str()) {
            Some(j) => j,
            None => return Err(Error::WidgetSegmentNotFound(v[1].clone())),
        };
        let widget = match read_widget(v) {
            Ok(w) => w,
            Err(e) => return Err(e),
        };
        assert(b0.segments[j as int] == self.segments@[j as int]@);
        match &self.segments[j].segment_type {
            SegmentSettingsType::Widget(ws) => {
                let mut ws2 = clone_widgets(ws);
                let ghost before = ws2@.map_values(|w: WidgetSettings| w@);
                ws2.push(widget);
                proof {
                    assert(ws2@.map_values(|w: WidgetSettings| w@) =~= before.push(widget@));
                }
                let old_seg = self.segments[j].duplicate();
                set_segment_type(self, j, SegmentSettingsType::Widget(ws2), old_seg);
            },
            _ => {},
        }
        Ok(())
    }

    /// Applies `workspace` values.
    fn apply_workspace(&mut self, v: &Vec<String>) -> (r: Result<(), Error>)
        requires
            v@.len() >= 1,
            views(v@)[0] == "set"@ ==> v@.len() >= 2,
        ensures
            final(self)@ == workspace_setting(old(self)@, views(v@)).0,
            crate::error::result_err_view(r) == workspace_setting(old(self)@, views(v@)).1,
    {
        let ghost vv = views(v@);
        let ghost b0 = self@;
        assert(vv[0] == v@[0]@);
        if !str_eq(v[0].as_str(), "set") {
            return Ok(());
        }
        assert(vv[1] == v@[1]@);
        proof {
            lemma_first_segment_range(b0.segments, vv[1]);
        }
        let j = match find_segment(&self.segments, v[1].as_str()) {
            Some(j) => j,
            None => return Err(Error::WorkspaceSegmentNotFound(v[1].clone())),
        };
        assert(b0.segments[j as int] == self.segments@[j as int]@);
        match &self.segments[j].segment_type {
            SegmentSettingsType::Workspace(ws) => {
                let mut ws2 = ws.duplicate();
                let r = apply_workspace_keys(&mut ws2, v);
                let old_seg = self.segments[j].duplicate();
                set_segment_type(self, j, SegmentSettingsType::Workspace(ws2), old_seg);
                r
            },
            _ => Ok(()),
        }
    }

    /// Applies `title` values.
    fn apply_title(&mut self, v: &Vec<String>) -> (r: Result<(), Error>)
        requires
            v@.len() >= 1,
            views(v@)[0] == "set"@ ==> v@.len() >= 2,
        ensures
            final(self)@ == title_setting(old(self)@, views(v@)).0,
            crate::error::result_err_view(r) == title_setting(old(self)@, views(v@)).1,
    {
        let ghost vv = views(v@);
        let ghost b0 = self@;
        assert(vv[0] == v@[0]@);
        if !str_eq(v[0].as_str(), "set") {
            return Ok(());
        }
        assert(vv[1] == v@[1]@);
        proof {
            lemma_first_segment_range(b0.segments, vv[1]);
        }
        let j = match find_segment(&self.segments, v[1].as_str()) {
            Some(j) => j,
            None => return Err(Error::TitleSegmentNotFound(v[1].clone())),
        };
        assert(b0.segments[j as int] == self.segments@[j as int]@);
        match &self.segments[j].segment_type {
            SegmentSettingsType::Title(t) => {
                let mut t2 = t.duplicate();
                let r = apply_title_keys(&mut t2, v);
                let old_seg = self.segments[j].duplicate();
                set_segment_type(self, j, SegmentSettingsType::Title(t2), old_seg);
                r
            },
            _ => Ok(()),
        }
    }

    /// Applies the bar setting `name` with its values.
    pub fn apply(&mut self, name: &str, v: &Vec<String>) -> (r: Result<(), Error>)
        requires
            bar_setting_readable(name@, views(v@)),
        ensures
            final(self)@ == bar_setting(old(self)@, name@, views(v@)).0,
            crate::error::result_err_view(r) == bar_setting(old(self)@, name@, views(v@)).1,
    {
        let ghost vv = views(v@);
        if str_eq(name, "segment") {
            self.apply_segment(v)
        } else if str_eq(name, "monitor") {
            assert(vv[0] == v@[0]@);
            match parse_u32(v[0].as_str()) {
                Ok(n) => {
                    self.monitor = n;
                    Ok(())
                },
                Err(e) => Err(e),
            }
        } else if str_eq(name, "widget") {
            self.apply_widget(v)
        } else if str_eq(name, "workspace") {
            self.apply_workspace(v)
        } else if str_eq(name, "title") {
            self.apply_title(v)
        } else if str_eq(name, "icon_tray") || str_eq(name, "tray") {
            Ok(())
        } else if str_eq(name, "font_size") {
            assert(vv[0] == v@[0]@);
            match parse_u32(v[0].as_str()) {
                Ok(n) => {
                    self.font_size = n;
                    Ok(())
                },
                Err(e) => Err(e),
            }
        } else if str_eq(name, "height") {
            assert(vv[0] == v@[0]@);
            match parse_u32(v[0].as_str()) {
                Ok(n) => {
                    self.height = n;
                    Ok(())
                },
                Err(e) => Err(e),
            }
        } else if str_eq(name, "background_color") {
            assert(vv[0] == v@[0]@);
            if !first_char_is(v[0].as_str(), '#') {
                return Err(Error::BadBarColor(v[0].clone()));
            }
            self.background_color = v[0].clone();
            Ok(())
        } else if str_eq(name, "location_top") {
            assert(vv[0] == v@[0]@);
            match parse_bool(v[0].as_str()) {
                Ok(b) => {
                    self.location_top = b;
                    Ok(())
                },
                Err(e) => Err(e),
            }
        } else {
            Err(Error::UnknownBarSetting(String::from_str(name)))
        }
    }
}

/// A copy of a list of widget settings.
fn clone_widgets(ws: &Vec<WidgetSettings>) -> (r: Vec<WidgetSettings>)
    ensures
        r@.map_values(|w: WidgetSettings| w@) == ws@.map_values(|w: WidgetSettings| w@),
{
    let mut r: Vec<WidgetSettings> = Vec::new();
    let mut i: usize = 0;
    while i < ws.len()
        invariant
            i <= ws@.len(),
            r@.len() == i,
            forall|j: int| 0 <= j < i ==> #[trigger] r@[j]@ == ws@[j]@,
        decreases ws@.len() - i,
    {
        r.push(ws[i].duplicate());
        i = i + 1;
    }
    proof {
        assert(r@.map_values(|w: WidgetSettings| w@) =~= ws@.map_values(|w: WidgetSettings| w@));
    }
    r
}

impl SegmentSettings {
    /// A copy of the segment.
    pub fn duplicate(&self) -> (r: Self)
        ensures
            r@ == self@,
    {
        let t = match &self.segment_type {
            SegmentSettingsType::Widget(ws) => SegmentSettingsType::Widget(clone_widgets(ws)),
            SegmentSettingsType::Workspace(s) => SegmentSettingsType::Workspace(s.duplicate()),
            SegmentSettingsType::Title(s) => SegmentSettingsType::Title(s.duplicate()),
            SegmentSettingsType::IconTray(_) => SegmentSettingsType::IconTray(IconTraySettings {  }),
        };
        SegmentSettings { segment_type: t, position: self.position.clone(), name: self.name.clone() }
    }
}

proof fn lemma_first_bar_prefix(s: Seq<BarModel>, k: int, id: u32)
    requires
        0 < k <= s.len(),
        first_bar_with(s.subrange(0, k - 1), id) is None,
        s[k - 1].identifier == id,
    ensures
        first_bar_with(s, id) == Some(k - 1),
    decreases s.len(),
{
    if s.len() > k {
        assert(s.drop_last().subrange(0, k - 1) =~= s.subrange(0, k - 1));
        assert(s.drop_last()[k - 1] == s[k - 1]);
        lemma_first_bar_prefix(s.drop_last(), k, id);
    } else {
        assert(s.drop_last() =~= s.subrange(0, k - 1));
    }
}

proof fn lemma_first_bar_range(s: Seq<BarModel>, id: u32)
    ensures
        first_bar_with(s, id) matches Some(j) ==> 0 <= j < s.len(),
    decreases s.len(),
{
    if s.len() > 0 {
        lemma_first_bar_range(s.drop_last(), id);
    }
}

impl AllBarSettings {
    /// The index of the first bar with the identifier `id`.
    fn index_of(&self, id: u32) -> (r: Option<usize>)
        ensures
            match first_bar_with(self@, id) {
                Some(i) => r matches Some(x) && x == i,
                None => r is None,
            },
    {
        let mut i: usize = 0;
        proof {
            assert(self@.subrange(0, 0) =~= Seq::<BarModel>::empty());
        }
        while i < self.0.len()
            invariant
                i <= self.0@.len(),
                self@.len() == self.0@.len(),
                first_bar_with(self@.subrange(0, i as int), id) is None,
            decreases self.0@.len() - i,
        {
            proof {
                assert(self@.subrange(0, i + 1).drop_last() =~= self@.subrange(0, i as int));
                assert(self@[i as int] == self.0@[i as int]@);
            }
            if self.0[i].identifier == id {
                proof {
                    lemma_first_bar_prefix(self@, i as int + 1, id);
                }
                return Some(i);
            }
            i = i + 1;
        }
        proof {
            assert(self@.subrange(0, self@.len() as int) =~= self@);
        }
        None
    }

    /// Applies the line `bar_set bar_identifier bar_setting_name values...`. A bar with a
    /// new identifier is created first (and stays even if the setting fails).
    pub fn add(&mut self, bar_identifier: u32, bar_setting_name: String, bar_setting_values: Vec<String>) -> (r: Result<(), Error>)
        requires
            bar_setting_readable(bar_setting_name@, views(bar_setting_values@)),
        ensures
            final(self)@ == bars_add(old(self)@, bar_identifier, bar_setting_name@, views(bar_setting_values@)).0,
            crate::error::result_err_view(r) == bars_add(old(self)@, bar_identifier, bar_setting_name@, views(bar_setting_values@)).1,
    {
        let ghost s0 = self@;
        proof {
            lemma_first_bar_range(s0, bar_identifier);
        }
        let idx = match self.index_of(bar_identifier) {
            Some(i) => i,
            None => {
                self.0.push(BarSettings::new(bar_identifier));
                proof {
                    assert(self@ =~= s0.push(default_bar(bar_identifier)));
                }
                self.0.len() - 1
            },
        };
        let ghost all = self@;
        assert(all[idx as int] == self.0@[idx as int]@);
        let mut bar = self.0.remove(idx);
        let r = bar.apply(bar_setting_name.as_str(), &bar_setting_values);
        self.0.insert(idx, bar);
        proof {
            assert(self@ =~= all.update(idx as int, bar_setting(all[idx as int], bar_setting_name@, views(bar_setting_values@)).0));
        }
        r
    }

    /// The bars, in order.
    pub fn into_inner(self) -> (r: Vec<BarSettings>)
        ensures
            r@.map_values(|b: BarSettings| b@) == self@,
    {
        self.0
    }
}

} // verus!
