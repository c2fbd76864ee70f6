use vstd::prelude::*;

use crate::wm::container::ContainerId;

verus! {
/// Why an integer could not be read from a string.
#[derive(Debug, Clone, Copy, PartialEq, Eq, Structural)]
pub enum IntErrorKind {
    /// The string is empty.
    Empty,
    /// The string holds a character that is not a digit.
    InvalidDigit,
    /// The number does not fit the integer type.
    PosOverflow,
}

/// Everything that can go wrong in the library. Each variant carries the values that
/// its message names.
#[derive(Debug, Clone)]
pub enum Error {
    /// A boolean value was neither `true` nor `false`.
    ParseBool,
    /// An integer value could not be read.
    ParseInt(IntErrorKind),
    /// Swapping containers: the id does not belong to the list.
    WrongContainerId(ContainerId),
    /// Looking up a container by id failed.
    ContainerNotFound(ContainerId),
    /// Removing a container by id failed.
    UnableToRemove(ContainerId),
    /// No container holds a client with this window id.
    NoContainerForWindow(u32),
    /// No container holds a client with this process id.
    NoContainerForProcess(u32),
    /// There is no neighbouring container to go to.
    NoNeighbourContainer,
    /// An empty container cannot be put into the layout.
    ChangeToLayout,
    /// An empty container cannot float.
    ChangeToFloating,
    /// Not a container type name (`in_layout` or `float`).
    InvalidContainerType(String),
    /// No layout has this mask bit.
    InvalidLayoutId(u64),
    /// Not the name of a layout.
    UnknownLayout(String),
    /// The workspace allows no layout at all.
    NoLayouts,
    /// No client with this window id is in the workspace.
    NoClientToRemove(u32),
    /// The monitor shows no workspace.
    NoOpenWorkspace,
    /// The workspace is not placed on the monitor.
    WorkspaceNotOnMonitor,
    /// No workspace is placed on the monitor.
    MonitorWithoutWorkspaces,
    /// Not the name of a key.
    UnknownKey(String),
    /// A `<` inside a `<...>` block of a key list (the whole key list is kept).
    NestedSpecialKey(String),
    /// Not a direction (`next` or `previous`).
    InvalidDirection,
    /// An action string is empty.
    EmptyAction,
    /// An action got more arguments than it takes (the whole action string is kept).
    ActionArgumentCount(String),
    /// An action argument is not a number or a direction (the whole action string is kept).
    BadActionArgument(String),
    /// An action that needs an argument got none (the whole action string is kept).
    MissingActionArgument(String),
    /// Not the name of an action.
    UnknownAction(String),
    /// Not the name of a setting.
    UnknownOption(String),
    /// A setting got a value it does not take (setting name, value).
    BadOptionValue(String, String),
    /// Not a hook type (`startup`, `always` or `after`).
    UnknownHookType(String),
    /// Not a hook option (`sync` or `async`).
    UnknownHookOption(String),
    /// No workspace settings with this identifier.
    NoSuchWorkspace(u32),
    /// Not the name of a workspace setting.
    UnknownWorkspaceSetting(String),
    /// `segment add` without a segment type.
    MissingSegmentType,
    /// `segment add` without a segment name (the segment type is kept).
    MissingSegmentName(String),
    /// Not a bar segment type.
    UnknownSegmentType(String),
    /// No bar segment has this name (adding a widget).
    WidgetSegmentNotFound(String),
    /// No bar segment has this name (setting a workspace segment).
    WorkspaceSegmentNotFound(String),
    /// No bar segment has this name (setting a title segment).
    TitleSegmentNotFound(String),
    /// A bar setting key has no value after it (the key is kept).
    MissingValue(String),
    /// A color value does not start with `#` (value, key).
    NotAColor(String, String),
    /// A title segment color does not start with `#`.
    BadTitleColor(String),
    /// A bar background color does not start with `#`.
    BadBarColor(String),
    /// Not the name of a bar setting.
    UnknownBarSetting(String),
    /// A config line starts with no known keyword.
    BadConfigLine,
    /// A format string has a `{` without its `}` (the format string is kept).
    MissingClosingBrace(String),
    /// Not a segment position (`left`, `middle` or `right`).
    InvalidPosition(String),
    /// The bar was made without settings.
    NoBarSettings,
    /// The bar has no window yet.
    NoBarWindow,
    /// The bar's geometry is not known yet.
    NoBarGeometry,
    /// The X display has no monitors.
    NoMonitors,
    /// The workspace is not placed on any monitor.
    WorkspaceOnNoMonitor,
    /// No workspace has this id.
    NoWorkspaceWithId(u32),
    /// The focused workspace could not be found.
    FocusedWorkspaceMissing,
    /// No client has the focus.
    NoFocusedClient,
    /// No workspace holds this window.
    NoWorkspaceForWindow(u32),
    /// The pointer is on no monitor that shows a workspace.
    CursorOutsideWorkspaces,
    /// A workspace asks for a monitor index that no monitor has.
    NoMonitorWithIndex(String),
    /// The X server gave no atom (0) for this name.
    AtomNone(String),
    /// Client messages carry data in 8, 16 or 32 bit units only.
    InvalidMessageFormat(u8),
    /// A font description holds a property other than `slant` and `weight`.
    InvalidFontProperty(String),
    /// A color does not start with `#`.
    InvalidColor(String),
    /// Bytes that are not valid UTF-8.
    InvalidUtf8,
    /// Window properties are read in 8, 16 or 32 bit units only.
    InvalidPropertyFormat(u8),
}

/// An [`Error`] with its strings taken as character sequences.
pub enum ErrorModel {
    ParseBool,
    ParseInt(IntErrorKind),
    WrongContainerId(ContainerId),
    ContainerNotFound(ContainerId),
    UnableToRemove(ContainerId),
    NoContainerForWindow(u32),
    NoContainerForProcess(u32),
    NoNeighbourContainer,
    ChangeToLayout,
    ChangeToFloating,
    InvalidContainerType(Seq<char>),
    InvalidLayoutId(u64),
    UnknownLayout(Seq<char>),
    NoLayouts,
    NoClientToRemove(u32),
    NoOpenWorkspace,
    WorkspaceNotOnMonitor,
    MonitorWithoutWorkspaces,
    UnknownKey(Seq<char>),
    NestedSpecialKey(Seq<char>),
    InvalidDirection,
    EmptyAction,
    ActionArgumentCount(Seq<char>),
    BadActionArgument(Seq<char>),
    MissingActionArgument(Seq<char>),
    UnknownAction(Seq<char>),
    UnknownOption(Seq<char>),
    BadOptionValue(Seq<char>, Seq<char>),
    UnknownHookType(Seq<char>),
    UnknownHookOption(Seq<char>),
    NoSuchWorkspace(u32),
    UnknownWorkspaceSetting(Seq<char>),
    MissingSegmentType,
    MissingSegmentName(Seq<char>),
    UnknownSegmentType(Seq<char>),
    WidgetSegmentNotFound(Seq<char>),
    WorkspaceSegmentNotFound(Seq<char>),
    TitleSegmentNotFound(Seq<char>),
    MissingValue(Seq<char>),
    NotAColor(Seq<char>, Seq<char>),
    BadTitleColor(Seq<char>),
    BadBarColor(Seq<char>),
    UnknownBarSetting(Seq<char>),
    BadConfigLine,
    MissingClosingBrace(Seq<char>),
    InvalidPosition(Seq<char>),
    NoBarSettings,
    NoBarWindow,
    NoBarGeometry,
    NoMonitors,
    WorkspaceOnNoMonitor,
    NoWorkspaceWithId(u32),
    FocusedWorkspaceMissing,
    NoFocusedClient,
    NoWorkspaceForWindow(u32),
    CursorOutsideWorkspaces,
    NoMonitorWithIndex(Seq<char>),
    AtomNone(Seq<char>),
    InvalidMessageFormat(u8),
    InvalidFontProperty(Seq<char>),
    InvalidColor(Seq<char>),
    InvalidUtf8,
    InvalidPropertyFormat(u8),
}

impl View for Error {
    type V = ErrorModel;

    open spec fn view(&self) -> ErrorModel {
        match self {
            Error::ParseBool => ErrorModel::ParseBool,
            Error::ParseInt(a0) => ErrorModel::ParseInt(*a0),
            Error::WrongContainerId(a0) => ErrorModel::WrongContainerId(*a0),
            Error::ContainerNotFound(a0) => ErrorModel::ContainerNotFound(*a0),
            Error::UnableToRemove(a0) => ErrorModel::UnableToRemove(*a0),
            Error::NoContainerForWindow(a0) => ErrorModel::NoContainerForWindow(*a0),
            Error::NoContainerForProcess(a0) => ErrorModel::NoContainerForProcess(*a0),
            Error::NoNeighbourContainer => ErrorModel::NoNeighbourContainer,
            Error::ChangeToLayout => ErrorModel::ChangeToLayout,
            Error::ChangeToFloating => ErrorModel::ChangeToFloating,
            Error::InvalidContainerType(a0) => ErrorModel::InvalidContainerType(a0@),
            Error::InvalidLayoutId(a0) => ErrorModel::InvalidLayoutId(*a0),
            Error::UnknownLayout(a0) => ErrorModel::UnknownLayout(a0@),
            Error::NoLayouts => ErrorModel::NoLayouts,
            Error::NoClientToRemove(a0) => ErrorModel::NoClientToRemove(*a0),
            Error::NoOpenWorkspace => ErrorModel::NoOpenWorkspace,
            Error::WorkspaceNotOnMonitor => ErrorModel::WorkspaceNotOnMonitor,
            Error::MonitorWithoutWorkspaces => ErrorModel::MonitorWithoutWorkspaces,
            Error::UnknownKey(a0) => ErrorModel::UnknownKey(a0@),
            Error::NestedSpecialKey(a0) => ErrorModel::NestedSpecialKey(a0@),
            Error::InvalidDirection => ErrorModel::InvalidDirection,
            Error::EmptyAction => ErrorModel::EmptyAction,
            Error::ActionArgumentCount(a0) => ErrorModel::ActionArgumentCount(a0@),
            Error::BadActionArgument(a0) => ErrorModel::BadActionArgument(a0@),
            Error::MissingActionArgument(a0) => ErrorModel::MissingActionArgument(a0@),
            Error::UnknownAction(a0) => ErrorModel::UnknownAction(a0@),
            Error::UnknownOption(a0) => ErrorModel::UnknownOption(a0@),
            Error::BadOptionValue(a0, a1) => ErrorModel::BadOptionValue(a0@, a1@),
            Error::UnknownHookType(a0) => ErrorModel::UnknownHookType(a0@),
            Error::UnknownHookOption(a0) => ErrorModel::UnknownHookOption(a0@),
            Error::NoSuchWorkspace(a0) => ErrorModel::NoSuchWorkspace(*a0),
            Error::UnknownWorkspaceSetting(a0) => ErrorModel::UnknownWorkspaceSetting(a0@),
            Error::MissingSegmentType => ErrorModel::MissingSegmentType,
            Error::MissingSegmentName(a0) => ErrorModel::MissingSegmentName(a0@),
            Error::UnknownSegmentType(a0) => ErrorModel::UnknownSegmentType(a0@),
            Error::WidgetSegmentNotFound(a0) => ErrorModel::WidgetSegmentNotFound(a0@),
            Error::WorkspaceSegmentNotFound(a0) => ErrorModel::WorkspaceSegmentNotFound(a0@),
            Error::TitleSegmentNotFound(a0) => ErrorModel::TitleSegmentNotFound(a0@),
            Error::MissingValue(a0) => ErrorModel::MissingValue(a0@),
            Error::NotAColor(a0, a1) => ErrorModel::NotAColor(a0@, a1@),
            Error::BadTitleColor(a0) => ErrorModel::BadTitleColor(a0@),
            Error::BadBarColor(a0) => ErrorModel::BadBarColor(a0@),
            Error::UnknownBarSetting(a0) => ErrorModel::UnknownBarSetting(a0@),
            Error::BadConfigLine => ErrorModel::BadConfigLine,
            Error::MissingClosingBrace(a0) => ErrorModel::MissingClosingBrace(a0@),
            Error::InvalidPosition(a0) => ErrorModel::InvalidPosition(a0@),
            Error::NoBarSettings => ErrorModel::NoBarSettings,
            Error::NoBarWindow => ErrorModel::NoBarWindow,
            Error::NoBarGeometry => ErrorModel::NoBarGeometry,
            Error::NoMonitors => ErrorModel::NoMonitors,
            Error::WorkspaceOnNoMonitor => ErrorModel::WorkspaceOnNoMonitor,
            Error::NoWorkspaceWithId(a0) => ErrorModel::NoWorkspaceWithId(*a0),
            Error::FocusedWorkspaceMissing => ErrorModel::FocusedWorkspaceMissing,
            Error::NoFocusedClient => ErrorModel::NoFocusedClient,
            Error::NoWorkspaceForWindow(a0) => ErrorModel::NoWorkspaceForWindow(*a0),
            Error::CursorOutsideWorkspaces => ErrorModel::CursorOutsideWorkspaces,
            Error::NoMonitorWithIndex(a0) => ErrorModel::NoMonitorWithIndex(a0@),
            Error::AtomNone(a0) => ErrorModel::AtomNone(a0@),
            Error::InvalidMessageFormat(a0) => ErrorModel::InvalidMessageFormat(*a0),
            Error::InvalidFontProperty(a0) => ErrorModel::InvalidFontProperty(a0@),
            Error::InvalidColor(a0) => ErrorModel::InvalidColor(a0@),
            Error::InvalidUtf8 => ErrorModel::InvalidUtf8,
            Error::InvalidPropertyFormat(a0) => ErrorModel::InvalidPropertyFormat(*a0),
        }
    }
}

/// A result whose error is taken by its view and whose value is kept as it is.
pub open spec fn result_err_view<T>(r: Result<T, Error>) -> Result<T, ErrorModel> {
    match r {
        Ok(v) => Ok(v),
        Err(e) => Err(e@),
    }
}

} // verus!
