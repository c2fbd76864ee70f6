use vstd::prelude::*;

use crate::config::Repr;
use crate::error::Error;
use crate::numbers::{decimal, parse_uint, parse_usize, push_decimal};
use crate::text::{join_strings, join_with, split_char, split_on, str_eq};

verus! {

/// A direction in which focus or a client moves among the clients of a workspace.
#[derive(Debug, Clone, Copy, PartialEq, Eq, Structural)]
pub enum Direction {
    Next,
    Previous,
}

/// The name of a direction in the config file.
pub open spec fn direction_name(d: Direction) -> Seq<char> {
    match d {
        Direction::Next => "next"@,
        Direction::Previous => "previous"@,
    }
}

/// The direction that a config word names: `next` or `previous`.
pub open spec fn direction_named(s: Seq<char>) -> Option<Direction> {
    if s == "next"@ {
        Some(Direction::Next)
    } else if s == "previous"@ {
        Some(Direction::Previous)
    } else {
        None
    }
}

impl Repr for Direction {
    /// The config word of the direction.
    fn repr(&self) -> (r: Result<String, Error>)
        ensures
            r matches Ok(s) && s@ == direction_name(*self),
    {
        match self {
            Direction::Next => Ok(String::from_str("next")),
            Direction::Previous => Ok(String::from_str("previous")),
        }
    }
}

impl Direction {
    /// The direction named by a config word: `next` or `previous`.
    pub fn try_from_str(s: &str) -> (r: Result<Direction, Error>)
        ensures
            match direction_named(s@) {
                Some(d) => r == Ok::<Direction, Error>(d),
                None => r matches Err(Error::InvalidDirection),
            },
    {
        if str_eq(s, "next") {
            Ok(Direction::Next)
        } else if str_eq(s, "previous") {
            Ok(Direction::Previous)
        } else {
            Err(Error::InvalidDirection)
        }
    }
}

/// Something a keybind makes the window manager do.
#[derive(Debug, Clone, PartialEq, Eq)]
pub enum Action {
    /// A noop, doesn't do anything.
    Noop,
    /// Run a system command.
    Execute(String),
    /// Kill currently focused window.
    Kill,
    /// Switch focus to a workspace, given its ID.
    Goto(usize),
    /// Move currently focused window to a given workspace ID.
    Move(usize),
    /// Shift focus in a direction.
    Focus(Direction),
    /// Apply a different layout to the currently focused workspace.
    ChangeLayout(String),
    /// Cycle layouts for the currently focused workspace.
    CycleLayout,
    /// Toggle the currently focused window in and out of floating.
    ToggleFloat,
    /// Swap two clients.
    Swap(Direction),
    /// Reload a configuration file
    ReloadConfig,
}

/// An [`Action`] with its strings taken as character sequences.
pub enum ActionModel {
    Noop,
    Execute(Seq<char>),
    Kill,
    Goto(usize),
    Move(usize),
    Focus(Direction),
    ChangeLayout(Seq<char>),
    CycleLayout,
    ToggleFloat,
    Swap(Direction),
    ReloadConfig,
}

impl View for Action {
    type V = ActionModel;

    open spec fn view(&self) -> ActionModel {
        match self {
            Action::Noop => ActionModel::Noop,
            Action::Execute(c) => ActionModel::Execute(c@),
            Action::Kill => ActionModel::Kill,
            Action::Goto(n) => ActionModel::Goto(*n),
            Action::Move(n) => ActionModel::Move(*n),
            Action::Focus(d) => ActionModel::Focus(*d),
            Action::ChangeLayout(l) => ActionModel::ChangeLayout(l@),
            Action::CycleLayout => ActionModel::CycleLayout,
            Action::ToggleFloat => ActionModel::ToggleFloat,
            Action::Swap(d) => ActionModel::Swap(*d),
            Action::ReloadConfig => ActionModel::ReloadConfig,
        }
    }
}

/// Why an action string could not be read.
pub enum ActionError {
    /// The string is empty.
    Empty,
    /// More arguments than the action takes.
    ArgumentCount,
    /// The argument is not a number or a direction.
    BadArgument,
    /// The action needs an argument and got none.
    MissingArgument,
    /// The first word names no action.
    Unknown(Seq<char>),
}

/// Does the action named by `word` read its first argument without checking that there is
/// one?
pub open spec fn reads_first_argument(word: Seq<char>) -> bool {
    word == "goto"@ || word == "move"@ || word == "focus"@ || word == "swap"@
}

/// Can `Action::from_str` read `s` without indexing past its words? Empty strings and
/// actions that need no argument always can; `goto`, `move`, `focus` and `swap` need at
/// least one word after their name (the config parser always gives one, maybe empty).
pub open spec fn action_readable(s: Seq<char>) -> bool {
    s.len() == 0 || !reads_first_argument(split_on(s, ' ')[0]) || split_on(s, ' ').len() >= 2
}

/// What an action string means. The string is split at every space; the first piece names
/// the action and the others are its arguments. `execute` (or `exec`) keeps its arguments
/// apart by single spaces, as a command for `/bin/sh -c`; `goto` and `move` take one number, `focus` and `swap` one
/// direction, `change_layout` one layout name.
pub open spec fn parse_action(s: Seq<char>) -> Result<ActionModel, ActionError> {
    let parts = split_on(s, ' ');
    let word = parts[0];
    let rest = parts.drop_first();
    if s.len() == 0 {
        Err(ActionError::Empty)
    } else if word == "noop"@ {
        Ok(ActionModel::Noop)
    } else if word == "execute"@ || word == "exec"@ {
        Ok(ActionModel::Execute(join_with(rest, " "@)))
    } else if word == "kill"@ {
        Ok(ActionModel::Kill)
    } else if word == "goto"@ || word == "move"@ {
        if rest.len() > 1 {
            Err(ActionError::ArgumentCount)
        } else {
            match parse_uint(rest[0], usize::MAX as nat) {
                Ok(n) => if word == "goto"@ {
                    Ok(ActionModel::Goto(n as usize))
                } else {
                    Ok(ActionModel::Move(n as usize))
                },
                Err(_) => Err(ActionError::BadArgument),
            }
        }
    } else if word == "focus"@ || word == "swap"@ {
        if rest.len() > 1 {
            Err(ActionError::ArgumentCount)
        } else {
            match direction_named(rest[0]) {
                Some(d) => if word == "focus"@ {
                    Ok(ActionModel::Focus(d))
                } else {
                    Ok(ActionModel::Swap(d))
                },
                None => Err(ActionError::BadArgument),
            }
        }
    } else if word == "change_layout"@ {
        if rest.len() == 0 {
            Err(ActionError::MissingArgument)
        } else if rest.len() > 1 {
            Err(ActionError::ArgumentCount)
        } else {
            Ok(ActionModel::ChangeLayout(rest[0]))
        }
    } else if word == "cycle_layout"@ {
        Ok(ActionModel::CycleLayout)
    } else if word == "toggle_float"@ {
        Ok(ActionModel::ToggleFloat)
    } else if word == "reload_config"@ {
        Ok(ActionModel::ReloadConfig)
    } else {
        Err(ActionError::Unknown(word))
    }
}

/// Does the library's error `e` report the reading failure `k` of the action string `s`?
pub open spec fn action_error_is(e: Error, k: ActionError, s: Seq<char>) -> bool {
    match k {
        ActionError::Empty => e matches Error::EmptyAction,
        ActionError::ArgumentCount => e matches Error::ActionArgumentCount(x) && x@ == s,
        ActionError::BadArgument => e matches Error::BadActionArgument(x) && x@ == s,
        ActionError::MissingArgument => e matches Error::MissingActionArgument(x) && x@ == s,
        ActionError::Unknown(w) => e matches Error::UnknownAction(x) && x@ == w,
    }
}

/// The error that reports the reading failure `k` of the action string `s`.
pub open spec fn action_error_model(k: ActionError, s: Seq<char>) -> crate::error::ErrorModel {
    match k {
        ActionError::Empty => crate::error::ErrorModel::EmptyAction,
        ActionError::ArgumentCount => crate::error::ErrorModel::ActionArgumentCount(s),
        ActionError::BadArgument => crate::error::ErrorModel::BadActionArgument(s),
        ActionError::MissingArgument => crate::error::ErrorModel::MissingActionArgument(s),
        ActionError::Unknown(w) => crate::error::ErrorModel::UnknownAction(w),
    }
}

/// An error that reports a failure is the error of that failure.
pub proof fn lemma_action_error_model(e: Error, k: ActionError, s: Seq<char>)
    requires
        action_error_is(e, k, s),
    ensures
        e@ == action_error_model(k, s),
{
}

/// Does `r` report what `parse_action(s)` says?
pub open spec fn action_result_is(r: Result<Action, Error>, s: Seq<char>) -> bool {
    match parse_action(s) {
        Ok(m) => r matches Ok(a) && a@ == m,
        Err(k) => r matches Err(e) && action_error_is(e, k, s),
    }
}

impl Action {
    /// Reads an action from its config text, such as `goto 3` or `focus next`.
    pub fn from_str(s: String) -> (r: Result<Action, Error>)
        requires
            action_readable(s@),
        ensures
            action_result_is(r, s@),
    {
        if s.as_str().is_empty() {
            return Err(Error::EmptyAction);
        }
        let parts = split_char(s.as_str(), ' ');
        let ghost pv = crate::parsers::views(parts@);
        assert(pv.len() == parts@.len());
        assert(split_on(s@, ' ').len() >= 1);
        assert(pv[0] == parts@[0]@);
        let word = parts[0].as_str();
        let n = parts.len();
        if str_eq(word, "noop") {
            Ok(Action::Noop)
        } else if str_eq(word, "execute") || str_eq(word, "exec") {
            let mut rest: Vec<String> = Vec::new();
            let mut i: usize = 1;
            proof {
                assert(pv.subrange(1, 1) =~= Seq::<Seq<char>>::empty());
                assert(crate::parsers::views(rest@) =~= Seq::<Seq<char>>::empty());
            }
            while i < n
                invariant
                    n == parts@.len(),
                    pv == crate::parsers::views(parts@),
                    1 <= i <= n,
                    crate::parsers::views(rest@) == pv.subrange(1, i as int),
                decreases n - i,
            {
                let ghost before = rest@;
                rest.push(parts[i].clone());
                proof {
                    assert(crate::parsers::views(rest@) =~= crate::parsers::views(before).push(pv[i as int]));
                    assert(pv.subrange(1, i + 1) =~= pv.subrange(1, i as int).push(pv[i as int]));
                }
                i = i + 1;
            }
            proof {
                assert(pv.subrange(1, n as int) =~= pv.drop_first());
            }
            let buff = join_strings(&rest, " ");
            Ok(Action::Execute(buff))
        } else if str_eq(word, "kill") {
            Ok(Action::Kill)
        } else if str_eq(word, "goto") || str_eq(word, "move") {
            if n > 2 {
                return Err(Error::ActionArgumentCount(s.clone()));
            }
            assert(pv[1] == parts@[1]@);
            match parse_usize(parts[1].as_str()) {
                Ok(v) => if str_eq(word, "goto") {
                    Ok(Action::Goto(v))
                } else {
                    Ok(Action::Move(v))
                },
                Err(_) => Err(Error::BadActionArgument(s.clone())),
            }
        } else if str_eq(word, "focus") || str_eq(word, "swap") {
            if n > 2 {
                return Err(Error::ActionArgumentCount(s.clone()));
            }
            assert(pv[1] == parts@[1]@);
            match Direction::try_from_str(parts[1].as_str()) {
                Ok(d) => if str_eq(word, "focus") {
                    Ok(Action::Focus(d))
                } else {
                    Ok(Action::Swap(d))
                },
                Err(_) => Err(Error::BadActionArgument(s.clone())),
            }
        } else if str_eq(word, "change_layout") {
            if n < 2 {
                Err(Error::MissingActionArgument(s.clone()))
            } else if n > 2 {
                Err(Error::ActionArgumentCount(s.clone()))
            } else {
                assert(pv[1] == parts@[1]@);
                Ok(Action::ChangeLayout(parts[1].clone()))
            }
        } else if str_eq(word, "cycle_layout") {
            Ok(Action::CycleLayout)
        } else if str_eq(word, "toggle_float") {
            Ok(Action::ToggleFloat)
        } else if str_eq(word, "reload_config") {
            Ok(Action::ReloadConfig)
        } else {
            Err(Error::UnknownAction(parts[0].clone()))
        }
    }

    /// A copy of the action.
    pub fn duplicate(&self) -> (r: Action)
        ensures
            r@ == self@,
    {
        match self {
            Action::Noop => Action::Noop,
            Action::Execute(c) => Action::Execute(c.clone()),
            Action::Kill => Action::Kill,
            Action::Goto(n) => Action::Goto(*n),
            Action::Move(n) => Action::Move(*n),
            Action::Focus(d) => Action::Focus(*d),
            Action::ChangeLayout(l) => Action::ChangeLayout(l.clone()),
            Action::CycleLayout => Action::CycleLayout,
            Action::ToggleFloat => Action::ToggleFloat,
            Action::Swap(d) => Action::Swap(*d),
            Action::ReloadConfig => Action::ReloadConfig,
        }
    }

    /// Are two actions the same action with the same arguments?
    pub fn same_as(&self, other: &Action) -> (r: bool)
        ensures
            r == (self@ == other@),
    {
        match (self, other) {
            (Action::Noop, Action::Noop) => true,
            (Action::Execute(a), Action::Execute(b)) => str_eq(a.as_str(), b.as_str()),
            (Action::Kill, Action::Kill) => true,
            (Action::Goto(a), Action::Goto(b)) => *a == *b,
            (Action::Move(a), Action::Move(b)) => *a == *b,
            (Action::Focus(a), Action::Focus(b)) => *a == *b,
            (Action::ChangeLayout(a), Action::ChangeLayout(b)) => str_eq(a.as_str(), b.as_str()),
            (Action::CycleLayout, Action::CycleLayout) => true,
            (Action::ToggleFloat, Action::ToggleFloat) => true,
            (Action::Swap(a), Action::Swap(b)) => *a == *b,
            (Action::ReloadConfig, Action::ReloadConfig) => true,
            _ => false,
        }
    }
}

/// The config text of an action: its name, then its argument after a space.
pub open spec fn action_text(a: ActionModel) -> Seq<char> {
    match a {
        ActionModel::Goto(n) => "goto "@ + decimal(n as nat),
        ActionModel::Noop => "noop"@,
        ActionModel::Kill => "kill"@,
        ActionModel::Execute(c) => "execute "@ + c,
        ActionModel::Move(n) => "move "@ + decimal(n as nat),
        ActionModel::Focus(d) => "focus "@ + direction_name(d),
        ActionModel::ToggleFloat => "toggle_float"@,
        ActionModel::CycleLayout => "cycle_layout"@,
        ActionModel::ChangeLayout(l) => "change_layout "@ + l,
        ActionModel::Swap(d) => "swap "@ + direction_name(d),
        ActionModel::ReloadConfig => "reload_config"@,
    }
}

impl Repr for Action {
    /// The config text of the action.
    fn repr(&self) -> (r: Result<String, Error>)
        ensures
            r matches Ok(s) && s@ == action_text(self@),
    {
        match self {
            Action::Goto(n) => {
                let mut s = String::from_str("goto ");
                push_decimal(&mut s, *n as u64);
                Ok(s)
            },
            Action::Noop => Ok(String::from_str("noop")),
            Action::Kill => Ok(String::from_str("kill")),
            Action::Execute(c) => {
                let mut s = String::from_str("execute ");
                s.append(c.as_str());
                Ok(s)
            },
            Action::Move(n) => {
                let mut s = String::from_str("move ");
                push_decimal(&mut s, *n as u64);
                Ok(s)
            },
            Action::Focus(d) => {
                let mut s = String::from_str("focus ");
                let name = d.repr();
                match name {
                    Ok(x) => s.append(x.as_str()),
                    Err(e) => return Err(e),
                }
                Ok(s)
            },
            Action::ToggleFloat => Ok(String::from_str("toggle_float")),
            Action::CycleLayout => Ok(String::from_str("cycle_layout")),
            Action::ChangeLayout(l) => {
                let mut s = String::from_str("change_layout ");
                s.append(l.as_str());
                Ok(s)
            },
            Action::Swap(d) => {
                let mut s = String::from_str("swap ");
                let name = d.repr();
                match name {
                    Ok(x) => s.append(x.as_str()),
                    Err(e) => return Err(e),
                }
                Ok(s)
            },
            Action::ReloadConfig => Ok(String::from_str("reload_config")),
        }
    }
}

} // verus!
