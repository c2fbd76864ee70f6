use vstd::prelude::*;

use crate::config::Repr;
use crate::error::Error;
use crate::parsers::views;
use crate::text::{spec_to_lowercase, str_eq, to_lowercase};

verus! {

/// When a hook runs.
#[derive(Debug, Clone, Copy, PartialEq, Eq, Structural)]
pub enum HookType {
    Startup,
    Always,
    After,
}

/// Whether the window manager waits for a hook's command.
#[derive(Debug, Clone, Copy, PartialEq, Eq, Structural)]
pub enum HookOption {
    Sync,
    Async,
}

/// The hook type named by a config word (lowercased first).
pub open spec fn hook_type_named(s: Seq<char>) -> Option<HookType> {
    let l = spec_to_lowercase(s);
    if l == "startup"@ {
        Some(HookType::Startup)
    } else if l == "always"@ {
        Some(HookType::Always)
    } else if l == "after"@ {
        Some(HookType::After)
    } else {
        None
    }
}

/// The hook option named by a config word (lowercased first).
pub open spec fn hook_option_named(s: Seq<char>) -> Option<HookOption> {
    let l = spec_to_lowercase(s);
    if l == "async"@ {
        Some(HookOption::Async)
    } else if l == "sync"@ {
        Some(HookOption::Sync)
    } else {
        None
    }
}

impl HookType {
    /// The hook type named by `value`: `startup`, `always` or `after`, in any case.
    pub fn try_from(value: String) -> (r: Result<HookType, Error>)
        ensures
            match hook_type_named(value@) {
                Some(t) => r == Ok::<HookType, Error>(t),
                None => r matches Err(Error::UnknownHookType(x)) && x@ == value@,
            },
    {
        let lower = to_lowercase(value.as_str());
        let l = lower.as_str();
        if str_eq(l, "startup") {
            Ok(HookType::Startup)
        } else if str_eq(l, "always") {
            Ok(HookType::Always)
        } else if str_eq(l, "after") {
            Ok(HookType::After)
        } else {
            Err(Error::UnknownHookType(value))
        }
    }
}

impl HookOption {
    /// The hook option named by `value`: `sync` or `async`, in any case.
    pub fn try_from(value: String) -> (r: Result<HookOption, Error>)
        ensures
            match hook_option_named(value@) {
                Some(o) => r == Ok::<HookOption, Error>(o),
                None => r matches Err(Error::UnknownHookOption(x)) && x@ == value@,
            },
    {
        let lower = to_lowercase(value.as_str());
        let l = lower.as_str();
        if str_eq(l, "async") {
            Ok(HookOption::Async)
        } else if str_eq(l, "sync") {
            Ok(HookOption::Sync)
        } else {
            Err(Error::UnknownHookOption(value))
        }
    }
}

/// A command run on startup, on every config load, or after startup.
#[derive(Debug, Clone)]
pub struct Hook {
    pub hook_type: HookType,
    pub hook_option: HookOption,
    pub hook_args: Vec<String>,
}

/// A [`Hook`] with its arguments taken as character sequences.
pub struct HookModel {
    pub hook_type: HookType,
    pub hook_option: HookOption,
    pub hook_args: Seq<Seq<char>>,
}

impl View for Hook {
    type V = HookModel;

    open spec fn view(&self) -> HookModel {
        HookModel { hook_type: self.hook_type, hook_option: self.hook_option, hook_args: views(self.hook_args@) }
    }
}

/// The hook that a `hook` config line makes, if its type and option can be read.
pub open spec fn hook_read(hook_type: Seq<char>, hook_args: Seq<Seq<char>>, hook_option: Seq<char>) -> Option<HookModel> {
    match (hook_type_named(hook_type), hook_option_named(hook_option)) {
        (Some(t), Some(o)) => Some(HookModel { hook_type: t, hook_option: o, hook_args }),
        _ => None,
    }
}

/// Does `e` report why a hook line could not be read? The type is read first.
pub open spec fn hook_error_is(e: Error, hook_type: Seq<char>, hook_option: Seq<char>) -> bool {
    if hook_type_named(hook_type) is None {
        e matches Error::UnknownHookType(x) && x@ == hook_type
    } else {
        e matches Error::UnknownHookOption(x) && x@ == hook_option
    }
}

/// The error of a hook line whose type or option cannot be read.
pub open spec fn hook_error_model(hook_type: Seq<char>, hook_option: Seq<char>) -> crate::error::ErrorModel {
    if hook_type_named(hook_type) is None {
        crate::error::ErrorModel::UnknownHookType(hook_type)
    } else {
        crate::error::ErrorModel::UnknownHookOption(hook_option)
    }
}

/// An error that reports a failed hook line is that line's error.
pub proof fn lemma_hook_error_model(e: Error, hook_type: Seq<char>, hook_option: Seq<char>)
    requires
        hook_error_is(e, hook_type, hook_option),
    ensures
        e@ == hook_error_model(hook_type, hook_option),
{
}

impl Hook {
    /// A hook read from its type and option words and its command arguments.
    pub fn new(hook_type: String, hook_args: Vec<String>, hook_option: String) -> (r: Result<Self, Error>)
        ensures
            match hook_read(hook_type@, views(hook_args@), hook_option@) {
                Some(h) => r matches Ok(x) && x@ == h,
                None => r matches Err(e) && hook_error_is(e, hook_type@, hook_option@),
            },
    {
        let t = match HookType::try_from(hook_type) {
            Ok(t) => t,
            Err(e) => return Err(e),
        };
        let o = match HookOption::try_from(hook_option) {
            Ok(o) => o,
            Err(e) => return Err(e),
        };
        Ok(Hook { hook_type: t, hook_args, hook_option: o })
    }
}

/// The hooks of a configuration, in the order of the config file.
#[derive(Debug, Clone)]
pub struct StartHooks(pub Vec<Hook>);

impl View for StartHooks {
    type V = Seq<HookModel>;

    open spec fn view(&self) -> Seq<HookModel> {
        self.0@.map_values(|h: Hook| h@)
    }
}

/// The hooks of `s` that run after startup, in order.
pub open spec fn after_hooks(s: Seq<HookModel>) -> Seq<HookModel>
    decreases s.len(),
{
    if s.len() == 0 {
        seq![]
    } else if s.last().hook_type == HookType::After {
        after_hooks(s.drop_last()).push(s.last())
    } else {
        after_hooks(s.drop_last())
    }
}

impl Default for StartHooks {
    /// No hooks.
    fn default() -> (r: Self)
        ensures
            r@ == Seq::<HookModel>::empty(),
    {
        let r = StartHooks(Vec::new());
        proof {
            assert(r@ =~= Seq::<HookModel>::empty());
        }
        r
    }
}

impl StartHooks {
    /// Adds the hook of a `hook` config line at the end. On an error the hooks stay as
    /// they were.
    pub fn add(&mut self, hook_type: String, hook_args: Vec<String>, hook_option: String) -> (r: Result<(), Error>)
        ensures
            match hook_read(hook_type@, views(hook_args@), hook_option@) {
                Some(h) => r is Ok && final(self)@ == old(self)@.push(h),
                None => r matches Err(e) && hook_error_is(e, hook_type@, hook_option@) && final(self)@ == old(self)@,
            },
    {
        let ghost start = self@;
        let hook = match Hook::new(hook_type, hook_args, hook_option) {
            Ok(h) => h,
            Err(e) => return Err(e),
        };
        self.0.push(hook);
        proof {
            assert(self@ =~= start.push(self.0@.last()@));
        }
        Ok(())
    }

    /// The hooks that run after startup, in order (the ones `run_after` runs).
    pub fn after(&self) -> (r: Vec<Hook>)
        ensures
            r@.map_values(|h: Hook| h@) == after_hooks(self@),
    {
        let mut r: Vec<Hook> = Vec::new();
        let mut i: usize = 0;
        proof {
            assert(self@.subrange(0, 0) =~= Seq::<HookModel>::empty());
            assert(r@.map_values(|h: Hook| h@) =~= Seq::<HookModel>::empty());
        }
        while i < self.0.len()
            invariant
                i <= self.0@.len(),
                self@.len() == self.0@.len(),
                r@.map_values(|h: Hook| h@) == after_hooks(self@.subrange(0, i as int)),
            decreases self.0@.len() - i,
        {
            let ghost before = r@.map_values(|h: Hook| h@);
            proof {
                assert(self@.subrange(0, i + 1).drop_last() =~= self@.subrange(0, i as int));
                assert(self@[i as int] == self.0@[i as int]@);
            }
            let hook = &self.0[i];
            if hook.hook_type == HookType::After {
                let copy = Hook { hook_type: hook.hook_type, hook_option: hook.hook_option, hook_args: clone_strings(&hook.hook_args) };
                r.push(copy);
                proof {
                    assert(r@.map_values(|h: Hook| h@) =~= before.push(hook@));
                }
            }
            i = i + 1;
        }
        proof {
            assert(self@.subrange(0, self@.len() as int) =~= self@);
        }
        r
    }
}

/// A copy of a list of strings.
pub fn clone_strings(v: &Vec<String>) -> (r: Vec<String>)
    ensures
        views(r@) == views(v@),
{
    let mut r: Vec<String> = Vec::new();
    let mut i: usize = 0;
    while i < v.len()
        invariant
            i <= v@.len(),
            r@.len() == i,
            forall|j: int| 0 <= j < i ==> #[trigger] r@[j]@ == v@[j]@,
        decreases v@.len() - i,
    {
        r.push(v[i].clone());
        i = i + 1;
    }
    proof {
        assert(views(r@) =~= views(v@));
    }
    r
}

impl Repr for StartHooks {
    /// The hooks are not written back: the text is a fixed placeholder word.
    fn repr(&self) -> (r: Result<String, Error>)
        ensures
            r matches Ok(s) && s@ == "ahoy"@,
    {
        Ok(String::from_str("ahoy"))
    }
}

} // verus!
