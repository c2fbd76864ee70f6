use vstd::prelude::*;

use crate::config::start_hooks::clone_strings;
use crate::config::Repr;
use crate::error::Error;
use crate::numbers::{decimal, decimal_string};
use crate::parsers::views;
use crate::text::str_eq;

verus! {

/// Settings of one workspace.
#[derive(Clone, Debug)]
pub struct WorkspaceSettings {
    pub identifier: u32,
    pub name: String,
    pub allowed_layouts: Vec<String>,
    pub monitor: String,
    pub default_container_type: String,
}

/// [`WorkspaceSettings`] with its strings taken as character sequences.
pub struct WorkspaceSettingsModel {
    pub identifier: u32,
    pub name: Seq<char>,
    pub allowed_layouts: Seq<Seq<char>>,
    pub monitor: Seq<char>,
    pub default_container_type: Seq<char>,
}

impl View for WorkspaceSettings {
    type V = WorkspaceSettingsModel;

    open spec fn view(&self) -> WorkspaceSettingsModel {
        WorkspaceSettingsModel {
            identifier: self.identifier,
            name: self.name@,
            allowed_layouts: views(self.allowed_layouts@),
            monitor: self.monitor@,
            default_container_type: self.default_container_type@,
        }
    }
}

/// The settings of a workspace that no config line has changed: named by its identifier,
/// on no particular monitor, all layouts allowed, windows put into the layout.
pub open spec fn default_workspace_settings(identifier: u32) -> WorkspaceSettingsModel {
    WorkspaceSettingsModel {
        identifier,
        name: decimal(identifier as nat),
        monitor: ""@,
        allowed_layouts: seq!["all"@],
        default_container_type: "in_layout"@,
    }
}

impl WorkspaceSettings {
    /// The default settings of the workspace `identifier`.
    pub fn new(identifier: u32) -> (r: Self)
        ensures
            r@ == default_workspace_settings(identifier),
    {
        let r = WorkspaceSettings {
            identifier,
            name: decimal_string(identifier as u64),
            monitor: String::from_str(""),
            allowed_layouts: vec![String::from_str("all")],
            default_container_type: String::from_str("in_layout"),
        };
        proof {
            assert(views(r.allowed_layouts@) =~= seq!["all"@]);
        }
        r
    }

    /// A copy of the settings.
    pub fn duplicate(&self) -> (r: Self)
        ensures
            r@ == self@,
    {
        WorkspaceSettings {
            identifier: self.identifier,
            name: self.name.clone(),
            allowed_layouts: clone_strings(&self.allowed_layouts),
            monitor: self.monitor.clone(),
            default_container_type: self.default_container_type.clone(),
        }
    }

    /// Sets the name.
    pub fn with_name(&mut self, name: String)
        ensures
            final(self)@ == (WorkspaceSettingsModel { name: name@, ..old(self)@ }),
    {
        self.name = name;
    }

    /// Sets the allowed layouts.
    pub fn with_allowed_layouts(&mut self, allowed_layouts: Vec<String>)
        ensures
            final(self)@ == (WorkspaceSettingsModel { allowed_layouts: views(allowed_layouts@), ..old(self)@ }),
    {
        self.allowed_layouts = allowed_layouts;
    }

    /// Sets the monitor.
    pub fn with_monitor(&mut self, output: String)
        ensures
            final(self)@ == (WorkspaceSettingsModel { monitor: output@, ..old(self)@ }),
    {
        self.monitor = output;
    }

    /// Sets the type of new containers.
    pub fn with_default_container_type(&mut self, default_container_type: String)
        ensures
            final(self)@ == (WorkspaceSettingsModel { default_container_type: default_container_type@, ..old(self)@ }),
    {
        self.default_container_type = default_container_type;
    }
}

/// The settings of all workspaces.
#[derive(Debug, Clone)]
pub struct AllWorkspaceSettings(pub Vec<WorkspaceSettings>);

impl View for AllWorkspaceSettings {
    type V = Seq<WorkspaceSettingsModel>;

    open spec fn view(&self) -> Seq<WorkspaceSettingsModel> {
        self.0@.map_values(|w: WorkspaceSettings| w@)
    }
}

/// The default settings of the workspaces 1 to 10.
pub open spec fn default_all_workspaces() -> Seq<WorkspaceSettingsModel> {
    Seq::new(10, |i: int| default_workspace_settings((i + 1) as u32))
}

impl Default for AllWorkspaceSettings {
    /// Ten workspaces, with the identifiers 1 to 10, in that order.
    fn default() -> (r: Self)
        ensures
            r@ == default_all_workspaces(),
    {
        let mut ret: Vec<WorkspaceSettings> = Vec::new();
        let mut i: u32 = 1;
        while i < 11
            invariant
                1 <= i <= 11,
                ret@.len() == i - 1,
                forall|j: int| 0 <= j < ret@.len() ==> #[trigger] ret@[j]@ == default_workspace_settings((j + 1) as u32),
            decreases 11 - i,
        {
            ret.push(WorkspaceSettings::new(i));
            i = i + 1;
        }
        let r = AllWorkspaceSettings(ret);
        proof {
            assert(r@ =~= default_all_workspaces());
        }
        r
    }
}

impl Repr for AllWorkspaceSettings {
    /// The workspace settings are not written back: the text is a fixed placeholder word.
    fn repr(&self) -> (r: Result<String, Error>)
        ensures
            r matches Ok(s) && s@ == "self"@,
    {
        Ok(String::from_str("self"))
    }
}

/// The first workspace of `s` with the identifier `id`.
pub open spec fn first_with_identifier(s: Seq<WorkspaceSettingsModel>, id: u32) -> Option<int>
    decreases s.len(),
{
    if s.len() == 0 {
        None
    } else {
        match first_with_identifier(s.drop_last(), id) {
            Some(i) => Some(i),
            None => if s.last().identifier == id {
                Some(s.len() - 1)
            } else {
                None
            },
        }
    }
}

/// Does the workspace setting `name` read its first value?
pub open spec fn takes_one_value(name: Seq<char>) -> bool {
    name == "name"@ || name == "monitor"@ || name == "default_container_type"@
}

/// Can `add` read its values without indexing past them? A setting that takes one value
/// needs one when the workspace exists.
pub open spec fn workspace_add_readable(s: Seq<WorkspaceSettingsModel>, id: u32, name: Seq<char>, value: Seq<Seq<char>>) -> bool {
    first_with_identifier(s, id) is None || !takes_one_value(name) || value.len() >= 1
}

/// Why a workspace setting could not be applied.
pub enum WorkspaceSettingError {
    /// No workspace has the identifier.
    NoWorkspace,
    /// No workspace setting has the name.
    Unknown,
}

/// The workspace settings after the line `workspace_set id name values...`.
pub open spec fn workspace_add(s: Seq<WorkspaceSettingsModel>, id: u32, name: Seq<char>, value: Seq<Seq<char>>) -> Result<Seq<WorkspaceSettingsModel>, WorkspaceSettingError> {
    match first_with_identifier(s, id) {
        None => Err(WorkspaceSettingError::NoWorkspace),
        Some(i) => {
            let w = s[i];
            if name == "name"@ {
                Ok(s.update(i, WorkspaceSettingsModel { name: value[0], ..w }))
            } else if name == "monitor"@ {
                Ok(s.update(i, WorkspaceSettingsModel { monitor: value[0], ..w }))
            } else if name == "allowed_layouts"@ {
                Ok(s.update(i, WorkspaceSettingsModel { allowed_layouts: value, ..w }))
            } else if name == "default_container_type"@ {
                Ok(s.update(i, WorkspaceSettingsModel { default_container_type: value[0], ..w }))
            } else {
                Err(WorkspaceSettingError::Unknown)
            }
        },
    }
}

/// The workspace that `first_with_identifier` finds is one of the list and has the identifier.
pub proof fn lemma_first_with_identifier(s: Seq<WorkspaceSettingsModel>, id: u32)
    ensures
        first_with_identifier(s, id) matches Some(i) ==> 0 <= i < s.len() && s[i].identifier == id,
    decreases s.len(),
{
    if s.len() > 0 {
        lemma_first_with_identifier(s.drop_last(), id);
    }
}

impl AllWorkspaceSettings {
    /// The index of the first workspace with the identifier `id`.
    fn index_of(&self, id: u32) -> (r: Option<usize>)
        ensures
            match first_with_identifier(self@, id) {
                Some(i) => r matches Some(x) && x == i,
                None => r is None,
            },
    {
        let mut i: usize = 0;
        proof {
            assert(self@.subrange(0, 0) =~= Seq::<WorkspaceSettingsModel>::empty());
        }
        while i < self.0.len()
            invariant
                i <= self.0@.len(),
                self@.len() == self.0@.len(),
                first_with_identifier(self@.subrange(0, i as int), id) is None,
            decreases self.0@.len() - i,
        {
            proof {
                assert(self@.subrange(0, i + 1).drop_last() =~= self@.subrange(0, i as int));
                assert(self@[i as int] == self.0@[i as int]@);
            }
            if self.0[i].identifier == id {
                proof {
                    lemma_first_prefix(self@, i as int + 1, id);
                }
                return Some(i);
            }
            i = i + 1;
        }
        proof {
            assert(self@.subrange(0, self@.len() as int) =~= self@);
        }
        None
    }

    /// Applies the line `workspace_set identifier name values...`: `name`, `monitor` and
    /// `default_container_type` take the first value, `allowed_layouts` takes them all.
    /// On an error the settings stay as they were.
    pub fn add(&mut self, identifier: u32, name: String, value: Vec<String>) -> (r: Result<(), Error>)
        requires
            workspace_add_readable(old(self)@, identifier, name@, views(value@)),
        ensures
            match workspace_add(old(self)@, identifier, name@, views(value@)) {
                Ok(s) => r is Ok && final(self)@ == s,
                Err(WorkspaceSettingError::NoWorkspace) => r matches Err(Error::NoSuchWorkspace(x)) && x == identifier && final(self)@ == old(self)@,
                Err(WorkspaceSettingError::Unknown) => r matches Err(Error::UnknownWorkspaceSetting(x)) && x@ == name@ && final(self)@ == old(self)@,
            },
    {
        let ghost s = self@;
        let ghost vv = views(value@);
        proof {
            lemma_first_with_identifier(s, identifier);
        }
        let i = match self.index_of(identifier) {
            Some(i) => i,
            None => return Err(Error::NoSuchWorkspace(identifier)),
        };
        let n = name.as_str();
        let mut workspace = self.0[i].duplicate();
        assert(workspace@ == s[i as int]);
        if str_eq(n, "name") {
            assert(vv[0] == value@[0]@);
            workspace.with_name(value[0].clone());
        } else if str_eq(n, "monitor") {
            assert(vv[0] == value@[0]@);
            workspace.with_monitor(value[0].clone());
        } else if str_eq(n, "allowed_layouts") {
            workspace.with_allowed_layouts(value);
        } else if str_eq(n, "default_container_type") {
            assert(vv[0] == value@[0]@);
            workspace.with_default_container_type(value[0].clone());
        } else {
            return Err(Error::UnknownWorkspaceSetting(name));
        }
        self.0.set(i, workspace);
        proof {
            assert(self@ =~= workspace_add(s, identifier, name@, vv)->Ok_0);
        }
        Ok(())
    }

    /// Can the line `workspace_set identifier name values...` be applied without reading
    /// past its values?
    pub fn can_add(&self, identifier: u32, name: &str, value: &Vec<String>) -> (r: bool)
        ensures
            r == workspace_add_readable(self@, identifier, name@, views(value@)),
    {
        if self.index_of(identifier).is_none() {
            return true;
        }
        let takes_one = str_eq(name, "name") || str_eq(name, "monitor") || str_eq(name, "default_container_type");
        !takes_one || value.len() >= 1
    }

    /// The settings of the workspaces, in order.
    pub fn into_inner(self) -> (r: Vec<WorkspaceSettings>)
        ensures
            r@.map_values(|w: WorkspaceSettings| w@) == self@,
    {
        self.0
    }
}

/// The first workspace with identifier `id` among the first `k` is at `k - 1` when no
/// earlier one has it.
proof fn lemma_first_prefix(s: Seq<WorkspaceSettingsModel>, k: int, id: u32)
    requires
        0 < k <= s.len(),
        first_with_identifier(s.subrange(0, k - 1), id) is None,
        s[k - 1].identifier == id,
    ensures
        first_with_identifier(s, id) == Some(k - 1),
    decreases s.len(),
{
    if s.len() > k {
        assert(s.drop_last().subrange(0, k - 1) =~= s.subrange(0, k - 1));
        assert(s.drop_last()[k - 1] == s[k - 1]);
        lemma_first_prefix(s.drop_last(), k, id);
    } else {
        assert(s.drop_last() =~= s.subrange(0, k - 1));
    }
}

} // verus!
