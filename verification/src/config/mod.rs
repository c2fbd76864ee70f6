use vstd::prelude::*;

pub mod keys;
pub mod keybinds;
pub mod start_hooks;
pub mod workspace_settings;
pub mod bar_settings;
pub mod keysyms;
pub mod options;

pub use options::{default_options, Options, OptionsModel};
pub use keybinds::{default_keybinds, KeybindModel, Keybinds};
pub use start_hooks::{HookModel, StartHooks};
pub use workspace_settings::{default_all_workspaces, AllWorkspaceSettings, WorkspaceSettingsModel};
pub use bar_settings::{AllBarSettings, BarModel};

verus! {

/// A value that can be written back as config file text.
pub trait Repr {
    /// The config file text of the value.
    fn repr(&self) -> Result<String, crate::error::Error>;
}

/// A parsed configuration file: keybinds, hooks and settings of the window manager.
#[derive(Debug, Clone)]
pub struct Config {
    pub keybinds: Keybinds,
    pub settings: Options,
    pub start_hooks: StartHooks,
    pub workspace_settings: AllWorkspaceSettings,
    pub bar_settings: AllBarSettings,
    pub path: String,
}

/// A [`Config`] taken by views.
pub struct ConfigModel {
    pub keybinds: Seq<KeybindModel>,
    pub settings: OptionsModel,
    pub start_hooks: Seq<HookModel>,
    pub workspace_settings: Seq<WorkspaceSettingsModel>,
    pub bar_settings: Seq<BarModel>,
    pub path: Seq<char>,
}

impl View for Config {
    type V = ConfigModel;

    open spec fn view(&self) -> ConfigModel {
        ConfigModel {
            keybinds: self.keybinds@,
            settings: self.settings@,
            start_hooks: self.start_hooks@,
            workspace_settings: self.workspace_settings@,
            bar_settings: self.bar_settings@,
            path: self.path@,
        }
    }
}

/// The configuration before any config line: the default keybinds and settings, no hooks,
/// the ten default workspaces, no bars, and no path.
pub open spec fn default_config() -> ConfigModel {
    ConfigModel {
        keybinds: default_keybinds(),
        settings: default_options(),
        start_hooks: seq![],
        workspace_settings: default_all_workspaces(),
        bar_settings: seq![],
        path: ""@,
    }
}

impl Default for Config {
    fn default() -> (r: Self)
        ensures
            r@ == default_config(),
    {
        Config {
            keybinds: Keybinds::default(),
            settings: Options::default(),
            start_hooks: StartHooks::default(),
            workspace_settings: AllWorkspaceSettings::default(),
            bar_settings: AllBarSettings::default(),
            path: String::from_str(""),
        }
    }
}

impl Config {
    /// The bytes to write as a fresh config file: the keybinds, then the settings, as
    /// config lines in UTF-8.
    pub fn serialize(&self) -> (r: Result<Vec<u8>, crate::error::Error>)
        ensures
            r matches Ok(b) && b@ == vstd::utf8::encode_utf8(
                keybinds::keybinds_text(self.keybinds@) + options::options_text(self.settings@),
            ),
    {
        let mut string = match self.keybinds.repr() {
            Ok(k) => k,
            Err(e) => return Err(e),
        };
        match self.settings.repr() {
            Ok(o) => string.append(o.as_str()),
            Err(e) => return Err(e),
        }
        let bytes = string.as_str().as_bytes();
        Ok(vstd::slice::slice_to_vec(bytes))
    }
}

} // verus!
