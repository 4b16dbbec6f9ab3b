//! Where the daemon keeps its state: every file it owns, under one root.
//!
//! The root comes from `$XDG_CONFIG_HOME`, else `$HOME/.config`, else the
//! temporary directory, with `penguinwave` appended; it can be given
//! directly so tests never touch the real configuration.

use crate::text::{join_path, path_join};
use vstd::prelude::*;
use vstd::string::*;

verus! {

/// The directory that holds everything, given what the environment offers.
pub open spec fn default_root_spec(
    xdg_config_home: Option<Seq<char>>,
    home: Option<Seq<char>>,
    temp_dir: Seq<char>,
) -> Seq<char> {
    let base = match xdg_config_home {
        Some(x) => x,
        None => match home {
            Some(h) => path_join(h, ".config"@),
            None => temp_dir,
        },
    };
    path_join(base, "penguinwave"@)
}

pub open spec fn eq_dir_spec(root: Seq<char>) -> Seq<char> {
    path_join(root, "eq"@)
}

/// Every file the daemon owns, rooted at one directory.
#[derive(Debug, Clone)]
pub struct ConfigStore {
    root: String,
}

impl ConfigStore {
    pub closed spec fn root_spec(&self) -> Seq<char> {
        self.root@
    }

    pub fn new(root: &str) -> (s: ConfigStore)
        ensures
            s.root_spec() == root@,
    {
        ConfigStore { root: String::from_str(root) }
    }

    /// `$XDG_CONFIG_HOME/penguinwave`, falling back to `$HOME/.config`, then
    /// to the temporary directory; the caller reads the environment.
    pub fn default_root(xdg_config_home: Option<&str>, home: Option<&str>, temp_dir: &str) -> (r:
        String)
        ensures
            r@ == default_root_spec(
                match xdg_config_home {
                    Some(x) => Some(x@),
                    None => None,
                },
                match home {
                    Some(h) => Some(h@),
                    None => None,
                },
                temp_dir@,
            ),
    {
        let base = match xdg_config_home {
            Some(x) => String::from_str(x),
            None => match home {
                Some(h) => join_path(h, ".config"),
                None => String::from_str(temp_dir),
            },
        };
        proof {
            reveal_strlit(".config");
        }
        join_path(base.as_str(), "penguinwave")
    }

    /// The store under [`ConfigStore::default_root`].
    pub fn from_env(xdg_config_home: Option<&str>, home: Option<&str>, temp_dir: &str) -> (s:
        ConfigStore)
        ensures
            s.root_spec() == default_root_spec(
                match xdg_config_home {
                    Some(x) => Some(x@),
                    None => None,
                },
                match home {
                    Some(h) => Some(h@),
                    None => None,
                },
                temp_dir@,
            ),
    {
        let root = Self::default_root(xdg_config_home, home, temp_dir);
        ConfigStore { root }
    }

    pub fn root(&self) -> (r: &str)
        ensures
            r@ == self.root_spec(),
    {
        self.root.as_str()
    }

    pub fn eq_dir(&self) -> (r: String)
        ensures
            r@ == eq_dir_spec(self.root_spec()),
    {
        join_path(self.root.as_str(), "eq")
    }

    pub fn eq_state_path(&self) -> (r: String)
        ensures
            r@ == path_join(eq_dir_spec(self.root_spec()), "state.json"@),
    {
        join_path(self.eq_dir().as_str(), "state.json")
    }

    pub fn eq_conf_path(&self) -> (r: String)
        ensures
            r@ == path_join(eq_dir_spec(self.root_spec()), "penguinwave-eq.conf"@),
    {
        join_path(self.eq_dir().as_str(), "penguinwave-eq.conf")
    }

    pub fn presets_path(&self) -> (r: String)
        ensures
            r@ == path_join(eq_dir_spec(self.root_spec()), "presets.json"@),
    {
        join_path(self.eq_dir().as_str(), "presets.json")
    }

    /// A marker file rather than a flag in memory: safe mode exists for the
    /// crash case and must survive one.
    pub fn safe_mode_marker(&self) -> (r: String)
        ensures
            r@ == path_join(eq_dir_spec(self.root_spec()), ".safe_mode"@),
    {
        join_path(self.eq_dir().as_str(), ".safe_mode")
    }

    pub fn devices_path(&self) -> (r: String)
        ensures
            r@ == path_join(self.root_spec(), "devices.toml"@),
    {
        join_path(self.root.as_str(), "devices.toml")
    }

    pub fn routes_path(&self) -> (r: String)
        ensures
            r@ == path_join(self.root_spec(), "routes.json"@),
    {
        join_path(self.root.as_str(), "routes.json")
    }
}

} // verus!
