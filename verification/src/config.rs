//! The application configuration: the remote service address, the
//! chosen college / campus / group (as optional names and numeric IDs),
//! cache settings, key bindings and themes.
//!
//! Reading and writing the configuration files is the surrounding
//! application's business; this module holds the values and the small
//! rules on them.

use vstd::prelude::*;

use crate::keymap::KeyMap;
use crate::strutil::{spec_trim_end_slash, trim_end_slashes};
use crate::theme::{spec_is_dark, Theme, ThemeConfig};

verus! {

/// The remote-service section: address and the selected identity, each
/// dimension as an optional name and a numeric ID. A present name takes
/// precedence over the ID when the identity is resolved.
#[derive(Debug)]
pub struct Api {
    pub url: String,
    pub college_id: u32,
    pub college_name: Option<String>,
    pub campus_id: u32,
    pub campus_name: Option<String>,
    pub group_id: u32,
    pub group_name: Option<String>,
}

/// The application section: refresh cadence, cache switch and
/// time-to-live, and the active theme name.
#[derive(Debug)]
pub struct App {
    pub refresh_interval: u64,
    pub cache_enabled: bool,
    pub cache_ttl: u64,
    pub current_theme: String,
}

/// The main configuration file's content.
#[derive(Debug)]
pub struct MainConfig {
    pub api: Api,
    pub app: App,
    pub keymap: KeyMap,
}

/// The whole configuration: the main file plus the loaded themes.
pub struct Config {
    pub main: MainConfig,
    pub themes: ThemeConfig,
}

/// Clones an optional string, keeping its content.
fn clone_opt_string(s: &Option<String>) -> (r: Option<String>)
    ensures
        r == *s,
{
    match s {
        Some(v) => Some(v.clone()),
        None => None,
    }
}

impl Clone for Api {
    fn clone(&self) -> (res: Self)
        ensures
            res == *self,
    {
        Api {
            url: self.url.clone(),
            college_id: self.college_id,
            college_name: clone_opt_string(&self.college_name),
            campus_id: self.campus_id,
            campus_name: clone_opt_string(&self.campus_name),
            group_id: self.group_id,
            group_name: clone_opt_string(&self.group_name),
        }
    }
}

impl Clone for App {
    fn clone(&self) -> (res: Self)
        ensures
            res == *self,
    {
        App {
            refresh_interval: self.refresh_interval,
            cache_enabled: self.cache_enabled,
            cache_ttl: self.cache_ttl,
            current_theme: self.current_theme.clone(),
        }
    }
}

impl Clone for MainConfig {
    fn clone(&self) -> (res: Self)
        ensures
            res == *self,
    {
        MainConfig { api: self.api.clone(), app: self.app.clone(), keymap: self.keymap.clone() }
    }
}

impl Config {
    /// The remote service's base address.
    pub fn api_url(&self) -> (r: &str)
        ensures
            r@ == self.main.api.url@,
    {
        self.main.api.url.as_str()
    }

    /// The configured college ID.
    pub fn college_id(&self) -> (r: u32)
        ensures
            r == self.main.api.college_id,
    {
        self.main.api.college_id
    }

    /// The configured college name, if one is set.
    pub fn college_name(&self) -> (r: Option<&str>)
        ensures
            match self.main.api.college_name {
                Some(s) => r matches Some(v) && v@ == s@,
                None => r is None,
            },
    {
        match &self.main.api.college_name {
            Some(s) => Some(s.as_str()),
            None => None,
        }
    }

    /// The configured campus ID.
    pub fn campus_id(&self) -> (r: u32)
        ensures
            r == self.main.api.campus_id,
    {
        self.main.api.campus_id
    }

    /// The configured campus name, if one is set.
    pub fn campus_name(&self) -> (r: Option<&str>)
        ensures
            match self.main.api.campus_name {
                Some(s) => r matches Some(v) && v@ == s@,
                None => r is None,
            },
    {
        match &self.main.api.campus_name {
            Some(s) => Some(s.as_str()),
            None => None,
        }
    }

    /// The configured group ID.
    pub fn group_id(&self) -> (r: u32)
        ensures
            r == self.main.api.group_id,
    {
        self.main.api.group_id
    }

    /// The configured group name, if one is set.
    pub fn group_name(&self) -> (r: Option<&str>)
        ensures
            match self.main.api.group_name {
                Some(s) => r matches Some(v) && v@ == s@,
                None => r is None,
            },
    {
        match &self.main.api.group_name {
            Some(s) => Some(s.as_str()),
            None => None,
        }
    }

    /// Whether the disk schedule cache is used at all.
    pub fn cache_enabled(&self) -> (r: bool)
        ensures
            r == self.main.app.cache_enabled,
    {
        self.main.app.cache_enabled
    }

    /// The disk cache time-to-live, in seconds.
    pub fn cache_ttl(&self) -> (r: u64)
        ensures
            r == self.main.app.cache_ttl,
    {
        self.main.app.cache_ttl
    }

    /// The active theme's name.
    pub fn current_theme(&self) -> (r: &str)
        ensures
            r@ == self.main.app.current_theme@,
    {
        self.main.app.current_theme.as_str()
    }

    /// The active theme, falling back to `dark` for an unknown name.
    pub fn theme(&self) -> (r: &Theme)
        requires
            self.themes.wf(),
        ensures
            match self.themes.spec_theme(self.main.app.current_theme@) {
                Some(t) => *r == t,
                None => Some(*r) == self.themes.spec_theme("dark"@),
            },
    {
        self.themes.get(self.main.app.current_theme.as_str())
    }

    /// The configured key bindings.
    pub fn keymap(&self) -> (r: &KeyMap)
        ensures
            *r == self.main.keymap,
    {
        &self.main.keymap
    }

    /// Sets the remote service's address, dropping trailing slashes.
    pub fn set_api_url(&mut self, url: String)
        ensures
            final(self).main.api.url@ == spec_trim_end_slash(url@),
            api_same_but_url(old(self).main.api, final(self).main.api),
            final(self).main.app == old(self).main.app,
            final(self).main.keymap == old(self).main.keymap,
            final(self).themes == old(self).themes,
    {
        self.main.api.url = trim_end_slashes(url.as_str());
    }

    /// Selects a college by ID, with an optional name for later
    /// re-resolution.
    pub fn set_college(&mut self, id: u32, name: Option<String>)
        ensures
            final(self).main.api.college_id == id,
            final(self).main.api.college_name == name,
            final(self).main.api.url == old(self).main.api.url,
            final(self).main.api.campus_id == old(self).main.api.campus_id,
            final(self).main.api.campus_name == old(self).main.api.campus_name,
            final(self).main.api.group_id == old(self).main.api.group_id,
            final(self).main.api.group_name == old(self).main.api.group_name,
            final(self).main.app == old(self).main.app,
            final(self).main.keymap == old(self).main.keymap,
            final(self).themes == old(self).themes,
    {
        self.main.api.college_id = id;
        self.main.api.college_name = name;
    }

    /// Selects a campus by ID, with an optional name for later
    /// re-resolution.
    pub fn set_campus(&mut self, id: u32, name: Option<String>)
        ensures
            final(self).main.api.campus_id == id,
            final(self).main.api.campus_name == name,
            final(self).main.api.url == old(self).main.api.url,
            final(self).main.api.college_id == old(self).main.api.college_id,
            final(self).main.api.college_name == old(self).main.api.college_name,
            final(self).main.api.group_id == old(self).main.api.group_id,
            final(self).main.api.group_name == old(self).main.api.group_name,
            final(self).main.app == old(self).main.app,
            final(self).main.keymap == old(self).main.keymap,
            final(self).themes == old(self).themes,
    {
        self.main.api.campus_id = id;
        self.main.api.campus_name = name;
    }

    /// Selects a group by ID, with an optional name for later
    /// re-resolution.
    pub fn set_group(&mut self, id: u32, name: Option<String>)
        ensures
            final(self).main.api.group_id == id,
            final(self).main.api.group_name == name,
            final(self).main.api.url == old(self).main.api.url,
            final(self).main.api.college_id == old(self).main.api.college_id,
            final(self).main.api.college_name == old(self).main.api.college_name,
            final(self).main.api.campus_id == old(self).main.api.campus_id,
            final(self).main.api.campus_name == old(self).main.api.campus_name,
            final(self).main.app == old(self).main.app,
            final(self).main.keymap == old(self).main.keymap,
            final(self).themes == old(self).themes,
    {
        self.main.api.group_id = id;
        self.main.api.group_name = name;
    }

}

impl Default for Config {
    /// A configuration with the cache on, an hour of time-to-live, the
    /// `dark` theme and the default key bindings.
    fn default() -> (r: Config)
        ensures
            r.main.api.url@ == "http://localhost:8080"@,
            r.main.api.college_id == 1,
            r.main.api.college_name is None,
            r.main.api.campus_id == 1,
            r.main.api.campus_name is None,
            r.main.api.group_id == 1,
            r.main.api.group_name is None,
            r.main.app.refresh_interval == 60,
            r.main.app.cache_enabled,
            r.main.app.cache_ttl == 3600,
            r.main.app.current_theme@ == "dark"@,
            r.themes.wf(),
            r.themes.spec_theme("dark"@) matches Some(t) && spec_is_dark(t),
    {
        let themes = ThemeConfig::from_entries(Vec::new());
        proof {
            assert(crate::theme::seq_theme(Seq::<crate::theme::ThemeEntry>::empty(), "dark"@)
                is None);
        }
        Config {
            main: MainConfig {
                api: Api {
                    url: "http://localhost:8080".to_owned(),
                    college_id: 1,
                    college_name: None,
                    campus_id: 1,
                    campus_name: None,
                    group_id: 1,
                    group_name: None,
                },
                app: App {
                    refresh_interval: 60,
                    cache_enabled: true,
                    cache_ttl: 3600,
                    current_theme: "dark".to_owned(),
                },
                keymap: KeyMap::default(),
            },
            themes,
        }
    }
}

/// True when the api sections agree on everything but the address.
pub open spec fn api_same_but_url(pre: Api, post: Api) -> bool {
    &&& post.college_id == pre.college_id
    &&& post.college_name == pre.college_name
    &&& post.campus_id == pre.campus_id
    &&& post.campus_name == pre.campus_name
    &&& post.group_id == pre.group_id
    &&& post.group_name == pre.group_name
}

impl Clone for Config {
    fn clone(&self) -> (res: Self)
        ensures
            res.main == self.main,
            res.themes.entries_seq() == self.themes.entries_seq(),
    {
        Config { main: self.main.clone(), themes: self.themes.clone() }
    }
}

} // verus!
