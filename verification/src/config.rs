//! Host configuration: which plugins load, and with what.
use crate::{plugin, text};
use vstd::prelude::*;

verus! {

/// Where plugin state lives unless told otherwise.
pub fn default_data_dir() -> (dir: String)
    ensures
        dir@ == "./data"@,
{
    "./data".to_owned()
}

/// Depth of a plugin's queue unless told otherwise.
pub fn default_queue_depth() -> (depth: usize)
    ensures
        depth == 4096,
{
    4096
}

/// A dynamic (runtime-loaded) plugin declaration.
///
/// The `name` decides enablement *before* the shared object is opened, since
/// opening it runs native code. After load the library has to report this name.
#[derive(Debug, Clone)]
pub struct DynamicPluginSpec {
    /// Registered name of the plugin (must match the library's metadata name).
    pub name: String,
    /// Filesystem path to the plugin shared object.
    pub path: String,
}

/// Top-level configuration of a host.
#[derive(Debug, Clone)]
pub struct HostConfig {
    /// Stable identity of this endpoint/host.
    pub agent_id: String,
    /// Root directory for plugin state. Each plugin gets `data_dir/<plugin>`.
    pub data_dir: String,
    /// If `Some`, only these plugins (by name) are loaded. If `None`, every
    /// discovered plugin is loaded except those in `disabled_plugins`.
    pub enabled_plugins: Option<Vec<String>>,
    /// Plugins to skip even if discovered/enabled.
    pub disabled_plugins: Vec<String>,
    /// Dynamic plugin shared objects to load at runtime.
    pub dynamic_plugins: Vec<DynamicPluginSpec>,
    /// Per-plugin configuration subtrees, as JSON text, by plugin name. Of two
    /// under one name the first counts.
    pub plugins: Vec<(String, String)>,
    /// Bounded per-plugin queue depth.
    pub queue_depth: usize,
}

/// The subtree under a name; JSON `null` if there is none.
pub open spec fn subtree(plugins: Seq<(String, String)>, name: Seq<char>) -> Seq<char>
    decreases plugins.len(),
{
    if plugins.len() == 0 {
        "null"@
    } else if plugins[0].0@ == name {
        plugins[0].1@
    } else {
        subtree(plugins.skip(1), name)
    }
}

impl HostConfig {
    /// Whether a plugin of this name loads: it is not disabled, and it is enabled
    /// if only some are.
    pub open spec fn enables(self, name: Seq<char>) -> bool {
        &&& !plugin::names(self.disabled_plugins@).contains(name)
        &&& match self.enabled_plugins {
            Some(list) => plugin::names(list@).contains(name),
            None => true,
        }
    }

    /// A minimal config that loads all discovered plugins.
    pub fn new(agent_id: &str) -> (config: HostConfig)
        ensures
            config.agent_id@ == agent_id@,
            config.data_dir@ == "./data"@,
            config.enabled_plugins is None,
            config.disabled_plugins@.len() == 0,
            config.dynamic_plugins@.len() == 0,
            config.plugins@.len() == 0,
            config.queue_depth == 4096,
            forall|name: Seq<char>| #[trigger] config.enables(name),
    {
        HostConfig {
            agent_id: agent_id.to_owned(),
            data_dir: default_data_dir(),
            enabled_plugins: None,
            disabled_plugins: Vec::new(),
            dynamic_plugins: Vec::new(),
            plugins: Vec::new(),
            queue_depth: default_queue_depth(),
        }
    }

    /// Whether a plugin name should be loaded under this config.
    pub fn is_enabled(&self, name: &str) -> (yes: bool)
        ensures
            yes == self.enables(name@),
    {
        if plugin::holds(&self.disabled_plugins, name) {
            return false;
        }
        match &self.enabled_plugins {
            Some(list) => plugin::holds(list, name),
            None => true,
        }
    }

    /// The config subtree for a plugin (JSON `null` if unset).
    pub fn plugin_config(&self, name: &str) -> (json: String)
        ensures
            json@ == subtree(self.plugins@, name@),
    {
        let mut i: usize = 0;
        assert(self.plugins@.skip(0) =~= self.plugins@);
        while i < self.plugins.len()
            invariant
                i <= self.plugins@.len(),
                subtree(self.plugins@, name@) == subtree(self.plugins@.skip(i as int), name@),
            decreases self.plugins@.len() - i,
        {
            assert(self.plugins@.skip(i as int)[0] == self.plugins@[i as int]);
            if text::same(self.plugins[i].0.as_str(), name) {
                return self.plugins[i].1.clone();
            }
            assert(self.plugins@.skip(i as int).skip(1) =~= self.plugins@.skip(i + 1));
            i = i + 1;
        }
        "null".to_owned()
    }
}

/// Disabling wins: a plugin that is both enabled and disabled does not load.
pub proof fn law_disabled_wins(config: HostConfig, name: Seq<char>)
    requires
        plugin::names(config.disabled_plugins@).contains(name),
    ensures
        !config.enables(name),
{
}

} // verus!
