//! A reference plugin, meant to be built as a shared object.
use crate::event::{Event, EventPayload};
use crate::plugin::{PluginKind, PluginMetadata, Subscriptions, PLUGIN_API_VERSION};
use vstd::prelude::*;

verus! {

/// The plugin's registered name. A host that loads it has to declare this name.
pub const PLUGIN_NAME: &'static str = "example-plugin";

/// The marker by which its event is told from any other.
pub const LOADED_MARKER: &'static str = "example-plugin-loaded-dynamically";

/// A trivial collector: it emits one distinctive event when it is initialised and
/// subscribes to nothing.
#[derive(Debug, Clone, Copy, Default)]
pub struct ExamplePlugin;

/// The payload of its event, as JSON text.
pub open spec fn marker_json() -> Seq<char> {
    "{\"api_version\":1,\"marker\":\"example-plugin-loaded-dynamically\"}"@
}

impl ExamplePlugin {
    /// The plugin's identity.
    pub fn metadata(&self) -> (out: PluginMetadata)
        ensures
            out.name@ == PLUGIN_NAME@,
            out.version@ == "0.1.0"@,
            out.description@
                == "Example third-party plugin loaded at runtime from a cdylib."@,
            out.kind == PluginKind::Collector,
            out.api_version == PLUGIN_API_VERSION,
    {
        PluginMetadata::new(
            PLUGIN_NAME,
            "0.1.0",
            "Example third-party plugin loaded at runtime from a cdylib.",
            PluginKind::Collector,
        )
    }

    /// A pure collector consumes nothing.
    pub fn subscriptions(&self) -> (out: Subscriptions)
        ensures
            out is Nothing,
            forall|kind: Seq<char>| !#[trigger] out.wants(kind),
    {
        Subscriptions::Nothing
    }

    /// The event that it emits when it is initialised.
    pub fn loaded_event(&self, agent_id: &str) -> (ev: Event)
        ensures
            ev.agent_id@ == agent_id@,
            ev.source@ == PLUGIN_NAME@,
            ev.kind@ == "custom"@,
            ev.payload matches EventPayload::Custom(json) && json@ == marker_json(),
    {
        Event::new(
            agent_id,
            PLUGIN_NAME,
            EventPayload::Custom(
                "{\"api_version\":1,\"marker\":\"example-plugin-loaded-dynamically\"}".to_owned(),
            ),
        )
    }
}

} // verus!
