//! The plugin contract: identity, role and subscriptions of a plugin.
use crate::text;
use vstd::prelude::*;

verus! {

/// The contract version. Dynamic plugins must match the host's value or be
/// rejected at load time.
pub const PLUGIN_API_VERSION: u32 = 1;

/// Broad role of a plugin, used for ordering and operator display.
#[derive(Debug, Clone, Copy, PartialEq, Eq, Hash, Structural)]
pub enum PluginKind {
    /// Produces raw telemetry (process exec, keystroke timing, sessions).
    Collector,
    /// Consumes events and derives higher-level signals (detection, scoring).
    Processor,
    /// Persists, forwards, or alerts on events (storage, transport, notify).
    Sink,
    /// Controls the endpoint/host itself (self-protection, lifecycle).
    Control,
}

/// Static description of a plugin instance.
#[derive(Debug, Clone)]
pub struct PluginMetadata {
    pub name: &'static str,
    pub version: &'static str,
    pub description: &'static str,
    pub kind: PluginKind,
    pub api_version: u32,
}

impl PluginMetadata {
    /// Metadata at the current contract version.
    pub fn new(
        name: &'static str,
        version: &'static str,
        description: &'static str,
        kind: PluginKind,
    ) -> (out: PluginMetadata)
        ensures
            out.name == name,
            out.version == version,
            out.description == description,
            out.kind == kind,
            out.api_version == PLUGIN_API_VERSION,
    {
        PluginMetadata { name, version, description, kind, api_version: PLUGIN_API_VERSION }
    }
}

/// Which event topics a plugin wants delivered to it.
#[derive(Debug, Clone)]
pub enum Subscriptions {
    /// Receive every event on the bus.
    All,
    /// Receive nothing (pure collector that only emits).
    Nothing,
    /// Receive only events whose `kind` is in this list, which names none twice.
    Kinds(Vec<String>),
}

/// The strings of a list.
pub open spec fn names(list: Seq<String>) -> Seq<Seq<char>> {
    list.map_values(|s: String| s@)
}

/// The characters of a list of string slices.
pub open spec fn slices(list: Seq<&str>) -> Seq<Seq<char>> {
    list.map_values(|s: &str| s@)
}

/// Whether a list of names holds one.
pub fn holds(list: &Vec<String>, name: &str) -> (yes: bool)
    ensures
        yes == names(list@).contains(name@),
{
    let mut i: usize = 0;
    while i < list.len()
        invariant
            i <= list@.len(),
            forall|j: int| 0 <= j < i ==> names(list@)[j] != name@,
        decreases list@.len() - i,
    {
        if text::same(list[i].as_str(), name) {
            assert(names(list@)[i as int] == name@);
            return true;
        }
        i = i + 1;
    }
    false
}

impl Subscriptions {
    /// Whether an event of this kind is wanted.
    pub open spec fn wants(self, kind: Seq<char>) -> bool {
        match self {
            Subscriptions::All => true,
            Subscriptions::Nothing => false,
            Subscriptions::Kinds(list) => names(list@).contains(kind),
        }
    }

    /// Subscribe to an explicit list of kinds.
    pub fn kinds(list: &[&str]) -> (out: Subscriptions)
        ensures
            out is Kinds,
            names(out->Kinds_0@).no_duplicates(),
            forall|kind: Seq<char>| #[trigger] out.wants(kind) <==> slices(list@).contains(kind),
    {
        let mut set: Vec<String> = Vec::new();
        let mut i: usize = 0;
        while i < list.len()
            invariant
                i <= list@.len(),
                names(set@).no_duplicates(),
                forall|kind: Seq<char>| #[trigger]
                    names(set@).contains(kind) <==> slices(list@).take(i as int).contains(kind),
            decreases list@.len() - i,
        {
            let ghost before = set@;
            let item: &str = list[i];
            if !holds(&set, item) {
                set.push(item.to_owned());
                assert(names(set@) =~= names(before).push(item@));
            }
            proof {
                let seen = slices(list@).take(i as int);
                let more = slices(list@).take(i + 1);
                assert(more =~= seen.push(item@));
                assert forall|kind: Seq<char>| #[trigger] names(set@).contains(kind)
                    <==> more.contains(kind) by {
                    if names(set@).contains(kind) {
                        let p = choose|p: int| 0 <= p < names(set@).len() && names(set@)[p] == kind;
                        if p < before.len() {
                            assert(names(before)[p] == kind);
                            assert(names(before).contains(kind));
                            let q = choose|q: int| 0 <= q < seen.len() && seen[q] == kind;
                            assert(more[q] == kind);
                        } else {
                            assert(more[seen.len() as int] == kind);
                        }
                    }
                    if more.contains(kind) {
                        let q = choose|q: int| 0 <= q < more.len() && more[q] == kind;
                        if q < seen.len() {
                            assert(seen[q] == kind);
                            assert(names(before).contains(kind));
                            let p = choose|p: int|
                                0 <= p < names(before).len() && names(before)[p] == kind;
                            assert(names(set@)[p] == kind);
                        } else {
                            if set@.len() > before.len() {
                                assert(names(set@)[before.len() as int] == kind);
                            }
                        }
                    }
                }
            }
            i = i + 1;
        }
        assert(slices(list@).take(list@.len() as int) =~= slices(list@));
        Subscriptions::Kinds(set)
    }

    /// Does this subscription want an event of the given `kind`?
    pub fn matches(&self, kind: &str) -> (yes: bool)
        ensures
            yes == self.wants(kind@),
    {
        match self {
            Subscriptions::All => true,
            Subscriptions::Nothing => false,
            Subscriptions::Kinds(list) => holds(list, kind),
        }
    }
}

} // verus!
