//! Laws of the host: which events reach whom, which plugins load, what they are given,
//! and which commands reach an agent.
use crate::bus::{self, BusMetrics, Delivery, TrySend};
use crate::config::{self, DynamicPluginSpec, HostConfig};
use crate::event::{Event, EventPayload};
use crate::example::ExamplePlugin;
use crate::host::{self, Candidate, PluginSetup, Source, StaticEntry, TaskStep, Wake};
use crate::loader::{self, EntryCall, LoadError};
use crate::plugin::{self, PluginKind, PluginMetadata, Subscriptions};
use crate::registry::{self, Enqueue, Router, RouterError};
use crate::{cert, dashboard, sink, text};
use vstd::prelude::*;

verus! {

/// Findings wait for room on a full queue; everything else is dropped there.
pub proof fn law_findings_are_never_dropped(kind: &str, d: Delivery)
    requires
        call_ensures(bus::delivery, (kind,), d),
    ensures
        d == Delivery::Wait <==> kind@ == "detection"@ || kind@ == "score"@ || kind@ == "alert"@,
{
    let list = bus::critical_kinds();
    assert(list[0] == "detection"@ && list[1] == "score"@ && list[2] == "alert"@);
}

/// Only a full queue counts, each time by one, and each way on its own.
pub proof fn law_drops_are_counted_apart(
    ingress: &mut BusMetrics,
    fanout: &mut BusMetrics,
    outcome: TrySend,
    before: &BusMetrics,
    in_before: u64,
    out_before: u64,
    ingress_after: &BusMetrics,
    in_after: u64,
    out_same: u64,
    fanout_after: &BusMetrics,
    in_same: u64,
    out_after: u64,
)
    requires
        *old(ingress) == *before,
        *old(fanout) == *before,
        call_ensures(BusMetrics::record_ingress, (ingress, outcome), ()),
        call_ensures(BusMetrics::record_fanout, (fanout, outcome), ()),
        *ingress_after == *final(ingress),
        *fanout_after == *final(fanout),
        call_ensures(BusMetrics::ingress_dropped, (before,), in_before),
        call_ensures(BusMetrics::fanout_dropped, (before,), out_before),
        call_ensures(BusMetrics::ingress_dropped, (ingress_after,), in_after),
        call_ensures(BusMetrics::fanout_dropped, (ingress_after,), out_same),
        call_ensures(BusMetrics::ingress_dropped, (fanout_after,), in_same),
        call_ensures(BusMetrics::fanout_dropped, (fanout_after,), out_after),
    ensures
        out_same == out_before,
        in_same == in_before,
        outcome != TrySend::Full ==> in_after == in_before && out_after == out_before,
        outcome == TrySend::Full && in_before < u64::MAX ==> in_after == in_before + 1,
        outcome == TrySend::Full && out_before < u64::MAX ==> out_after == out_before + 1,
{
}

/// A bus starts with nothing dropped.
pub proof fn law_bus_starts_without_drops(m: BusMetrics, ingress: u64, fanout: u64)
    requires
        call_ensures(BusMetrics::new, (), m),
        call_ensures(BusMetrics::ingress_dropped, (&m,), ingress),
        call_ensures(BusMetrics::fanout_dropped, (&m,), fanout),
    ensures
        ingress == 0,
        fanout == 0,
{
}

/// An event fans out to exactly the routes whose subscription matches its kind.
pub proof fn law_event_reaches_its_subscribers(
    routes: &Vec<Subscriptions>,
    kind: &str,
    out: Vec<usize>,
    place: usize,
    yes: bool,
)
    requires
        call_ensures(bus::fan_out, (routes, kind), out),
        place < routes@.len(),
        call_ensures(Subscriptions::matches, (&routes@[place as int], kind), yes),
    ensures
        yes <==> out@.contains(place),
        forall|i: int| 0 <= i < out@.len() ==> (#[trigger] out@[i]) < routes@.len(),
        forall|i: int, j: int|
            0 <= i < j < out@.len() ==> #[trigger] out@[i] < #[trigger] out@[j],
{
    let reached = bus::targets(routes@, kind@);
    let shown = out@.map_values(|p: usize| p as int);
    assert(shown == reached);
    bus::law_routing_follows_subscriptions(routes@, kind@, place as int);
    bus::law_route_is_reached_once(routes@, kind@);
    if out@.contains(place) {
        let i = choose|i: int| 0 <= i < out@.len() && out@[i] == place;
        assert(shown[i] == place as int);
    }
    if reached.contains(place as int) {
        let i = choose|i: int| 0 <= i < reached.len() && reached[i] == place as int;
        assert(shown[i] == out@[i] as int);
        assert(out@[i] == place);
    }
    assert forall|i: int| 0 <= i < out@.len() implies (#[trigger] out@[i]) < routes@.len() by {
        assert(shown[i] == out@[i] as int);
        assert(reached.contains(reached[i]));
        bus::law_routing_follows_subscriptions(routes@, kind@, reached[i]);
    }
    assert forall|i: int, j: int| 0 <= i < j < out@.len() implies #[trigger] out@[i]
        < #[trigger] out@[j] by {
        assert(shown[i] == out@[i] as int && shown[j] == out@[j] as int);
        assert(reached[i] < reached[j]);
    }
}

/// A subscription to everything matches every kind, one to nothing none, and one to a
/// list the kinds of the list.
pub proof fn law_subscriptions_match_what_they_list(
    list: &[&str],
    some: Subscriptions,
    kind: &str,
    in_list: bool,
    in_all: bool,
    in_none: bool,
)
    requires
        call_ensures(Subscriptions::kinds, (list,), some),
        call_ensures(Subscriptions::matches, (&some, kind), in_list),
        call_ensures(Subscriptions::matches, (&Subscriptions::All, kind), in_all),
        call_ensures(Subscriptions::matches, (&Subscriptions::Nothing, kind), in_none),
    ensures
        in_all,
        !in_none,
        in_list <==> exists|i: int| 0 <= i < list@.len() && (#[trigger] list@[i])@ == kind@,
{
    let named = plugin::slices(list@);
    if in_list {
        let i = choose|i: int| 0 <= i < named.len() && named[i] == kind@;
        assert(list@[i]@ == kind@);
    }
    if exists|i: int| 0 <= i < list@.len() && (#[trigger] list@[i])@ == kind@ {
        let i = choose|i: int| 0 <= i < list@.len() && (#[trigger] list@[i])@ == kind@;
        assert(named[i] == kind@);
    }
}

/// A stamped event is the plugin's own but for its source and agent.
pub proof fn law_stamp_changes_source_and_agent(
    event: Event,
    plugin_name: &str,
    agent_id: &str,
    out: Event,
)
    requires
        call_ensures(bus::stamp, (event, plugin_name, agent_id), out),
    ensures
        out.source@ == plugin_name@,
        out.agent_id@ == agent_id@,
        out.id == event.id,
        out.ts_ns == event.ts_ns,
        out.kind@ == event.kind@,
        out.payload == event.payload,
        out.labels == event.labels,
{
}

/// A plugin is enabled unless it is disabled, or others are enabled by name and it is
/// not.
pub proof fn law_disabling_wins(config: &HostConfig, name: &str, yes: bool)
    requires
        call_ensures(HostConfig::is_enabled, (config, name), yes),
    ensures
        (exists|i: int|
            0 <= i < config.disabled_plugins@.len() && (#[trigger] config.disabled_plugins@[i])@
                == name@) ==> !yes,
        !(exists|i: int|
            0 <= i < config.disabled_plugins@.len() && (#[trigger] config.disabled_plugins@[i])@
                == name@) ==> match config.enabled_plugins {
            None => yes,
            Some(list) => yes <==> exists|i: int|
                0 <= i < list@.len() && (#[trigger] list@[i])@ == name@,
        },
{
    lemma_named(config.disabled_plugins@, name@);
    if let Some(list) = config.enabled_plugins {
        lemma_named(list@, name@);
    }
}

proof fn lemma_named(list: Seq<String>, name: Seq<char>)
    ensures
        plugin::names(list).contains(name) <==> exists|i: int|
            0 <= i < list.len() && (#[trigger] list[i])@ == name,
{
    let named = plugin::names(list);
    if named.contains(name) {
        let i = choose|i: int| 0 <= i < named.len() && named[i] == name;
        assert(list[i]@ == name);
    }
    if exists|i: int| 0 <= i < list.len() && (#[trigger] list[i])@ == name {
        let i = choose|i: int| 0 <= i < list.len() && (#[trigger] list[i])@ == name;
        assert(named[i] == name);
    }
}

/// A plugin's configuration is the first subtree under its name, and `null` where there
/// is none.
pub proof fn law_plugin_config_is_its_own(config: &HostConfig, name: &str, json: String)
    requires
        call_ensures(HostConfig::plugin_config, (config, name), json),
    ensures
        (forall|i: int| 0 <= i < config.plugins@.len() ==> (#[trigger] config.plugins@[i]).0@
            != name@) ==> json@ == "null"@,
        forall|i: int|
            0 <= i < config.plugins@.len() && (#[trigger] config.plugins@[i]).0@ == name@ && (
            forall|j: int| 0 <= j < i ==> (#[trigger] config.plugins@[j]).0@ != name@) ==> json@
                == config.plugins@[i].1@,
{
    lemma_subtree(config.plugins@, name@);
}

proof fn lemma_subtree(plugins: Seq<(String, String)>, name: Seq<char>)
    ensures
        (forall|i: int| 0 <= i < plugins.len() ==> (#[trigger] plugins[i]).0@ != name)
            ==> config::subtree(plugins, name) == "null"@,
        forall|i: int|
            0 <= i < plugins.len() && (#[trigger] plugins[i]).0@ == name && (forall|j: int|
                0 <= j < i ==> (#[trigger] plugins[j]).0@ != name) ==> config::subtree(plugins, name)
                == plugins[i].1@,
    decreases plugins.len(),
{
    if plugins.len() > 0 && plugins[0].0@ != name {
        let rest = plugins.skip(1);
        lemma_subtree(rest, name);
        if forall|i: int| 0 <= i < plugins.len() ==> (#[trigger] plugins[i]).0@ != name {
            assert forall|i: int| 0 <= i < rest.len() implies (#[trigger] rest[i]).0@ != name by {
                assert(rest[i] == plugins[i + 1]);
            }
        }
        assert forall|i: int|
            0 <= i < plugins.len() && (#[trigger] plugins[i]).0@ == name && (forall|j: int|
                0 <= j < i ==> (#[trigger] plugins[j]).0@ != name) implies config::subtree(
            plugins,
            name,
        ) == plugins[i].1@ by {
            assert(rest[i - 1] == plugins[i]);
            assert forall|j: int| 0 <= j < i - 1 implies (#[trigger] rest[j]).0@ != name by {
                assert(rest[j] == plugins[j + 1]);
            }
        }
    }
}

/// A minimal configuration: everything discovered loads, data is kept in `./data`, and
/// queues hold 4096 events.
pub proof fn law_default_configuration(
    agent_id: &str,
    config: HostConfig,
    name: &str,
    enabled: bool,
    dir: String,
    depth: usize,
)
    requires
        call_ensures(HostConfig::new, (agent_id,), config),
        call_ensures(HostConfig::is_enabled, (&config, name), enabled),
        call_ensures(config::default_data_dir, (), dir),
        call_ensures(config::default_queue_depth, (), depth),
    ensures
        enabled,
        config.agent_id@ == agent_id@,
        config.data_dir@ == "./data"@ && dir@ == "./data"@,
        config.queue_depth == 4096 && depth == 4096,
        config.plugins@.len() == 0,
        config.dynamic_plugins@.len() == 0,
{
}

/// What loads has a name of its own, is enabled and of the host's contract version, and
/// is one of what was offered, under the name it was offered by. What is enabled and of
/// the version loads, or one of its name that was offered no later does.
pub proof fn law_what_loads(
    config: &HostConfig,
    explicit: &Vec<String>,
    statics: &Vec<StaticEntry>,
    discover: bool,
    loaded: Vec<Candidate>,
)
    requires
        call_ensures(host::resolve, (config, explicit, statics, discover), loaded),
    ensures
        forall|i: int, j: int|
            0 <= i < j < loaded@.len() ==> (#[trigger] loaded@[i]).name@ != (
            #[trigger] loaded@[j]).name@,
        forall|i: int|
            0 <= i < loaded@.len() ==> config.enables((#[trigger] loaded@[i]).name@)
                && loaded@[i].api_version == 1,
        forall|i: int|
            0 <= i < explicit@.len() && config.enables((#[trigger] explicit@[i])@) ==> loads(
                loaded@,
                explicit@[i]@,
            ),
        forall|i: int|
            0 <= i < config.dynamic_plugins@.len() && config.enables(
                (#[trigger] config.dynamic_plugins@[i]).name@,
            ) ==> loads(loaded@, config.dynamic_plugins@[i].name@),
        discover ==> forall|i: int|
            0 <= i < statics@.len() && (#[trigger] statics@[i]).api_version == 1 && config.enables(
                statics@[i].name@,
            ) ==> loads(loaded@, statics@[i].name@),
        !discover ==> forall|i: int|
            0 <= i < loaded@.len() ==> !((#[trigger] loaded@[i]).source is Static),
        forall|i: int, j: int|
            0 <= i < j < loaded@.len() ==> host::rank((#[trigger] loaded@[i]).source)
                <= host::rank((#[trigger] loaded@[j]).source),
{
    let names = plugin::names(explicit@);
    let list = host::candidates(*config, names, statics@, discover);
    let picked = host::picked(*config, list);
    let shown = host::candidate_views(loaded@);
    assert(shown == picked);
    host::law_loaded_plugins_are_distinct_and_enabled(*config, list);
    host::law_plugins_load_by_origin(*config, names, statics@, discover);
    let n1 = explicit@.len() as int;
    let n2 = n1 + config.dynamic_plugins@.len();
    assert forall|i: int, j: int| 0 <= i < j < loaded@.len() implies (
    #[trigger] loaded@[i]).name@ != (#[trigger] loaded@[j]).name@ by {
        let all = host::candidate_names(picked);
        assert(shown[i] == loaded@[i]@ && shown[j] == loaded@[j]@);
        assert(all[i] == loaded@[i].name@ && all[j] == loaded@[j].name@);
    }
    assert forall|i: int| 0 <= i < loaded@.len() implies config.enables(
        (#[trigger] loaded@[i]).name@,
    ) && loaded@[i].api_version == 1 by {
        assert(shown[i] == loaded@[i]@);
        assert(config.enables(picked[i].name));
    }
    assert forall|i: int| 0 <= i < explicit@.len() && config.enables(
        (#[trigger] explicit@[i])@,
    ) implies loads(loaded@, explicit@[i]@) by {
        assert(names[i] == explicit@[i]@);
        lemma_offered_loads(*config, list, i, loaded@);
    }
    assert forall|i: int|
        0 <= i < config.dynamic_plugins@.len() && config.enables(
            (#[trigger] config.dynamic_plugins@[i]).name@,
        ) implies loads(loaded@, config.dynamic_plugins@[i].name@) by {
        assert(list[n1 + i].name == config.dynamic_plugins@[i].name@);
        lemma_offered_loads(*config, list, n1 + i, loaded@);
    }
    if discover {
        assert forall|i: int|
            0 <= i < statics@.len() && (#[trigger] statics@[i]).api_version == 1
                && config.enables(statics@[i].name@) implies loads(
            loaded@,
            statics@[i].name@,
        ) by {
            assert(list[n2 + i].name == statics@[i].name@);
            lemma_offered_loads(*config, list, n2 + i, loaded@);
        }
    } else {
        assert forall|i: int| 0 <= i < loaded@.len() implies !((
        #[trigger] loaded@[i]).source is Static) by {
            assert(shown[i] == loaded@[i]@);
            lemma_picked_is_offered(*config, list, i);
            let p = choose|p: int| 0 <= p < list.len() && #[trigger] list[p] == picked[i];
            assert(!(list[p].source is Static));
        }
    }
    assert forall|i: int, j: int| 0 <= i < j < loaded@.len() implies host::rank(
        (#[trigger] loaded@[i]).source,
    ) <= host::rank((#[trigger] loaded@[j]).source) by {
        assert(shown[i] == loaded@[i]@ && shown[j] == loaded@[j]@);
        assert(host::rank(picked[i].source) <= host::rank(picked[j].source));
    }
}

/// A plugin of this name loads.
pub open spec fn loads(loaded: Seq<Candidate>, name: Seq<char>) -> bool {
    exists|i: int| 0 <= i < loaded.len() && (#[trigger] loaded[i]).name@ == name
}

proof fn lemma_offered_loads(
    config: HostConfig,
    list: Seq<host::CandidateView>,
    i: int,
    loaded: Seq<Candidate>,
)
    requires
        0 <= i < list.len(),
        list[i].api_version == 1,
        config.enables(list[i].name),
        host::candidate_views(loaded) == host::picked(config, list),
    ensures
        loads(loaded, list[i].name),
{
    host::law_earlier_source_wins(config, list, i);
    let picked = host::picked(config, list);
    let (k, p) = choose|k: int, p: int|
        0 <= k < picked.len() && 0 <= p <= i && #[trigger] picked[k] == #[trigger] list[p]
            && list[p].name == list[i].name;
    assert(host::candidate_views(loaded)[k] == loaded[k]@);
    assert(loaded[k].name@ == list[i].name);
}

proof fn lemma_picked_is_offered(config: HostConfig, list: Seq<host::CandidateView>, i: int)
    requires
        0 <= i < host::picked(config, list).len(),
    ensures
        exists|p: int| 0 <= p < list.len() && #[trigger] list[p] == host::picked(config, list)[i],
    decreases list.len(),
{
    let rest = list.drop_last();
    let before = host::picked(config, rest);
    if i < before.len() {
        lemma_picked_is_offered(config, rest, i);
        let p = choose|p: int| 0 <= p < rest.len() && #[trigger] rest[p] == before[i];
        assert(list[p] == rest[p]);
    } else {
        assert(list[list.len() - 1] == list.last());
    }
}

/// Exactly the declared libraries that are enabled are opened, in order.
pub proof fn law_enabled_libraries_are_opened(
    config: &HostConfig,
    out: Vec<usize>,
    place: usize,
)
    requires
        call_ensures(host::dynamic_to_open, (config,), out),
    ensures
        out@.contains(place) <==> place < config.dynamic_plugins@.len() && config.enables(
            config.dynamic_plugins@[place as int].name@,
        ),
{
    let opened = host::opened(*config, config.dynamic_plugins@);
    let shown = out@.map_values(|p: usize| p as int);
    assert(shown == opened);
    host::law_disabled_library_is_not_opened(*config, config.dynamic_plugins@, place as int);
    if out@.contains(place) {
        let i = choose|i: int| 0 <= i < out@.len() && out@[i] == place;
        assert(shown[i] == place as int);
    }
    if opened.contains(place as int) {
        let i = choose|i: int| 0 <= i < opened.len() && opened[i] == place as int;
        assert(shown[i] == out@[i] as int);
    }
}

/// A path below a directory is the directory, one slash and the name; an absolute name
/// stays as it is.
pub proof fn law_paths_join_with_one_slash(dir: &str, name: &str, path: String)
    requires
        call_ensures(host::join_path, (dir, name), path),
    ensures
        name@.len() > 0 && name@[0] == '/' ==> path@ == name@,
        !(name@.len() > 0 && name@[0] == '/') ==> {
            &&& dir@.len() == 0 ==> path@ == name@
            &&& dir@.len() > 0 && dir@[dir@.len() - 1] == '/' ==> path@ == dir@ + name@
            &&& dir@.len() > 0 && dir@[dir@.len() - 1] != '/' ==> path@ == dir@ + seq!['/'] + name@
        },
{
    assert(Seq::<char>::empty() + name@ =~= name@);
    if dir@.len() == 0 {
        assert(dir@ + name@ =~= name@);
    }
}

/// A plugin is set up under its own name, with the host's identity, a directory of its
/// own below the host's, and its own configuration.
pub proof fn law_plugin_is_set_up_as_itself(
    config: &HostConfig,
    name: &str,
    setup: PluginSetup,
    path: String,
    json: String,
)
    requires
        call_ensures(host::plugin_setup, (config, name), setup),
        path@ == setup.data_dir@,
        call_ensures(HostConfig::plugin_config, (config, name), json),
    ensures
        setup.name@ == name@,
        setup.agent_id@ == config.agent_id@,
        setup.config@ == json@,
        !(name@.len() > 0 && name@[0] == '/') && config.data_dir@.len() > 0
            && config.data_dir@[config.data_dir@.len() - 1] != '/' ==> setup.data_dir@
            == config.data_dir@ + seq!['/'] + name@,
{
}

/// A task handles an event, waits where a signal says to go on, and stops otherwise.
pub proof fn law_task_ends_with_its_queue_or_the_host(wake: Wake, step: TaskStep)
    requires
        call_ensures(host::task_step, (wake,), step),
    ensures
        step == TaskStep::Handle <==> wake == Wake::Event,
        step == TaskStep::Wait <==> wake == Wake::Shutdown(false),
        step == TaskStep::Stop <==> wake == Wake::QueueClosed || wake == Wake::Shutdown(true),
{
}

/// A library is refused for the first thing that is wrong with it.
pub proof fn law_library_is_refused_for_the_first_fault(
    has_entry: bool,
    has_free: bool,
    symbols: Result<(), LoadError>,
    version: u32,
    registered: Result<(), LoadError>,
    panicked: Result<(), LoadError>,
    null: Result<(), LoadError>,
    spec: &DynamicPluginSpec,
    reported: &str,
    named: Result<(), LoadError>,
)
    requires
        call_ensures(loader::check_symbols, (has_entry, has_free), symbols),
        call_ensures(loader::check_registration, (EntryCall::Registered(version),), registered),
        call_ensures(loader::check_registration, (EntryCall::Panicked,), panicked),
        call_ensures(loader::check_registration, (EntryCall::Null,), null),
        call_ensures(loader::check_name, (spec, reported), named),
    ensures
        symbols is Ok <==> has_entry && has_free,
        !has_entry ==> symbols == Err::<(), LoadError>(LoadError::MissingEntry),
        has_entry && !has_free ==> symbols == Err::<(), LoadError>(LoadError::MissingFree),
        registered is Ok <==> version == 1,
        version != 1 ==> registered == Err::<(), LoadError>(LoadError::ApiVersion(version)),
        panicked == Err::<(), LoadError>(LoadError::EntryPanicked),
        null == Err::<(), LoadError>(LoadError::NullRegistration),
        named is Ok <==> reported@ == spec.name@,
        named matches Err(e) ==> (e matches LoadError::NameMismatch(name) && name@ == reported@),
{
}

/// What is said of a library that does not load.
pub proof fn law_load_messages(error: &LoadError, path: &str, said: String)
    requires
        call_ensures(LoadError::message, (error, path), said),
    ensures
        *error is MissingEntry ==> said@ == "missing `"@ + "aegis_plugin_entry"@
            + "` symbol in "@ + path@,
        *error is MissingFree ==> said@ == "missing `"@ + "aegis_plugin_free_registration"@
            + "` symbol in "@ + path@,
        *error is EntryPanicked ==> said@ == "dynamic plugin "@ + path@
            + " panicked in its entrypoint"@,
        *error is NullRegistration ==> said@ == "dynamic plugin "@ + path@
            + " returned a null registration"@,
        *error matches LoadError::ApiVersion(v) ==> said@ == "dynamic plugin "@ + path@
            + " has API version "@ + text::decimal(v as nat) + " but host expects "@
            + text::decimal(1),
        *error matches LoadError::NameMismatch(name) ==> said@ == "dynamic plugin "@ + path@
            + " reports the name "@ + name@,
{
}

/// A session is found under its agent from when it registers, in place of an earlier
/// one, until it ends; another agent's session is not affected.
pub proof fn law_latest_session_is_found(
    router: &mut Router,
    agent_id: &str,
    channel: u64,
    after: &Router,
    found: Option<u64>,
    connected: bool,
    other: &str,
    other_before: Option<u64>,
    other_after: Option<u64>,
    before: &Router,
)
    requires
        old(router).wf(),
        *before == *old(router),
        call_ensures(Router::register, (router, agent_id, channel), ()),
        *after == *final(router),
        call_ensures(Router::channel, (after, agent_id), found),
        call_ensures(Router::is_connected, (after, agent_id), connected),
        other@ != agent_id@,
        call_ensures(Router::channel, (before, other), other_before),
        call_ensures(Router::channel, (after, other), other_after),
    ensures
        found == Some(channel),
        connected,
        other_after == other_before,
{
}

/// A session that ends is no longer found, unless another took its place: that one
/// stays.
pub proof fn law_ended_session_is_gone_unless_replaced(
    router: &mut Router,
    agent_id: &str,
    channel: u64,
    removed: bool,
    before: &Router,
    was: Option<u64>,
    after: &Router,
    is: Option<u64>,
    other: &str,
    other_before: Option<u64>,
    other_after: Option<u64>,
)
    requires
        old(router).wf(),
        *before == *old(router),
        call_ensures(Router::unregister, (router, agent_id, channel), removed),
        *after == *final(router),
        call_ensures(Router::channel, (before, agent_id), was),
        call_ensures(Router::channel, (after, agent_id), is),
        other@ != agent_id@,
        call_ensures(Router::channel, (before, other), other_before),
        call_ensures(Router::channel, (after, other), other_after),
    ensures
        removed <==> was == Some(channel),
        removed ==> is is None,
        !removed ==> is == was,
        other_after == other_before,
{
}

/// A new router has no agent.
pub proof fn law_new_router_is_empty(r: Router, agent_id: &str, found: Option<u64>, n: usize)
    requires
        call_ensures(Router::new, (), r),
        call_ensures(Router::channel, (&r, agent_id), found),
        call_ensures(Router::connected_count, (&r,), n),
    ensures
        found is None,
        n == 0,
{
    assert(r@.dom() =~= Set::empty());
}

/// A command is delivered if its agent's queue took it; a queue that is gone is an agent
/// that is not connected.
pub proof fn law_command_outcomes(
    queued: Result<(), RouterError>,
    full: Result<(), RouterError>,
    closed: Result<(), RouterError>,
    any: Enqueue,
    unknown: Result<(), RouterError>,
)
    requires
        call_ensures(registry::send_outcome, (true, Enqueue::Queued), queued),
        call_ensures(registry::send_outcome, (true, Enqueue::Full), full),
        call_ensures(registry::send_outcome, (true, Enqueue::Closed), closed),
        call_ensures(registry::send_outcome, (false, any), unknown),
    ensures
        queued is Ok,
        full == Err::<(), RouterError>(RouterError::ChannelFull),
        closed == Err::<(), RouterError>(RouterError::NotConnected),
        unknown == Err::<(), RouterError>(RouterError::NotConnected),
{
}

/// What is said of a command that was not delivered.
pub proof fn law_router_messages(error: &RouterError, said: String)
    requires
        call_ensures(RouterError::to_string, (error,), said),
    ensures
        *error == RouterError::NotConnected ==> said@ == "agent is not connected"@,
        *error == RouterError::ChannelFull ==> said@ == "agent command channel is full"@,
{
}

/// Metadata says what it is made of, at the first contract version.
pub proof fn law_metadata_says_what_it_is_given(
    name: &'static str,
    version: &'static str,
    description: &'static str,
    kind: PluginKind,
    out: PluginMetadata,
    store_sink: PluginMetadata,
    plugin: &ExamplePlugin,
    example: PluginMetadata,
)
    requires
        call_ensures(PluginMetadata::new, (name, version, description, kind), out),
        call_ensures(sink::metadata, (), store_sink),
        call_ensures(ExamplePlugin::metadata, (plugin,), example),
    ensures
        out.name@ == name@,
        out.version@ == version@,
        out.description@ == description@,
        out.kind == kind,
        out.api_version == 1,
        store_sink.name@ == "store-sink"@,
        store_sink.version@ == "0.1.0"@,
        store_sink.kind == PluginKind::Sink,
        store_sink.api_version == 1,
        example.name@ == "example-plugin"@,
        example.version@ == "0.1.0"@,
        example.kind == PluginKind::Collector,
        example.api_version == 1,
{
}

/// The example plugin takes no event and announces itself with its marker.
pub proof fn law_example_announces_itself(
    plugin: &ExamplePlugin,
    subscriptions: Subscriptions,
    kind: Seq<char>,
    agent_id: &str,
    ev: Event,
)
    requires
        call_ensures(ExamplePlugin::subscriptions, (plugin,), subscriptions),
        call_ensures(ExamplePlugin::loaded_event, (plugin, agent_id), ev),
    ensures
        !subscriptions.wants(kind),
        ev.agent_id@ == agent_id@,
        ev.source@ == "example-plugin"@,
        ev.kind@ == "custom"@,
        ev.payload matches EventPayload::Custom(json) && json@
            == "{\"api_version\":1,\"marker\":\"example-plugin-loaded-dynamically\"}"@,
{
}

/// The certificate and key of the server lie in a directory of their own, and new ones
/// are made unless both are there.
pub proof fn law_certificate_files(
    data_dir: &str,
    paths: cert::CertPaths,
    dir: String,
    file: &str,
    pid: u32,
    temp: String,
    cert_exists: bool,
    key_exists: bool,
    fresh: bool,
)
    requires
        call_ensures(cert::cert_paths, (data_dir,), paths),
        call_ensures(host::join_path, (data_dir, "server"), dir),
        call_ensures(cert::temp_name, (file, pid), temp),
        call_ensures(cert::needs_new_cert, (cert_exists, key_exists), fresh),
    ensures
        paths.dir@ == dir@,
        paths.cert@ == dir@ + "/tls.crt"@,
        paths.key@ == dir@ + "/tls.key"@,
        temp@ == "."@ + file@ + ".tmp."@ + text::decimal(pid as nat),
        fresh <==> !cert_exists || !key_exists,
        cert::CERT_SUBJECT@ == "aegisd"@,
{
    reveal_strlit("server");
    reveal_strlit("tls.crt");
    reveal_strlit("tls.key");
    reveal_strlit("/tls.crt");
    reveal_strlit("/tls.key");
    assert("server"@.len() == 6 && "server"@[0] == 's' && "server"@[5] == 'r');
    assert("tls.crt"@[0] == 't' && "tls.key"@[0] == 't');
    assert(dir@[dir@.len() - 1] == 'r');
    assert("/tls.crt"@ =~= seq!['/'] + "tls.crt"@);
    assert("/tls.key"@ =~= seq!['/'] + "tls.key"@);
    assert(dir@ + seq!['/'] + "tls.crt"@ =~= dir@ + "/tls.crt"@);
    assert(dir@ + seq!['/'] + "tls.key"@ =~= dir@ + "/tls.key"@);
}

/// A path is served the asset that it names after its leading slashes, or else the index
/// page.
pub proof fn law_path_names_its_asset(
    path: &str,
    assets: &Vec<String>,
    served: dashboard::Served,
    i: int,
    slashes: nat,
)
    requires
        call_ensures(dashboard::static_handler, (path, assets), served),
        0 <= i < assets@.len(),
        slashes <= path@.len(),
        forall|k: int| 0 <= k < slashes ==> #[trigger] path@[k] == '/',
        slashes < path@.len() ==> path@[slashes as int] != '/',
        assets@[i]@ == (if slashes < path@.len() {
            path@.skip(slashes as int)
        } else {
            "index.html"@
        }),
    ensures
        served matches dashboard::Served::Asset(j, mime) && j < assets@.len() && assets@[j as int]@
            == assets@[i]@ && mime@ == dashboard::mime_of(assets@[i]@),
{
    lemma_leading_slashes(path@, slashes);
    let names = plugin::names(assets@);
    assert(names[i] == assets@[i]@);
    assert(path@.skip(path@.len() as int) =~= Seq::empty());
    if let dashboard::Served::Asset(j, _) = served {
        assert(names[j as int] == assets@[j as int]@);
    }
}

/// A path that names no asset is served the index page, if there is one.
pub proof fn law_other_paths_are_served_the_index(
    path: &str,
    assets: &Vec<String>,
    served: dashboard::Served,
    slashes: nat,
)
    requires
        call_ensures(dashboard::static_handler, (path, assets), served),
        slashes < path@.len(),
        forall|k: int| 0 <= k < slashes ==> #[trigger] path@[k] == '/',
        path@[slashes as int] != '/',
        forall|i: int|
            0 <= i < assets@.len() ==> (#[trigger] assets@[i])@ != path@.skip(slashes as int),
    ensures
        (exists|i: int| 0 <= i < assets@.len() && (#[trigger] assets@[i])@ == "index.html"@) ==> (
        served matches dashboard::Served::Index(j) && j < assets@.len() && assets@[j as int]@
            == "index.html"@),
        !(exists|i: int| 0 <= i < assets@.len() && (#[trigger] assets@[i])@ == "index.html"@)
            ==> served is Missing,
{
    lemma_leading_slashes(path@, slashes);
    lemma_named(assets@, path@.skip(slashes as int));
    lemma_named(assets@, "index.html"@);
    if let dashboard::Served::Index(j) = served {
        assert(plugin::names(assets@)[j as int] == assets@[j as int]@);
    }
}

proof fn lemma_leading_slashes(s: Seq<char>, n: nat)
    requires
        n <= s.len(),
        forall|k: int| 0 <= k < n ==> #[trigger] s[k] == '/',
        n < s.len() ==> s[n as int] != '/',
    ensures
        dashboard::without_leading_slashes(s) == s.skip(n as int),
    decreases n,
{
    if n > 0 {
        let rest = s.skip(1);
        assert forall|k: int| 0 <= k < n - 1 implies #[trigger] rest[k] == '/' by {
            assert(rest[k] == s[k + 1]);
        }
        lemma_leading_slashes(rest, (n - 1) as nat);
        assert(rest.skip(n - 1) =~= s.skip(n as int));
    } else {
        assert(s.skip(0) =~= s);
    }
}

/// What loads comes from where it says, under its own name; and nothing of its name that
/// could load was offered before it: explicit plugins first, then dynamic ones, then
/// static ones, each in their order.
pub proof fn law_first_offered_loads(
    config: &HostConfig,
    explicit: &Vec<String>,
    statics: &Vec<StaticEntry>,
    discover: bool,
    loaded: Vec<Candidate>,
    i: int,
)
    requires
        call_ensures(host::resolve, (config, explicit, statics, discover), loaded),
        0 <= i < loaded@.len(),
        explicit@.len() <= usize::MAX,
        config.dynamic_plugins@.len() <= usize::MAX,
        statics@.len() <= usize::MAX,
    ensures
        loaded@[i].source matches Source::Explicit(k) ==> {
            &&& k < explicit@.len()
            &&& explicit@[k as int]@ == loaded@[i].name@
            &&& forall|m: int| 0 <= m < k ==> (#[trigger] explicit@[m])@ != loaded@[i].name@
        },
        loaded@[i].source matches Source::Dynamic(k) ==> {
            &&& k < config.dynamic_plugins@.len()
            &&& config.dynamic_plugins@[k as int].name@ == loaded@[i].name@
            &&& forall|m: int|
                0 <= m < explicit@.len() ==> (#[trigger] explicit@[m])@ != loaded@[i].name@
            &&& forall|m: int|
                0 <= m < k ==> (#[trigger] config.dynamic_plugins@[m]).name@ != loaded@[i].name@
        },
        loaded@[i].source matches Source::Static(k) ==> {
            &&& discover
            &&& k < statics@.len()
            &&& statics@[k as int].name@ == loaded@[i].name@
            &&& statics@[k as int].api_version == 1
            &&& forall|m: int|
                0 <= m < explicit@.len() ==> (#[trigger] explicit@[m])@ != loaded@[i].name@
            &&& forall|m: int|
                0 <= m < config.dynamic_plugins@.len() ==> (
                #[trigger] config.dynamic_plugins@[m]).name@ != loaded@[i].name@
            &&& forall|m: int|
                0 <= m < k && (#[trigger] statics@[m]).api_version == 1 ==> statics@[m].name@
                    != loaded@[i].name@
        },
{
    let names = plugin::names(explicit@);
    let list = host::candidates(*config, names, statics@, discover);
    let picked = host::picked(*config, list);
    assert(host::candidate_views(loaded@)[i] == loaded@[i]@);
    host::law_loaded_plugins_are_distinct_and_enabled(*config, list);
    lemma_picked_is_first(*config, list, i);
    assert(picked[i].api_version == 1);
    let p = choose|p: int|
        0 <= p < list.len() && #[trigger] list[p] == picked[i] && forall|q: int|
            0 <= q < p && (#[trigger] list[q]).api_version == 1 ==> list[q].name != list[p].name;
    let n1 = explicit@.len() as int;
    let n2 = n1 + config.dynamic_plugins@.len();
    assert forall|m: int| 0 <= m < n1 && m < p implies (#[trigger] explicit@[m])@
        != loaded@[i].name@ by {
        assert(list[m].name == names[m] && names[m] == explicit@[m]@);
    }
    assert forall|m: int|
        0 <= m < config.dynamic_plugins@.len() && n1 + m < p implies (
    #[trigger] config.dynamic_plugins@[m]).name@ != loaded@[i].name@ by {
        assert(list[n1 + m].name == config.dynamic_plugins@[m].name@);
    }
    if p < n1 {
        assert(list[p].source == Source::Explicit(p as usize));
        assert(names[p] == explicit@[p]@);
    } else if p < n2 {
        assert(list[p].source == Source::Dynamic((p - n1) as usize));
    } else {
        assert(list[p].source == Source::Static((p - n2) as usize));
        assert forall|m: int|
            0 <= m < p - n2 && (#[trigger] statics@[m]).api_version == 1 implies statics@[m].name@
            != loaded@[i].name@ by {
            assert(list[n2 + m].name == statics@[m].name@);
            assert(list[n2 + m].api_version == 1);
        }
    }
}

proof fn lemma_picked_is_first(config: HostConfig, list: Seq<host::CandidateView>, i: int)
    requires
        0 <= i < host::picked(config, list).len(),
    ensures
        exists|p: int|
            0 <= p < list.len() && #[trigger] list[p] == host::picked(config, list)[i] && forall|
                q: int,
            |
                0 <= q < p && (#[trigger] list[q]).api_version == 1 ==> list[q].name
                    != list[p].name,
    decreases list.len(),
{
    let rest = list.drop_last();
    let before = host::picked(config, rest);
    if i < before.len() {
        lemma_picked_is_first(config, rest, i);
        let p = choose|p: int|
            0 <= p < rest.len() && #[trigger] rest[p] == before[i] && forall|q: int|
                0 <= q < p && (#[trigger] rest[q]).api_version == 1 ==> rest[q].name
                    != rest[p].name;
        assert(list[p] == rest[p]);
        assert forall|q: int| 0 <= q < p && (#[trigger] list[q]).api_version == 1 implies list[q].name
            != list[p].name by {
            assert(rest[q] == list[q]);
        }
    } else {
        let p = list.len() - 1;
        assert(list[p] == list.last());
        assert forall|q: int| 0 <= q < p && (#[trigger] list[q]).api_version == 1 implies list[q].name
            != list[p].name by {
            if list[q].name == list[p].name {
                assert(rest[q] == list[q]);
                host::law_earlier_source_wins(config, rest, q);
                let (k, r) = choose|k: int, r: int|
                    0 <= k < before.len() && 0 <= r <= q && #[trigger] before[k]
                        == #[trigger] rest[r] && rest[r].name == rest[q].name;
                assert(host::candidate_names(before)[k] == list[p].name);
            }
        }
    }
}

} // verus!
