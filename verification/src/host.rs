//! The plugin host: which plugins run, in which order, with which context.
use crate::config::HostConfig;
use crate::plugin::PLUGIN_API_VERSION;
use crate::{config, plugin, text};
use vstd::prelude::*;

verus! {

/// Where a plugin comes from, and its place among those of that origin.
#[derive(Debug, Clone, Copy, PartialEq, Eq, Structural)]
pub enum Source {
    /// Handed to the builder.
    Explicit(usize),
    /// Declared in the configuration as a shared object.
    Dynamic(usize),
    /// Registered at link time.
    Static(usize),
}

/// A plugin that may load.
#[derive(Debug, Clone)]
pub struct Candidate {
    pub source: Source,
    pub name: String,
    /// The contract version it was built against.
    pub api_version: u32,
}

/// A statically registered plugin.
#[derive(Debug, Clone)]
pub struct StaticEntry {
    pub name: String,
    pub api_version: u32,
}

/// [`Candidate`] as a value.
#[verifier::ext_equal]
pub struct CandidateView {
    pub source: Source,
    pub name: Seq<char>,
    pub api_version: u32,
}

impl View for Candidate {
    type V = CandidateView;

    open spec fn view(&self) -> CandidateView {
        CandidateView { source: self.source, name: self.name@, api_version: self.api_version }
    }
}

/// The candidates of a list, as values.
pub open spec fn candidate_views(list: Seq<Candidate>) -> Seq<CandidateView> {
    list.map_values(|c: Candidate| c@)
}

pub open spec fn explicit_candidates(explicit: Seq<Seq<char>>) -> Seq<CandidateView> {
    Seq::new(
        explicit.len(),
        |i: int|
            CandidateView {
                source: Source::Explicit(i as usize),
                name: explicit[i],
                api_version: PLUGIN_API_VERSION,
            },
    )
}

pub open spec fn dynamic_candidates(specs: Seq<config::DynamicPluginSpec>) -> Seq<CandidateView> {
    Seq::new(
        specs.len(),
        |i: int|
            CandidateView {
                source: Source::Dynamic(i as usize),
                name: specs[i].name@,
                api_version: PLUGIN_API_VERSION,
            },
    )
}

pub open spec fn static_candidates(entries: Seq<StaticEntry>) -> Seq<CandidateView> {
    Seq::new(
        entries.len(),
        |i: int|
            CandidateView {
                source: Source::Static(i as usize),
                name: entries[i].name@,
                api_version: entries[i].api_version,
            },
    )
}

/// All candidates in order of precedence: explicit, then dynamic, then, where
/// discovery is on, static.
pub open spec fn candidates(
    config: HostConfig,
    explicit: Seq<Seq<char>>,
    statics: Seq<StaticEntry>,
    discover: bool,
) -> Seq<CandidateView> {
    explicit_candidates(explicit) + dynamic_candidates(config.dynamic_plugins@) + if discover {
        static_candidates(statics)
    } else {
        Seq::empty()
    }
}

/// The names of a list of candidates.
pub open spec fn candidate_names(list: Seq<CandidateView>) -> Seq<Seq<char>> {
    list.map_values(|c: CandidateView| c.name)
}

/// The candidates that load: those that are enabled and of this contract version,
/// each name once, the first of a name before any other.
pub open spec fn picked(config: HostConfig, list: Seq<CandidateView>) -> Seq<CandidateView>
    decreases list.len(),
{
    if list.len() == 0 {
        Seq::empty()
    } else {
        let before = picked(config, list.drop_last());
        let c = list.last();
        if c.api_version == PLUGIN_API_VERSION && config.enables(c.name) && !candidate_names(
            before,
        ).contains(c.name) {
            before.push(c)
        } else {
            before
        }
    }
}

/// Whether a list of candidates has one of this name.
fn has_name(list: &Vec<Candidate>, name: &str) -> (yes: bool)
    ensures
        yes == candidate_names(candidate_views(list@)).contains(name@),
{
    let ghost all = candidate_names(candidate_views(list@));
    let mut i: usize = 0;
    while i < list.len()
        invariant
            i <= list@.len(),
            all == candidate_names(candidate_views(list@)),
            forall|j: int| 0 <= j < i ==> all[j] != name@,
        decreases list@.len() - i,
    {
        assert(all[i as int] == list@[i as int].name@);
        if text::same(list[i].name.as_str(), name) {
            return true;
        }
        i = i + 1;
    }
    false
}

fn offer(config: &HostConfig, loaded: &mut Vec<Candidate>, c: Candidate)
    ensures
        candidate_views(final(loaded)@) == (if c.api_version == PLUGIN_API_VERSION
            && config.enables(c.name@) && !candidate_names(candidate_views(old(loaded)@)).contains(
            c.name@,
        ) {
            candidate_views(old(loaded)@).push(c@)
        } else {
            candidate_views(old(loaded)@)
        }),
{
    if c.api_version == PLUGIN_API_VERSION && config.is_enabled(c.name.as_str()) && !has_name(
        loaded,
        c.name.as_str(),
    ) {
        loaded.push(c);
        assert(candidate_views(loaded@) =~= candidate_views(old(loaded)@).push(c@));
    }
}

/// Resolves all plugin sources into the plugins that load, in load order.
///
/// `explicit` are the names of the plugins handed to the builder and `statics`
/// the statically registered ones, which count where `discover` is set.
pub fn resolve(
    config: &HostConfig,
    explicit: &Vec<String>,
    statics: &Vec<StaticEntry>,
    discover: bool,
) -> (loaded: Vec<Candidate>)
    ensures
        candidate_views(loaded@) == picked(
            *config,
            candidates(*config, plugin::names(explicit@), statics@, discover),
        ),
{
    let ghost all = candidates(*config, plugin::names(explicit@), statics@, discover);
    let ghost n1 = explicit@.len() as int;
    let ghost n2 = n1 + config.dynamic_plugins@.len();
    let mut loaded: Vec<Candidate> = Vec::new();
    assert(all.take(0) =~= Seq::empty());
    assert(candidate_views(loaded@) =~= Seq::empty());
    let mut i: usize = 0;
    while i < explicit.len()
        invariant
            i <= explicit@.len() == n1,
            all == candidates(*config, plugin::names(explicit@), statics@, discover),
            candidate_views(loaded@) == picked(*config, all.take(i as int)),
        decreases explicit@.len() - i,
    {
        let c: Candidate = Candidate {
            source: Source::Explicit(i),
            name: explicit[i].clone(),
            api_version: PLUGIN_API_VERSION,
        };
        assert(all[i as int] == c@);
        assert(all.take(i + 1).drop_last() =~= all.take(i as int));
        offer(config, &mut loaded, c);
        i = i + 1;
    }
    let mut i: usize = 0;
    while i < config.dynamic_plugins.len()
        invariant
            i <= config.dynamic_plugins@.len(),
            n1 == explicit@.len(),
            n2 == n1 + config.dynamic_plugins@.len(),
            all == candidates(*config, plugin::names(explicit@), statics@, discover),
            candidate_views(loaded@) == picked(*config, all.take(n1 + i)),
        decreases config.dynamic_plugins@.len() - i,
    {
        let c: Candidate = Candidate {
            source: Source::Dynamic(i),
            name: config.dynamic_plugins[i].name.clone(),
            api_version: PLUGIN_API_VERSION,
        };
        assert(all[n1 + i] == c@);
        assert(all.take(n1 + i + 1).drop_last() =~= all.take(n1 + i));
        offer(config, &mut loaded, c);
        i = i + 1;
    }
    if !discover {
        assert(all.take(n2) =~= all);
        return loaded;
    }
    let mut i: usize = 0;
    while i < statics.len()
        invariant
            i <= statics@.len(),
            discover,
            n1 == explicit@.len(),
            n2 == n1 + config.dynamic_plugins@.len(),
            all == candidates(*config, plugin::names(explicit@), statics@, discover),
            candidate_views(loaded@) == picked(*config, all.take(n2 + i)),
        decreases statics@.len() - i,
    {
        let c: Candidate = Candidate {
            source: Source::Static(i),
            name: statics[i].name.clone(),
            api_version: statics[i].api_version,
        };
        assert(all[n2 + i] == c@);
        assert(all.take(n2 + i + 1).drop_last() =~= all.take(n2 + i));
        offer(config, &mut loaded, c);
        i = i + 1;
    }
    assert(all.take(n2 + statics@.len()) =~= all);
    loaded
}

/// The places of the declared shared objects that are to be opened: opening one
/// runs its code, so a disabled one is not opened.
pub open spec fn opened(config: HostConfig, specs: Seq<config::DynamicPluginSpec>) -> Seq<int>
    decreases specs.len(),
{
    if specs.len() == 0 {
        Seq::empty()
    } else if config.enables(specs.last().name@) {
        opened(config, specs.drop_last()).push(specs.len() - 1)
    } else {
        opened(config, specs.drop_last())
    }
}

/// Which declared shared objects to open, by place, in order.
pub fn dynamic_to_open(config: &HostConfig) -> (out: Vec<usize>)
    ensures
        out@.map_values(|p: usize| p as int) == opened(*config, config.dynamic_plugins@),
{
    let ghost specs = config.dynamic_plugins@;
    let mut out: Vec<usize> = Vec::new();
    let mut i: usize = 0;
    assert(specs.take(0) =~= Seq::empty());
    while i < config.dynamic_plugins.len()
        invariant
            i <= specs.len(),
            specs == config.dynamic_plugins@,
            out@.map_values(|p: usize| p as int) == opened(*config, specs.take(i as int)),
        decreases specs.len() - i,
    {
        let ghost before = out@;
        assert(specs.take(i + 1).drop_last() =~= specs.take(i as int));
        assert(specs.take(i + 1).last() == specs[i as int]);
        if config.is_enabled(config.dynamic_plugins[i].name.as_str()) {
            out.push(i);
            assert(out@.map_values(|p: usize| p as int) =~= before.map_values(
                |p: usize| p as int,
            ).push(i as int));
        }
        i = i + 1;
    }
    assert(specs.take(specs.len() as int) =~= specs);
    out
}

/// A shared object is opened exactly if the configuration enables its declared
/// name.
pub proof fn law_disabled_library_is_not_opened(
    config: HostConfig,
    specs: Seq<config::DynamicPluginSpec>,
    place: int,
)
    ensures
        opened(config, specs).contains(place) <==> 0 <= place < specs.len() && config.enables(
            specs[place].name@,
        ),
    decreases specs.len(),
{
    if specs.len() > 0 {
        let rest = specs.drop_last();
        law_disabled_library_is_not_opened(config, rest, place);
        let n = specs.len() - 1;
        if config.enables(specs.last().name@) {
            let all = opened(config, rest).push(n);
            assert(all[all.len() - 1] == n);
            if opened(config, rest).contains(place) {
                let p = choose|p: int|
                    0 <= p < opened(config, rest).len() && opened(config, rest)[p] == place;
                assert(all[p] == place);
            }
            if all.contains(place) && place != n {
                let p = choose|p: int| 0 <= p < all.len() && all[p] == place;
                assert(opened(config, rest)[p] == place);
            }
        }
    }
}

/// No two plugins of one name load, and every one that loads is enabled and of
/// this contract version.
pub proof fn law_loaded_plugins_are_distinct_and_enabled(
    config: HostConfig,
    list: Seq<CandidateView>,
)
    ensures
        candidate_names(picked(config, list)).no_duplicates(),
        forall|i: int|
            0 <= i < picked(config, list).len() ==> config.enables(
                (#[trigger] picked(config, list)[i]).name,
            ) && picked(config, list)[i].api_version == PLUGIN_API_VERSION,
    decreases list.len(),
{
    if list.len() > 0 {
        law_loaded_plugins_are_distinct_and_enabled(config, list.drop_last());
        let before = picked(config, list.drop_last());
        let after = picked(config, list);
        let names = candidate_names(before);
        if after.len() > before.len() {
            assert(candidate_names(after) =~= names.push(list.last().name));
            assert(candidate_names(after).no_duplicates()) by {
                assert forall|i: int, j: int|
                    0 <= i < j < candidate_names(after).len() implies candidate_names(after)[i]
                    != candidate_names(after)[j] by {
                    if j == names.len() {
                        assert(names[i] == candidate_names(after)[i]);
                        assert(names.contains(names[i]));
                    }
                }
            }
        }
    }
}

/// An earlier source wins: where a candidate could load, the plugin that loads
/// under its name stands at its place or before it.
pub proof fn law_earlier_source_wins(config: HostConfig, list: Seq<CandidateView>, i: int)
    requires
        0 <= i < list.len(),
        list[i].api_version == PLUGIN_API_VERSION,
        config.enables(list[i].name),
    ensures
        exists|k: int, p: int|
            0 <= k < picked(config, list).len() && 0 <= p <= i && #[trigger] picked(config, list)[k]
                == #[trigger] list[p] && list[p].name == list[i].name,
    decreases list.len(),
{
    let rest = list.drop_last();
    let before = picked(config, rest);
    let after = picked(config, list);
    if i < rest.len() {
        law_earlier_source_wins(config, rest, i);
        let (k, p) = choose|k: int, p: int|
            0 <= k < before.len() && 0 <= p <= i && #[trigger] before[k] == #[trigger] rest[p]
                && rest[p].name == rest[i].name;
        assert(after[k] == list[p]);
    } else {
        if candidate_names(before).contains(list[i].name) {
            let k = choose|k: int|
                0 <= k < candidate_names(before).len() && candidate_names(before)[k]
                    == list[i].name;
            lemma_picked_from(config, rest, k);
            let p = choose|p: int| 0 <= p < rest.len() && before[k] == #[trigger] rest[p];
            assert(after[k] == list[p]);
        } else {
            assert(after[before.len() as int] == list[i]);
        }
    }
}

proof fn lemma_picked_from(config: HostConfig, list: Seq<CandidateView>, k: int)
    requires
        0 <= k < picked(config, list).len(),
    ensures
        exists|p: int| 0 <= p < list.len() && picked(config, list)[k] == #[trigger] list[p],
    decreases list.len(),
{
    let rest = list.drop_last();
    let before = picked(config, rest);
    if k < before.len() {
        lemma_picked_from(config, rest, k);
        let p = choose|p: int| 0 <= p < rest.len() && before[k] == #[trigger] rest[p];
        assert(picked(config, list)[k] == list[p]);
    } else {
        assert(picked(config, list)[k] == list[list.len() - 1]);
    }
}

/// The rank of an origin: explicit, then dynamic, then static.
pub open spec fn rank(source: Source) -> int {
    match source {
        Source::Explicit(_) => 0,
        Source::Dynamic(_) => 1,
        Source::Static(_) => 2,
    }
}

/// No candidate comes before one of an earlier origin.
pub open spec fn by_rank(list: Seq<CandidateView>) -> bool {
    forall|i: int, j: int|
        0 <= i < j < list.len() ==> rank((#[trigger] list[i]).source) <= rank(
            (#[trigger] list[j]).source,
        )
}

/// Explicit plugins load before dynamic ones, and these before static ones.
pub proof fn law_plugins_load_by_origin(
    config: HostConfig,
    explicit: Seq<Seq<char>>,
    statics: Seq<StaticEntry>,
    discover: bool,
)
    ensures
        by_rank(picked(config, candidates(config, explicit, statics, discover))),
{
    let list = candidates(config, explicit, statics, discover);
    let n1 = explicit.len();
    let n2 = n1 + config.dynamic_plugins@.len();
    assert forall|i: int| 0 <= i < list.len() implies rank((#[trigger] list[i]).source) == (if i
        < n1 {
        0int
    } else if i < n2 {
        1
    } else {
        2
    }) by {
    }
    lemma_picked_by_rank(config, list);
}

proof fn lemma_picked_by_rank(config: HostConfig, list: Seq<CandidateView>)
    requires
        by_rank(list),
    ensures
        by_rank(picked(config, list)),
    decreases list.len(),
{
    if list.len() > 0 {
        let rest = list.drop_last();
        assert(by_rank(rest));
        lemma_picked_by_rank(config, rest);
        let before = picked(config, rest);
        let after = picked(config, list);
        assert forall|i: int, j: int| 0 <= i < j < after.len() implies rank(
            (#[trigger] after[i]).source,
        ) <= rank((#[trigger] after[j]).source) by {
            assert(after[i] == before[i]);
            if j == before.len() {
                lemma_picked_from(config, rest, i);
                let p = choose|p: int| 0 <= p < rest.len() && before[i] == #[trigger] rest[p];
                assert(list[p] == rest[p]);
                assert(after[j] == list[list.len() - 1]);
            } else {
                assert(after[j] == before[j]);
            }
        }
    }
}

/// What a plugin is initialised with.
#[derive(Debug, Clone)]
pub struct PluginSetup {
    pub name: String,
    /// The enrolled identity of this endpoint/host.
    pub agent_id: String,
    /// The plugin's own directory.
    pub data_dir: String,
    /// The plugin's configuration subtree, as JSON text.
    pub config: String,
}

/// A path below a directory. An absolute path stands for itself.
pub open spec fn path_below(dir: Seq<char>, name: Seq<char>) -> Seq<char> {
    if name.len() > 0 && name[0] == '/' {
        name
    } else if dir.len() == 0 || dir.last() == '/' {
        dir + name
    } else {
        dir + seq!['/'] + name
    }
}

/// The path of `name` below `dir`, or `name` itself if it is an absolute path.
pub fn join_path(dir: &str, name: &str) -> (path: String)
    ensures
        path@ == path_below(dir@, name@),
{
    let below: Vec<char> = text::chars_of(name);
    if below.len() > 0 && below[0] == '/' {
        return name.to_owned();
    }
    let chars: Vec<char> = text::chars_of(dir);
    let n: usize = chars.len();
    let mut path: String = dir.to_owned();
    if n > 0 && chars[n - 1] != '/' {
        path.push('/');
    }
    text::push_str(&mut path, name);
    assert(path@ =~= path_below(dir@, name@));
    path
}

/// The context that a plugin is initialised with.
pub fn plugin_setup(config: &HostConfig, name: &str) -> (setup: PluginSetup)
    ensures
        setup.name@ == name@,
        setup.agent_id@ == config.agent_id@,
        setup.data_dir@ == path_below(config.data_dir@, name@),
        setup.config@ == config::subtree(config.plugins@, name@),
{
    PluginSetup {
        name: name.to_owned(),
        agent_id: config.agent_id.clone(),
        data_dir: join_path(config.data_dir.as_str(), name),
        config: config.plugin_config(name),
    }
}

/// What woke a dispatch or handler task.
#[derive(Debug, Clone, Copy, PartialEq, Eq, Structural)]
pub enum Wake {
    /// An event arrived.
    Event,
    /// The queue closed.
    QueueClosed,
    /// The shutdown signal changed to this.
    Shutdown(bool),
}

/// What a dispatch or handler task does next.
#[derive(Debug, Clone, Copy, PartialEq, Eq, Structural)]
pub enum TaskStep {
    /// Handle the event, then wait again.
    Handle,
    /// Wait again.
    Wait,
    /// End the task.
    Stop,
}

/// A task handles events until its queue closes or shutdown is signalled.
pub fn task_step(wake: Wake) -> (step: TaskStep)
    ensures
        step == (match wake {
            Wake::Event => TaskStep::Handle,
            Wake::QueueClosed => TaskStep::Stop,
            Wake::Shutdown(true) => TaskStep::Stop,
            Wake::Shutdown(false) => TaskStep::Wait,
        }),
{
    match wake {
        Wake::Event => TaskStep::Handle,
        Wake::QueueClosed => TaskStep::Stop,
        Wake::Shutdown(now) => if now {
            TaskStep::Stop
        } else {
            TaskStep::Wait
        },
    }
}

} // verus!
