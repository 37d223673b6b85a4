use aegis::agent::{
    choose_secret, enroll_request, identity_dir, inject_server, judge_enroll_response,
    os_descriptor, parse_server_url, read_hostname, resolve_enroll_secret, EnrollVerdict,
    SecretError, SecretSource, ServerUrlError,
};
use aegis::bus::{delivery, fan_out, stamp, BusMetrics, Delivery, TrySend};
use aegis::cert::{cert_paths, needs_new_cert, temp_name, KEY_MODE};
use aegis::config::{DynamicPluginSpec, HostConfig};
use aegis::dashboard::{static_handler, Served};
use aegis::event::{Event, EventPayload, Verdict};
use aegis::example::{ExamplePlugin, LOADED_MARKER};
use aegis::host::{
    dynamic_to_open, join_path, plugin_setup, resolve, task_step, Source, StaticEntry, TaskStep,
    Wake,
};
use aegis::loader::{check_name, check_registration, check_symbols, EntryCall, LoadError};
use aegis::plugin::{PluginKind, PluginMetadata, Subscriptions, PLUGIN_API_VERSION};
use aegis::proto::Message;
use aegis::registry::{send_outcome, Enqueue, Router, RouterError};

#[test]
fn payload_kinds_are_stable() {
    assert_eq!(
        EventPayload::Heartbeat { uptime_s: 1 }.default_kind(),
        "heartbeat"
    );
    assert_eq!(
        EventPayload::Detection {
            subject: "s".into(),
            verdict: Verdict::Agent,
            confidence_bits: 0.9f64.to_bits(),
            model: "m".into(),
            reasons: vec![],
            features: vec![],
        }
        .default_kind(),
        "detection"
    );
}

#[test]
fn events_carry_labels_and_kinds() {
    let ev = Event::new("agent-1", "p", EventPayload::Custom("{}".into()))
        .with_label("host", "lab")
        .with_label("host", "prod")
        .with_label("zone", "z")
        .with_kind("other");
    assert_eq!(ev.kind, "other");
    assert_eq!(ev.labels.get("host").as_deref(), Some("prod"));
    assert_eq!(ev.labels.get("none"), None);
    assert_eq!(ev.labels.len(), 2);
    assert_eq!(ev.labels.entry(1), ("zone".to_string(), "z".to_string()));
}

#[test]
fn subscriptions_match_their_kinds() {
    let subs = Subscriptions::kinds(&["a", "b", "a"]);
    assert!(subs.matches("a") && subs.matches("b") && !subs.matches("c"));
    match &subs {
        Subscriptions::Kinds(list) => assert_eq!(list.len(), 2),
        other => panic!("unexpected: {other:?}"),
    }
    assert!(Subscriptions::All.matches("x"));
    assert!(!Subscriptions::Nothing.matches("x"));
    let meta = PluginMetadata::new("n", "1", "d", PluginKind::Control);
    assert_eq!(meta.api_version, PLUGIN_API_VERSION);
}

#[test]
fn disabled_wins_over_enabled() {
    let mut config = HostConfig::new("a");
    assert!(config.is_enabled("x"));
    assert_eq!(config.data_dir, "./data");
    assert_eq!(config.queue_depth, 4096);
    config.enabled_plugins = Some(vec!["x".into(), "y".into()]);
    assert!(config.is_enabled("x"));
    assert!(!config.is_enabled("z"));
    config.disabled_plugins = vec!["x".into()];
    assert!(!config.is_enabled("x"));
    config.plugins = vec![("y".into(), "{\"k\":1}".into())];
    assert_eq!(config.plugin_config("y"), "{\"k\":1}");
    assert_eq!(config.plugin_config("x"), "null");
}

fn spec(name: &str) -> DynamicPluginSpec {
    DynamicPluginSpec {
        name: name.into(),
        path: format!("/plugins/{name}.so"),
    }
}

#[test]
fn resolution_prefers_explicit_then_dynamic_then_static() {
    let mut config = HostConfig::new("a");
    config.dynamic_plugins = vec![spec("d"), spec("shared"), spec("off")];
    config.disabled_plugins = vec!["off".into()];
    let statics = vec![
        StaticEntry { name: "shared".into(), api_version: PLUGIN_API_VERSION },
        StaticEntry { name: "s".into(), api_version: PLUGIN_API_VERSION },
        StaticEntry { name: "stale".into(), api_version: PLUGIN_API_VERSION + 1 },
        StaticEntry { name: "s".into(), api_version: PLUGIN_API_VERSION },
    ];
    let explicit = vec!["e".to_string(), "d".to_string(), "e".to_string()];
    let loaded = resolve(&config, &explicit, &statics, true);
    let names: Vec<&str> = loaded.iter().map(|c| c.name.as_str()).collect();
    assert_eq!(names, vec!["e", "d", "shared", "s"]);
    assert_eq!(loaded[1].source, Source::Explicit(1));
    assert_eq!(loaded[2].source, Source::Dynamic(1));
    assert_eq!(loaded[3].source, Source::Static(1));
    assert_eq!(resolve(&config, &explicit, &statics, false).len(), 3);
    // A disabled library is not opened.
    assert_eq!(dynamic_to_open(&config), vec![0, 1]);
}

#[test]
fn libraries_are_checked_before_adoption() {
    assert_eq!(check_symbols(false, false), Err(LoadError::MissingEntry));
    assert_eq!(check_symbols(true, false), Err(LoadError::MissingFree));
    assert_eq!(check_symbols(true, true), Ok(()));
    assert_eq!(
        check_registration(EntryCall::Panicked),
        Err(LoadError::EntryPanicked)
    );
    assert_eq!(
        check_registration(EntryCall::Null),
        Err(LoadError::NullRegistration)
    );
    assert_eq!(
        check_registration(EntryCall::Registered(PLUGIN_API_VERSION)),
        Ok(())
    );
    let e = check_registration(EntryCall::Registered(9)).unwrap_err();
    assert_eq!(
        e.message("p.so"),
        "dynamic plugin p.so has API version 9 but host expects 1"
    );
    assert_eq!(check_name(&spec("x"), "x"), Ok(()));
    let e = check_name(&spec("x"), "y").unwrap_err();
    assert_eq!(e, LoadError::NameMismatch("y".into()));
    assert_eq!(e.message("p.so"), "dynamic plugin p.so reports the name y");
    assert_eq!(
        LoadError::MissingFree.message("p.so"),
        "missing `aegis_plugin_free_registration` symbol in p.so"
    );
    assert_eq!(
        LoadError::MissingEntry.message("p.so"),
        "missing `aegis_plugin_entry` symbol in p.so"
    );
    assert_eq!(
        LoadError::EntryPanicked.message("p"),
        "dynamic plugin p panicked in its entrypoint"
    );
    assert_eq!(
        LoadError::NullRegistration.message("p"),
        "dynamic plugin p returned a null registration"
    );
}

#[test]
fn plugins_are_set_up_below_the_data_dir() {
    let mut config = HostConfig::new("agent-7");
    config.plugins = vec![("p".into(), "{}".into())];
    let setup = plugin_setup(&config, "p");
    assert_eq!(setup.agent_id, "agent-7");
    assert_eq!(setup.data_dir, "./data/p");
    assert_eq!(setup.config, "{}");
    assert_eq!(join_path("d/", "p"), "d/p");
    assert_eq!(join_path("", "p"), "p");
    assert_eq!(join_path("d", "/p"), "/p");
    assert_eq!(join_path("d", ""), "d/");
}

#[test]
fn tasks_run_until_shutdown_or_close() {
    assert_eq!(task_step(Wake::Event), TaskStep::Handle);
    assert_eq!(task_step(Wake::QueueClosed), TaskStep::Stop);
    assert_eq!(task_step(Wake::Shutdown(true)), TaskStep::Stop);
    assert_eq!(task_step(Wake::Shutdown(false)), TaskStep::Wait);
}

#[test]
fn bus_policy_and_routing() {
    for k in ["detection", "score", "alert"] {
        assert_eq!(delivery(k), Delivery::Wait);
    }
    assert_eq!(delivery("input.keystroke"), Delivery::Try);

    let routes = vec![
        Subscriptions::All,
        Subscriptions::Nothing,
        Subscriptions::kinds(&["score"]),
    ];
    assert_eq!(fan_out(&routes, "score"), vec![0, 2]);
    assert_eq!(fan_out(&routes, "alert"), vec![0]);

    let mut m = BusMetrics::new();
    m.record_ingress(TrySend::Full);
    m.record_ingress(TrySend::Closed);
    m.record_fanout(TrySend::Queued);
    assert_eq!(m.ingress_dropped(), 1);
    assert_eq!(m.fanout_dropped(), 0);
    m.record_fanout(TrySend::Full);
    assert_eq!(m.fanout_dropped(), 1);

    let ev = Event::new("forged", "forged", EventPayload::Heartbeat { uptime_s: 1 });
    let id = ev.id;
    let out = stamp(ev, "plugin-x", "agent-1");
    assert_eq!(out.source, "plugin-x");
    assert_eq!(out.agent_id, "agent-1");
    assert_eq!(out.id, id);
}

#[test]
fn router_is_last_writer_wins() {
    let mut r = Router::new();
    assert_eq!(r.channel("a"), None);
    r.register("a", 1);
    r.register("b", 2);
    r.register("a", 3);
    assert_eq!(r.channel("a"), Some(3));
    assert_eq!(r.connected_count(), 2);
    // The replaced session cannot take its successor down.
    assert!(!r.unregister("a", 1));
    assert!(r.is_connected("a"));
    assert!(r.unregister("a", 3));
    assert!(!r.is_connected("a"));
    assert!(!r.unregister("ghost", 1));
    assert_eq!(r.channel("b"), Some(2));

    assert_eq!(send_outcome(false, Enqueue::Queued), Err(RouterError::NotConnected));
    assert_eq!(send_outcome(true, Enqueue::Queued), Ok(()));
    assert_eq!(send_outcome(true, Enqueue::Full), Err(RouterError::ChannelFull));
    assert_eq!(send_outcome(true, Enqueue::Closed), Err(RouterError::NotConnected));
    assert_eq!(RouterError::ChannelFull.to_string(), "agent command channel is full");
}

#[test]
fn example_plugin_announces_itself() {
    let p = ExamplePlugin;
    assert_eq!(p.metadata().name, "example-plugin");
    assert!(!p.subscriptions().matches("anything"));
    let ev = p.loaded_event("agent-1");
    assert_eq!(ev.kind, "custom");
    match ev.payload {
        EventPayload::Custom(json) => {
            let v: serde_json::Value = serde_json::from_str(&json).unwrap();
            assert_eq!(v["marker"], LOADED_MARKER);
            assert_eq!(v["api_version"], PLUGIN_API_VERSION);
        }
        other => panic!("unexpected: {other:?}"),
    }
}

#[test]
fn server_urls_are_parsed() {
    let ok = |s: &str| parse_server_url(s).unwrap();
    assert_eq!(ok("https://h:9443/"), ("h".to_string(), 9443));
    assert_eq!(ok(" http://h "), ("h".to_string(), 8443));
    assert_eq!(ok("h:1"), ("h".to_string(), 1));
    assert_eq!(ok(":1"), (":1".to_string(), 8443));
    assert_eq!(parse_server_url("https:///"), Err(ServerUrlError::Empty));
    assert_eq!(parse_server_url("h:x"), Err(ServerUrlError::InvalidPort));
    assert_eq!(parse_server_url("h:"), Err(ServerUrlError::InvalidPort));
}

#[test]
fn enrollment_secrets_are_resolved() {
    assert_eq!(choose_secret(Some("-"), Some("f"), Some("t")), SecretSource::BlobStdin);
    assert_eq!(
        choose_secret(Some("b"), None, None),
        SecretSource::BlobFile("b".into())
    );
    assert_eq!(
        choose_secret(None, Some("f"), Some("t")),
        SecretSource::TokenFile("f".into())
    );
    assert_eq!(choose_secret(None, None, Some("t")), SecretSource::Token("t".into()));
    assert_eq!(choose_secret(None, None, None), SecretSource::Missing);

    let pin = "ab".repeat(32);
    assert_eq!(
        resolve_enroll_secret(Some(" tok\n"), None, Some(&pin)),
        Ok(("tok".to_string(), [0xab; 32]))
    );
    assert_eq!(
        resolve_enroll_secret(None, Some(" tok"), Some(&pin)),
        Ok((" tok".to_string(), [0xab; 32]))
    );
    assert_eq!(
        resolve_enroll_secret(None, None, Some(&pin)),
        Err(SecretError::Missing)
    );
    assert_eq!(
        resolve_enroll_secret(None, Some("t"), None),
        Err(SecretError::PinRequired)
    );
    assert_eq!(
        resolve_enroll_secret(None, Some("t"), Some("zz")),
        Err(SecretError::BadPin)
    );
    assert_eq!(
        SecretError::Missing.message(),
        "provide --enroll-blob, --token-file, or --token"
    );
}

#[test]
fn enrollment_answers_are_judged() {
    let answer = |accepted: bool, reason: Option<&str>| Message::EnrollResponse {
        accepted,
        agent_id: "id-1".into(),
        reason: reason.map(|r| r.to_string()),
    };
    assert_eq!(
        judge_enroll_response(&answer(true, None)),
        EnrollVerdict::Enrolled("id-1".into())
    );
    assert_eq!(
        judge_enroll_response(&answer(false, Some("no"))),
        EnrollVerdict::Rejected("no".into())
    );
    assert_eq!(
        judge_enroll_response(&answer(false, None)),
        EnrollVerdict::Rejected("no reason given".into())
    );
    assert_eq!(judge_enroll_response(&Message::Pong), EnrollVerdict::Unexpected);
    assert_eq!(identity_dir("./data"), "./data/plugin-transport");
    assert!(matches!(
        enroll_request("t", "h", "o", vec![1]),
        Message::EnrollRequest { .. }
    ));
    assert_eq!(read_hostname(Some("box\n")), "box");
    assert_eq!(read_hostname(None), "unknown");
    assert_eq!(os_descriptor("linux", Some(" 6.1 \n")), "linux 6.1");
    assert_eq!(os_descriptor("linux", Some(" ")), "linux");
    assert_eq!(os_descriptor("linux", None), "linux");
}

#[test]
fn server_is_injected_unless_pinned() {
    let server = |c: &HostConfig| {
        let v: serde_json::Value =
            serde_json::from_str(&c.plugin_config("plugin-transport")).unwrap();
        v["server"].as_str().map(|s| s.to_string())
    };
    let mut c = HostConfig::new("a");
    c.plugins = vec![("other".into(), "{\"x\":1}".into())];
    inject_server(&mut c, "https://s:1");
    assert_eq!(server(&c).as_deref(), Some("https://s:1"));
    assert_eq!(c.plugin_config("other"), "{\"x\":1}");
    // A second injection does not override the first.
    inject_server(&mut c, "https://t:2");
    assert_eq!(server(&c).as_deref(), Some("https://s:1"));
    // A subtree that is no object stays as it is.
    c.plugins = vec![("plugin-transport".into(), "[1]".into())];
    inject_server(&mut c, "https://s:1");
    assert_eq!(c.plugin_config("plugin-transport"), "[1]");
}

#[test]
fn dashboard_serves_assets_and_falls_back() {
    let assets = vec!["index.html".to_string(), "app/main.css".to_string()];
    match static_handler("/app/main.css", &assets) {
        Served::Asset(1, mime) => assert!(mime.starts_with("text/css")),
        other => panic!("unexpected: {other:?}"),
    }
    match static_handler("/", &assets) {
        Served::Asset(0, mime) => assert!(mime.starts_with("text/html")),
        other => panic!("unexpected: {other:?}"),
    }
    assert_eq!(static_handler("/agents/a1", &assets), Served::Index(0));
    assert_eq!(static_handler("/x", &Vec::new()), Served::Missing);
}

#[test]
fn tls_material_paths() {
    let p = cert_paths("data");
    assert_eq!(p.cert, "data/server/tls.crt");
    assert_eq!(p.key, "data/server/tls.key");
    assert!(needs_new_cert(true, false));
    assert!(!needs_new_cert(true, true));
    assert_eq!(temp_name("tls.key", 42), ".tls.key.tmp.42");
    assert_eq!(KEY_MODE, 0o600);
}
