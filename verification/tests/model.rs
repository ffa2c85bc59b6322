use llm_router::config::BackendConfig;
use llm_router::config::Config;
use llm_router::discovery::build_snapshot;
use llm_router::discovery::models_url;
use llm_router::discovery::tags_url;
use llm_router::discovery::BackendReport;
use llm_router::discovery::DiscoveryCycle;
use llm_router::discovery::DiscoveryQuery;
use llm_router::discovery::FetchOutcome;
use llm_router::discovery::Snapshot;
use llm_router::model::AppState;
use llm_router::model::ModelInfo;
use llm_router::model::ModelTag;
use llm_router::model::RoutingTable;
use llm_router::model::TagDetails;

fn backend(name: &str, url: &str) -> BackendConfig {
    BackendConfig { name: name.to_string(), url: url.to_string(), auth: None }
}

fn single_backend() -> Config {
    Config { refresh_interval: 1, backends: vec![backend("test", "http://127.0.0.1:9000")] }
}

fn model(id: &str) -> ModelInfo {
    ModelInfo { id: id.to_string(), object: "model".to_string(), created: 0, owned_by: "test".to_string() }
}

fn tag(name: &str) -> ModelTag {
    ModelTag {
        name: name.to_string(),
        model: name.to_string(),
        modified_at: "2025-07-02T09:22:44.205115046Z".to_string(),
        size: 1548689911,
        digest: "test-digest".to_string(),
        details: TagDetails {
            format: "gguf".to_string(),
            family: "test".to_string(),
            parameter_size: "7B".to_string(),
            quantization_level: "Q4_K_M".to_string(),
        },
    }
}

/// What a stand-in backend answers to a GET query.
struct Backend {
    models: FetchOutcome<Vec<ModelInfo>>,
    tags: FetchOutcome<Vec<ModelTag>>,
}

fn copy_of<T: Clone>(outcome: &FetchOutcome<T>) -> FetchOutcome<T> {
    match outcome {
        FetchOutcome::TransportError => FetchOutcome::TransportError,
        FetchOutcome::Response { status, parsed } => FetchOutcome::Response { status: *status, parsed: parsed.clone() },
    }
}

/// Runs one discovery cycle of `state` against stand-in backends keyed by base
/// URL, as the discovery loop does, and returns the URLs that were queried.
fn run_cycle(state: &mut AppState, servers: &[(&str, Backend)]) -> Vec<String> {
    let find = |url: &str, path: &str| {
        servers.iter().find(|(base, _)| format!("{}{}", base, path) == url).map(|(_, server)| server)
    };
    let mut queried = Vec::new();
    let mut cycle = DiscoveryCycle::start(&state.config.backends);
    loop {
        cycle = match cycle.next_query() {
            DiscoveryQuery::GetModels { url } => {
                let outcome = match find(&url, "/v1/models") {
                    Some(server) => copy_of(&server.models),
                    None => FetchOutcome::TransportError,
                };
                queried.push(url);
                cycle.models_answered(outcome)
            },
            DiscoveryQuery::GetTags { url } => {
                let outcome = match find(&url, "/api/tags") {
                    Some(server) => copy_of(&server.tags),
                    None => FetchOutcome::TransportError,
                };
                queried.push(url);
                cycle.tags_answered(outcome)
            },
            DiscoveryQuery::Finished => break,
        };
    }
    state.install(cycle.finish());
    queried
}

fn listed(ids: &[&str]) -> BackendReport {
    BackendReport::Listed { models: ids.iter().map(|id| model(id)).collect(), tags: None }
}

fn ids(models: &[ModelInfo]) -> Vec<&str> {
    models.iter().map(|m| m.id.as_str()).collect()
}

#[test]
fn test_app_state_creation() {
    let config = Config { refresh_interval: 300, backends: vec![backend("test", "http://localhost:8000")] };
    let state = AppState::new(config);
    assert_eq!(state.config.refresh_interval, 300);
    assert!(state.tag_cache.is_empty());
    assert!(state.model_cache.is_empty());
    assert!(state.routing_table.is_empty());
    assert_eq!(state.config.backends.len(), 1);
    assert_eq!(state.config.backends[0].url, "http://localhost:8000");
}

#[test]
fn test_refresh_models_loop() {
    let mut state = AppState::new(single_backend());
    let server = Backend {
        models: FetchOutcome::Response { status: 200, parsed: Some(vec![model("model-1")]) },
        tags: FetchOutcome::Response { status: 200, parsed: Some(vec![tag("model-1")]) },
    };
    let queried = run_cycle(&mut state, &[("http://127.0.0.1:9000", server)]);
    assert_eq!(queried, vec!["http://127.0.0.1:9000/v1/models", "http://127.0.0.1:9000/api/tags"]);

    let cache = &state.model_cache;
    assert_eq!(cache.len(), 1, "Model cache should contain exactly 1 model");
    assert!(cache.iter().any(|m| m.id == "model-1"));

    let tags = &state.tag_cache;
    assert_eq!(tags.len(), 1, "Tag cache should contain exactly 1 tag");
    assert!(tags.iter().any(|t| t.name == "model-1"));

    let tag = &tags[0];
    assert_eq!(tag.details.format, "gguf");
    assert_eq!(tag.details.family, "test");
    assert_eq!(tag.size, 1548689911);

    assert!(state.routing_table.contains_key("model-1"));
    assert_eq!(state.lookup("model-1"), Some("http://127.0.0.1:9000".to_string()));
}

#[test]
fn test_refresh_models_loop_with_failed_tags() {
    let mut state = AppState::new(single_backend());
    let server = Backend {
        models: FetchOutcome::Response { status: 200, parsed: Some(vec![model("model-1")]) },
        tags: FetchOutcome::Response { status: 500, parsed: None },
    };
    let queried = run_cycle(&mut state, &[("http://127.0.0.1:9000", server)]);
    assert_eq!(queried.len(), 2);

    assert_eq!(state.model_cache.len(), 1, "Model cache should contain exactly 1 model");
    assert_eq!(state.tag_cache.len(), 0, "Tag cache should be empty after error");
}

#[test]
fn test_refresh_models_loop_connection_error() {
    let mut state = AppState::new(single_backend());
    let server = Backend {
        models: FetchOutcome::Response { status: 500, parsed: None },
        tags: FetchOutcome::Response { status: 500, parsed: None },
    };
    let queried = run_cycle(&mut state, &[("http://127.0.0.1:9000", server)]);
    assert_eq!(queried, vec!["http://127.0.0.1:9000/v1/models"]);

    assert_eq!(state.model_cache.len(), 0, "Cache should be empty after connection error");
    assert_eq!(state.routing_table.len(), 0, "Routing table should be empty after connection error");
}

#[test]
fn test_refresh_models_loop_invalid_json() {
    let mut state = AppState::new(single_backend());
    let server = Backend {
        models: FetchOutcome::Response { status: 200, parsed: None },
        tags: FetchOutcome::Response { status: 200, parsed: None },
    };
    run_cycle(&mut state, &[("http://127.0.0.1:9000", server)]);

    assert_eq!(state.model_cache.len(), 0, "Cache should be empty after JSON parsing error");
    assert_eq!(state.tag_cache.len(), 0, "Tag cache should be empty after JSON parsing error");
    assert_eq!(state.routing_table.len(), 0, "Routing table should be empty after JSON parsing error");
}

#[test]
fn test_refresh_models_loop_unreachable_backend() {
    let config = Config { refresh_interval: 1, backends: vec![backend("test", "http://non-existent-server:1234")] };
    let mut state = AppState::new(config);
    let queried = run_cycle(&mut state, &[]);
    assert_eq!(queried, vec!["http://non-existent-server:1234/v1/models"]);

    assert_eq!(state.model_cache.len(), 0, "Cache should be empty when backend is unreachable");
    assert_eq!(state.routing_table.len(), 0, "Routing table should be empty when backend is unreachable");
}

#[test]
fn the_cycle_asks_backend_by_backend() {
    let mut state = AppState::new(Config {
        refresh_interval: 5,
        backends: vec![backend("a", "http://a"), backend("b", "http://b"), backend("c", "http://c")],
    });
    let servers = [
        (
            "http://a",
            Backend {
                models: FetchOutcome::Response { status: 200, parsed: Some(vec![model("shared"), model("a-1")]) },
                tags: FetchOutcome::TransportError,
            },
        ),
        (
            "http://b",
            Backend {
                models: FetchOutcome::Response { status: 404, parsed: Some(vec![model("b-1")]) },
                tags: FetchOutcome::Response { status: 200, parsed: Some(vec![tag("b-1")]) },
            },
        ),
        (
            "http://c",
            Backend {
                models: FetchOutcome::Response { status: 201, parsed: Some(vec![model("shared")]) },
                tags: FetchOutcome::Response { status: 200, parsed: Some(vec![tag("c:1"), tag("c:2")]) },
            },
        ),
    ];
    let queried = run_cycle(&mut state, &servers);
    assert_eq!(queried, vec![
        "http://a/v1/models",
        "http://a/api/tags",
        "http://b/v1/models",
        "http://c/v1/models",
        "http://c/api/tags",
    ]);
    assert_eq!(ids(&state.model_cache), vec!["shared", "a-1", "shared"]);
    assert_eq!(state.lookup("shared"), Some("http://c".to_string()));
    assert_eq!(state.lookup("a-1"), Some("http://a".to_string()));
    assert_eq!(state.lookup("b-1"), None);
    assert_eq!(state.routing_table.len(), 2);
    let names: Vec<&str> = state.tag_cache.iter().map(|t| t.name.as_str()).collect();
    assert_eq!(names, vec!["c:1", "c:2"]);
}

#[test]
fn an_answer_that_was_not_asked_for_is_dropped() {
    let backends = vec![backend("a", "http://a")];
    let cycle = DiscoveryCycle::start(&backends);
    let cycle = cycle.tags_answered(FetchOutcome::Response { status: 200, parsed: Some(vec![tag("stray")]) });
    assert!(matches!(cycle.next_query(), DiscoveryQuery::GetModels { .. }));
    let cycle = cycle.models_answered(FetchOutcome::Response { status: 200, parsed: Some(vec![model("m")]) });
    let cycle = cycle.models_answered(FetchOutcome::Response { status: 200, parsed: Some(vec![model("n")]) });
    assert!(matches!(cycle.next_query(), DiscoveryQuery::GetTags { .. }));
    let cycle = cycle.tags_answered(FetchOutcome::TransportError);
    assert!(matches!(cycle.next_query(), DiscoveryQuery::Finished));
    let cycle = cycle.models_answered(FetchOutcome::Response { status: 200, parsed: Some(vec![model("late")]) });
    let snapshot = cycle.finish();
    assert_eq!(ids(&snapshot.models), vec!["m"]);
    assert!(snapshot.tags.is_empty());
}

#[test]
fn a_cycle_over_no_backends_is_finished_at_once() {
    let cycle = DiscoveryCycle::start(&Vec::new());
    assert!(matches!(cycle.next_query(), DiscoveryQuery::Finished));
    let snapshot = cycle.finish();
    assert!(snapshot.models.is_empty());
    assert!(snapshot.tags.is_empty());
    assert!(snapshot.routing_table.is_empty());
}

#[test]
fn a_cycle_that_is_cut_short_records_what_was_answered() {
    let backends = vec![backend("a", "http://a"), backend("b", "http://b")];
    let cycle = DiscoveryCycle::start(&backends);
    let cycle = cycle.models_answered(FetchOutcome::Response { status: 200, parsed: Some(vec![model("a")]) });
    let cycle = cycle.tags_answered(FetchOutcome::Response { status: 200, parsed: Some(vec![tag("a")]) });
    let cycle = cycle.models_answered(FetchOutcome::Response { status: 200, parsed: Some(vec![model("b")]) });
    let snapshot = cycle.finish();
    assert_eq!(ids(&snapshot.models), vec!["a"]);
    assert_eq!(snapshot.routing_table.lookup("b"), None);
}

#[test]
fn reports_from_outcomes() {
    let report = BackendReport::from_outcomes(
        FetchOutcome::Response { status: 200, parsed: Some(vec![model("m")]) },
        FetchOutcome::Response { status: 500, parsed: Some(vec![tag("m")]) },
    );
    match report {
        BackendReport::Listed { models, tags } => {
            assert_eq!(ids(&models), vec!["m"]);
            assert!(tags.is_none());
        },
        BackendReport::Unavailable => panic!("the listing was dropped"),
    }
    let report = BackendReport::from_outcomes(
        FetchOutcome::Response { status: 200, parsed: Some(Vec::new()) },
        FetchOutcome::Response { status: 200, parsed: Some(vec![tag("t")]) },
    );
    match report {
        BackendReport::Listed { models, tags } => {
            assert!(models.is_empty());
            assert_eq!(tags.unwrap().len(), 1);
        },
        BackendReport::Unavailable => panic!("the listing was dropped"),
    }
}

#[test]
fn only_success_statuses_count() {
    for status in [200u16, 201, 204, 299] {
        let outcome = FetchOutcome::Response { status, parsed: Some(7u8) };
        assert_eq!(outcome.into_accepted(), Some(7));
    }
    for status in [0u16, 100, 199, 300, 301, 404, 500, 65535] {
        let outcome = FetchOutcome::Response { status, parsed: Some(7u8) };
        assert_eq!(outcome.into_accepted(), None);
    }
    assert_eq!(FetchOutcome::Response::<u8> { status: 200, parsed: None }.into_accepted(), None);
    assert_eq!(FetchOutcome::TransportError::<u8>.into_accepted(), None);
}

#[test]
fn failed_model_listing_discards_the_tags() {
    let report = BackendReport::from_outcomes(
        FetchOutcome::Response { status: 503, parsed: Some(vec![model("m")]) },
        FetchOutcome::Response { status: 200, parsed: Some(vec![tag("m")]) },
    );
    assert!(matches!(report, BackendReport::Unavailable));
    let mut state = AppState::new(single_backend());
    state.refresh_models(vec![report]);
    assert!(state.model_cache.is_empty());
    assert!(state.tag_cache.is_empty());
    assert!(state.routing_table.is_empty());
}

#[test]
fn failing_backend_does_not_disturb_the_others() {
    let backends = vec![backend("a", "http://a"), backend("b", "http://b"), backend("c", "http://c")];
    let reports = vec![listed(&["a-1"]), BackendReport::Unavailable, listed(&["c-1", "c-2"])];
    let with_failure = build_snapshot(&backends, reports);

    let remaining = vec![backend("a", "http://a"), backend("c", "http://c")];
    let without = build_snapshot(&remaining, vec![listed(&["a-1"]), listed(&["c-1", "c-2"])]);

    assert_eq!(ids(&with_failure.models), vec!["a-1", "c-1", "c-2"]);
    assert_eq!(ids(&with_failure.models), ids(&without.models));
    for id in ["a-1", "c-1", "c-2", "b-1"] {
        assert_eq!(with_failure.routing_table.lookup(id), without.routing_table.lookup(id));
    }
    assert_eq!(with_failure.routing_table.lookup("a-1"), Some("http://a".to_string()));
    assert_eq!(with_failure.routing_table.lookup("c-2"), Some("http://c".to_string()));
    assert_eq!(with_failure.routing_table.lookup("b-1"), None);
}

#[test]
fn one_failure_one_success() {
    let mut state = AppState::new(Config {
        refresh_interval: 5,
        backends: vec![backend("a", "http://a"), backend("b", "http://b")],
    });
    state.refresh_models(vec![BackendReport::Unavailable, listed(&["b-1", "b-2"])]);
    assert_eq!(ids(&state.model_cache), vec!["b-1", "b-2"]);
    assert_eq!(state.lookup("b-1"), Some("http://b".to_string()));
    assert_eq!(state.lookup("b-2"), Some("http://b".to_string()));
    assert_eq!(state.lookup("a-1"), None);
}

#[test]
fn later_backend_wins_a_shared_model() {
    let backends = vec![backend("a", "http://a"), backend("b", "http://b"), backend("c", "http://c")];
    let snapshot = build_snapshot(&backends, vec![listed(&["shared", "a-only"]), listed(&["shared"]), listed(&["c"])]);
    assert_eq!(snapshot.routing_table.lookup("shared"), Some("http://b".to_string()));
    assert_eq!(snapshot.routing_table.lookup("a-only"), Some("http://a".to_string()));
    assert_eq!(ids(&snapshot.models), vec!["shared", "a-only", "shared", "c"]);
}

#[test]
fn every_route_has_a_listed_model() {
    let backends = vec![backend("a", "http://a"), backend("b", "http://b")];
    let snapshot = build_snapshot(&backends, vec![listed(&["x", "y"]), listed(&["y", "z"])]);
    for id in ["x", "y", "z", "w", ""] {
        let routed = snapshot.routing_table.contains_key(id);
        let shown = snapshot.models.iter().any(|m| m.id == id);
        assert_eq!(routed, shown);
    }
}

#[test]
fn tags_are_appended_in_backend_order() {
    let backends = vec![backend("a", "http://a"), backend("b", "http://b"), backend("c", "http://c")];
    let reports = vec![
        BackendReport::Listed { models: vec![model("a")], tags: Some(vec![tag("a:1"), tag("a:2")]) },
        BackendReport::Listed { models: vec![model("b")], tags: None },
        BackendReport::Listed { models: vec![], tags: Some(vec![tag("c:1")]) },
    ];
    let snapshot = build_snapshot(&backends, reports);
    let names: Vec<&str> = snapshot.tags.iter().map(|t| t.name.as_str()).collect();
    assert_eq!(names, vec!["a:1", "a:2", "c:1"]);
    assert_eq!(ids(&snapshot.models), vec!["a", "b"]);
    assert!(!snapshot.routing_table.contains_key("a:1"));
}

#[test]
fn backends_without_a_report_contribute_nothing() {
    let backends = vec![backend("a", "http://a"), backend("b", "http://b")];
    let snapshot = build_snapshot(&backends, vec![listed(&["a"])]);
    assert_eq!(ids(&snapshot.models), vec!["a"]);
    let snapshot = build_snapshot(&backends, vec![listed(&["a"]), listed(&["b"]), listed(&["stray"])]);
    assert_eq!(ids(&snapshot.models), vec!["a", "b"]);
    assert!(!snapshot.routing_table.contains_key("stray"));
    let snapshot = build_snapshot(&Vec::new(), vec![listed(&["stray"])]);
    assert!(snapshot.models.is_empty());
    assert!(snapshot.routing_table.is_empty());
}

#[test]
fn a_cycle_replaces_the_previous_snapshot() {
    let mut state = AppState::new(single_backend());
    state.refresh_models(vec![BackendReport::Listed {
        models: vec![model("old"), model("kept")],
        tags: Some(vec![tag("old")]),
    }]);
    assert_eq!(state.lookup("old"), Some("http://127.0.0.1:9000".to_string()));

    state.refresh_models(vec![listed(&["kept", "new"])]);
    assert_eq!(state.lookup("old"), None);
    assert_eq!(state.lookup("kept"), Some("http://127.0.0.1:9000".to_string()));
    assert_eq!(state.lookup("new"), Some("http://127.0.0.1:9000".to_string()));
    assert_eq!(ids(&state.model_cache), vec!["kept", "new"]);
    assert!(state.tag_cache.is_empty());

    state.refresh_models(vec![BackendReport::Unavailable]);
    assert_eq!(state.lookup("kept"), None);
    assert!(state.model_cache.is_empty());
    assert_eq!(state.config.refresh_interval, 1);
}

#[test]
fn replace_swaps_one_cache_at_a_time() {
    let mut state = AppState::new(single_backend());
    state.refresh_models(vec![BackendReport::Listed { models: vec![model("m")], tags: Some(vec![tag("m")]) }]);

    let mut table = RoutingTable::new();
    table.insert("n".to_string(), "http://n".to_string());
    state.replace(table);
    assert_eq!(state.lookup("m"), None);
    assert_eq!(state.lookup("n"), Some("http://n".to_string()));
    assert_eq!(ids(&state.snapshot_models()), vec!["m"]);
    assert_eq!(state.snapshot_tags().len(), 1);

    state.replace_models(vec![model("p"), model("q")]);
    assert_eq!(ids(&state.snapshot_models()), vec!["p", "q"]);
    assert_eq!(state.lookup("n"), Some("http://n".to_string()));
    assert_eq!(state.snapshot_tags()[0].name, "m");

    state.replace_tags(Vec::new());
    assert!(state.snapshot_tags().is_empty());
    assert_eq!(ids(&state.snapshot_models()), vec!["p", "q"]);
}

#[test]
fn install_takes_the_whole_snapshot() {
    let mut snapshot = Snapshot::new();
    snapshot.record(
        &backend("a", "http://a"),
        BackendReport::Listed { models: vec![model("a-1")], tags: Some(vec![tag("a-1")]) },
    );
    snapshot.record(&backend("b", "http://b"), BackendReport::Unavailable);
    let mut state = AppState::new(single_backend());
    state.install(snapshot);
    assert_eq!(state.lookup("a-1"), Some("http://a".to_string()));
    assert_eq!(ids(&state.model_cache), vec!["a-1"]);
    assert_eq!(state.tag_cache[0].digest, "test-digest");
}

#[test]
fn snapshot_models_copies_every_field() {
    let mut state = AppState::new(single_backend());
    state.replace_models(vec![ModelInfo {
        id: "id".to_string(),
        object: "model".to_string(),
        created: -5,
        owned_by: "owner".to_string(),
    }]);
    let copy = state.snapshot_models();
    assert_eq!(copy.len(), 1);
    assert_eq!(copy[0].id, "id");
    assert_eq!(copy[0].object, "model");
    assert_eq!(copy[0].created, -5);
    assert_eq!(copy[0].owned_by, "owner");
    let tags = {
        state.replace_tags(vec![tag("t")]);
        state.snapshot_tags()
    };
    assert_eq!(tags[0].modified_at, "2025-07-02T09:22:44.205115046Z");
    assert_eq!(tags[0].details.parameter_size, "7B");
    assert_eq!(tags[0].details.quantization_level, "Q4_K_M");
}

#[test]
fn routing_table_insert_and_lookup() {
    let mut table = RoutingTable::new();
    assert!(table.is_empty());
    assert_eq!(table.lookup("m"), None);
    table.insert("m".to_string(), "http://a".to_string());
    table.insert("n".to_string(), "http://b".to_string());
    assert!(!table.is_empty());
    assert!(table.contains_key("m"));
    assert!(!table.contains_key("M"));
    assert_eq!(table.lookup("m"), Some("http://a".to_string()));
    table.insert("m".to_string(), "http://c".to_string());
    assert_eq!(table.lookup("m"), Some("http://c".to_string()));
    assert_eq!(table.lookup("n"), Some("http://b".to_string()));
}

#[test]
fn discovery_urls() {
    let b = backend("a", "http://host:11434");
    assert_eq!(models_url(&b), "http://host:11434/v1/models");
    assert_eq!(tags_url(&b), "http://host:11434/api/tags");
    let b = backend("a", "http://host/");
    assert_eq!(models_url(&b), "http://host//v1/models");
}
