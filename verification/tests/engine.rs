//! The policy engine: evaluation, generations and quarantine.

use openshell_supervisor_network::json::{JsonNumber, JsonValue};
use openshell_supervisor_network::opa::activation::ActivationAction;
use openshell_supervisor_network::opa::chain::{
    chain_entry_from_value, global_middleware_entries, middleware_selector,
    parse_middleware_configs, MiddlewareChainError, Selection,
};
use openshell_supervisor_network::opa::decisions::{
    LandlockCompatibility, NetworkAction, NetworkInput,
};
use openshell_supervisor_network::opa::engine::{OpaEngine, PreparedData};
use openshell_supervisor_network::opa::struct_value::{regorus_value_to_struct, StructValue};
use openshell_supervisor_network::opa::rego::{get_str, RegoNumber, RegoValue};

const RULES: &str = r#"
package openshell.sandbox

default allow_network := false

allow_network if {
    input.network.host == data.network.host
    input.network.port == data.network.port
    input.exec.path == data.network.binary
}

deny_reason := "" if allow_network

deny_reason := concat("", ["denied: ", input.network.host]) if not allow_network

matched_network_policy := "main" if allow_network

default allow_request := false

allow_request if {
    allow_network
    input.request.method == "GET"
    startswith(input.request.path, "/repos/")
}

egress_authorization := {
    "action": "allow",
    "matched_policy": "main",
    "endpoint_configs": [{"allowed_ips": ["10.0.0.0/8", 7, "192.168.0.1"]}],
    "matched_endpoints": [
        {"policy_name": "main", "endpoint_index": 0, "endpoint": {"host": data.network.host}},
        {"policy_name": "main", "endpoint_index": -1, "endpoint": {}},
        {"endpoint_index": 1, "endpoint": {}},
    ],
    "exact_declared_endpoint_host": true,
} if allow_network

egress_authorization := {"action": "deny", "deny_reason": ""} if not allow_network

_matching_endpoint_configs := [{"allowed_ips": ["10.0.0.0/8", "192.168.0.1"]}, {}] if allow_network

endpoint_credential_guards := {"provider": "p"} if allow_network

exact_declared_endpoint_host if allow_network

policy_dns_eligible_endpoint_records := [
    {"policy_name": "main", "endpoint_index": 3, "endpoint": {"host": data.network.host}},
]

filesystem_policy := {"read_only": ["/usr"], "read_write": ["/tmp", 4]}

landlock_policy := {"compatibility": "hard_requirement"}

process_policy := {"run_as_user": "sandbox"}

network_middlewares := data.middlewares
"#;

const DATA: &str = r#"{
    "network": {"host": "api.example.com", "port": 443, "binary": "/usr/bin/curl"},
    "middlewares": {
        "redactor": {
            "middleware": "openshell/regex",
            "order": 5,
            "on_error": "fail_open",
            "endpoints": {"include": ["api.example.com"], "exclude": ["x.example.com"]},
            "config": {"pattern": "secret"}
        }
    }
}"#;

fn ready(data: &str) -> PreparedData {
    PreparedData::Ready(data.to_string())
}

fn engine() -> OpaEngine {
    match OpaEngine::from_strings(RULES, &ready(DATA)) {
        Ok(engine) => engine,
        Err(message) => panic!("engine must load: {message}"),
    }
}

fn failure(result: Result<OpaEngine, String>) -> String {
    match result {
        Ok(_) => panic!("engine must not load"),
        Err(message) => message,
    }
}

fn input(host: &str) -> NetworkInput {
    NetworkInput {
        host: host.to_string(),
        port: 443,
        binary_path: "/usr/bin/curl".to_string(),
        binary_sha256: "unused".to_string(),
        ancestors: vec![],
        cmdline_paths: vec![],
    }
}

#[test]
fn network_access_follows_the_rules() {
    let mut engine = engine();
    let allowed = engine.evaluate_network(&input("api.example.com")).unwrap();
    assert!(allowed.allowed);
    assert_eq!(allowed.reason, "");
    assert_eq!(allowed.matched_policy.as_deref(), Some("main"));

    let denied = engine.evaluate_network(&input("other.example.com")).unwrap();
    assert!(!denied.allowed);
    assert_eq!(denied.reason, "denied: other.example.com");
    assert_eq!(denied.matched_policy, None);

    let mut other_binary = input("api.example.com");
    other_binary.binary_path = "/usr/bin/wget".to_string();
    assert!(!engine.evaluate_network(&other_binary).unwrap().allowed);
}

#[test]
fn egress_authorization_carries_its_metadata() {
    let mut engine = engine();
    let authorization = engine.authorize_egress(&input("api.example.com")).unwrap();
    assert_eq!(
        authorization.action,
        NetworkAction::Allow {
            matched_policy: Some("main".to_string())
        }
    );
    assert_eq!(authorization.endpoint_configs.len(), 1);
    assert_eq!(authorization.matched_endpoints.len(), 1);
    assert_eq!(authorization.matched_endpoints[0].policy_name, "main");
    assert_eq!(authorization.matched_endpoints[0].endpoint_index, 0);
    assert_eq!(
        get_str(&authorization.matched_endpoints[0].endpoint, "host").as_deref(),
        Some("api.example.com")
    );
    assert!(authorization.exact_declared_endpoint_host);
    assert_eq!(authorization.generation, 0);

    let (action, generation) = engine
        .evaluate_network_action_with_generation(&input("other.example.com"))
        .unwrap();
    assert_eq!(
        action,
        NetworkAction::Deny {
            reason: "network connections not allowed by policy".to_string()
        }
    );
    assert_eq!(generation, 0);
    assert_eq!(
        engine.evaluate_network_action(&input("api.example.com")).unwrap(),
        NetworkAction::Allow {
            matched_policy: Some("main".to_string())
        }
    );
}

#[test]
fn endpoint_queries_read_matching_records() {
    let mut engine = engine();
    let (configs, generation) = engine
        .query_endpoint_configs_with_generation(&input("api.example.com"))
        .unwrap();
    assert_eq!((configs.len(), generation), (2, 0));
    assert_eq!(
        engine.query_allowed_ips(&input("api.example.com")).unwrap(),
        vec!["10.0.0.0/8".to_string(), "192.168.0.1".to_string()]
    );
    assert!(engine
        .query_allowed_ips(&input("other.example.com"))
        .unwrap()
        .is_empty());
    assert!(engine
        .query_endpoint_config(&input("other.example.com"))
        .unwrap()
        .is_none());
    let guards = engine
        .query_endpoint_credential_guards(&input("api.example.com"))
        .unwrap();
    assert_eq!(guards.len(), 1, "a single record is a list of one");
    assert!(engine
        .query_exact_declared_endpoint_host(&input("api.example.com"))
        .unwrap());
    assert!(!engine
        .query_exact_declared_endpoint_host(&input("other.example.com"))
        .unwrap());
}

#[test]
fn sandbox_config_is_read_from_the_rules() {
    let config = engine().query_sandbox_config().unwrap();
    assert_eq!(config.filesystem.read_only, vec!["/usr".to_string()]);
    assert_eq!(config.filesystem.read_write, vec!["/tmp".to_string()]);
    assert!(config.filesystem.include_workdir);
    assert_eq!(
        config.landlock.compatibility,
        LandlockCompatibility::HardRequirement
    );
    assert_eq!(config.process.run_as_user.as_deref(), Some("sandbox"));
    assert_eq!(config.process.run_as_group, None);
}

#[test]
fn dns_snapshot_lists_eligible_endpoints() {
    let mut engine = engine();
    let snapshot = engine.policy_dns_eligibility_snapshot().unwrap();
    assert_eq!(snapshot.endpoints.len(), 1);
    assert_eq!(snapshot.endpoints[0].endpoint_index, 3);
    assert_eq!(snapshot.generation, 0);
}

#[test]
fn missing_rules_are_an_error() {
    let mut engine = match OpaEngine::from_strings("package other\n", &ready("{}")) {
        Ok(engine) => engine,
        Err(message) => panic!("engine must load: {message}"),
    };
    assert!(engine.authorize_egress(&input("api.example.com")).is_err());
    assert!(engine.evaluate_network(&input("api.example.com")).is_err());
    assert!(engine.query_sandbox_config().is_err());
}

#[test]
fn quarantine_denies_and_ends_with_a_reload() {
    let mut engine = engine();
    let guard = engine.generation_guard(0).unwrap();
    assert!(!guard.is_stale(engine.current_generation()));

    assert_eq!(engine.enter_fail_closed("candidate rejected"), 1);
    assert_eq!(
        engine.fail_closed_reason().as_deref(),
        Some("candidate rejected")
    );
    assert!(guard.is_stale(engine.current_generation()));
    assert_eq!(
        guard.ensure_current(engine.current_generation()).unwrap_err(),
        "policy generation is stale [captured_generation:0 current_generation:1]"
    );
    let decision = engine.evaluate_network(&input("api.example.com")).unwrap();
    assert!(!decision.allowed);
    assert_eq!(decision.reason, "candidate rejected");
    let authorization = engine.authorize_egress(&input("api.example.com")).unwrap();
    assert_eq!(
        authorization.action,
        NetworkAction::Deny {
            reason: "candidate rejected".to_string()
        }
    );
    assert_eq!(authorization.generation, 1);
    assert!(engine
        .policy_dns_eligibility_snapshot()
        .unwrap()
        .endpoints
        .is_empty());

    assert!(engine.reload(RULES, &ready(DATA)).is_ok());
    assert_eq!(engine.current_generation(), 2);
    assert_eq!(engine.fail_closed_reason(), None);
    assert!(
        engine
            .evaluate_network(&input("api.example.com"))
            .unwrap()
            .allowed
    );
}

#[test]
fn leaving_no_quarantine_changes_nothing() {
    let mut engine = engine();
    assert_eq!(engine.exit_fail_closed(), 0);
    engine.enter_fail_closed("x");
    assert_eq!(engine.exit_fail_closed(), 2);
    assert!(
        engine
            .evaluate_network(&input("api.example.com"))
            .unwrap()
            .allowed
    );
}

#[test]
fn rejected_reload_keeps_rules_and_generation() {
    let mut engine = engine();
    let rejected = PreparedData::Rejected("L7 policy validation failed".to_string());
    assert_eq!(
        engine.reload(RULES, &rejected).unwrap_err(),
        "L7 policy validation failed"
    );
    assert_eq!(
        engine.reload("not rego", &ready(DATA)).unwrap_err(),
        "failed to load Rego policy"
    );
    assert_eq!(
        engine.reload_from_proto(RULES, &ready("[]")).unwrap_err(),
        "failed to load OPA policy data"
    );
    assert_eq!(engine.current_generation(), 0);
    assert!(
        engine
            .evaluate_network(&input("api.example.com"))
            .unwrap()
            .allowed
    );
    let other = DATA.replace("api.example.com", "new.example.com");
    assert!(engine.reload_from_proto(RULES, &ready(&other)).is_ok());
    assert_eq!(engine.current_generation(), 1);
    assert!(
        engine
            .evaluate_network(&input("new.example.com"))
            .unwrap()
            .allowed
    );
}

#[test]
fn faults_are_reported_in_loading_order() {
    let undecoded = PreparedData::Undecoded("undecoded".to_string());
    let rejected = PreparedData::Rejected("rejected".to_string());
    let rules = "failed to load Rego policy";
    assert_eq!(failure(OpaEngine::from_strings("not rego", &undecoded)), rules);
    assert_eq!(failure(OpaEngine::from_strings(RULES, &undecoded)), "undecoded");
    assert_eq!(failure(OpaEngine::from_reader("not rego", &undecoded)), "undecoded");
    assert_eq!(failure(OpaEngine::from_reader("not rego", &rejected)), rules);
    assert_eq!(failure(OpaEngine::from_files("p.rego", "not rego", &rejected)), rules);
    assert_eq!(failure(OpaEngine::from_proto("not rego", &rejected)), "rejected");
    assert_eq!(failure(OpaEngine::from_proto("not rego", &ready("{}"))), rules);
    assert_eq!(
        failure(OpaEngine::from_strings(RULES, &ready("[]"))),
        "failed to load OPA policy data"
    );
}

#[test]
fn identity_requirement_survives_reloads() {
    let mut engine =
        match OpaEngine::from_files_for_endpoint_only_proxy("p.rego", RULES, &ready(DATA)) {
            Ok(engine) => engine,
            Err(message) => panic!("engine must load: {message}"),
        };
    assert!(!engine.binary_identity_required());
    assert!(engine.reload(RULES, &ready(DATA)).is_ok());
    assert!(!engine.binary_identity_required());
}

#[test]
fn tunnels_are_bound_to_their_generation() {
    let mut engine = engine();
    let mut tunnel = match engine.clone_engine_for_tunnel(0) {
        Ok(tunnel) => tunnel,
        Err(message) => panic!("tunnel must start: {message}"),
    };
    assert_eq!(tunnel.captured_generation(), 0);
    engine.replace_middleware_registry();
    assert!(tunnel.is_stale(engine.current_generation()));
    assert_eq!(tunnel.generation_guard().captured_generation(), 0);
    assert_eq!(tunnel.query_middleware_configs().unwrap().len(), 1);
    match engine.clone_engine_for_tunnel(0) {
        Ok(_) => panic!("stale tunnel must not start"),
        Err(message) => assert_eq!(
            message,
            "policy changed before L7 tunnel started [expected_generation:0 current_generation:1]"
        ),
    }
    assert_eq!(
        engine.generation_guard(0).unwrap_err(),
        "policy changed before HTTP relay started [expected_generation:0 current_generation:1]"
    );
    assert_eq!(engine.with_current_generation(1), Some(1));
    assert_eq!(engine.with_current_generation(0), None);
}

#[test]
fn middleware_configurations_keep_their_names() {
    let mut engine = engine();
    let (configs, generation) = engine.query_middleware_configs_with_generation();
    let configs = configs.unwrap();
    assert_eq!((configs.len(), generation), (1, 0));
    let selector = middleware_selector(&configs[0]).unwrap();
    assert_eq!(selector.included, vec!["api.example.com".to_string()]);
    assert_eq!(selector.excluded, vec!["x.example.com".to_string()]);
    let entry = chain_entry_from_value(&configs[0]);
    assert_eq!(entry.name, "redactor");
    assert_eq!(entry.implementation, "openshell/regex");
    assert_eq!(entry.order, 5);
    assert_eq!(entry.on_error, "fail_open");
    assert_eq!(
        entry.config,
        vec![(
            "pattern".to_string(),
            StructValue::Text("secret".to_string())
        )]
    );
}

fn text(s: &str) -> RegoValue {
    RegoValue::Text(s.to_string())
}

#[test]
fn malformed_middleware_configurations_are_refused() {
    let list = RegoValue::Array(vec![]);
    let error = parse_middleware_configs(&list, "Array([])").unwrap_err();
    assert_eq!(
        error.message(),
        "network_middlewares must be an object, got Array([])"
    );
    let key = RegoValue::Object(vec![(RegoValue::Bool(true), RegoValue::Object(vec![]))]);
    let error = parse_middleware_configs(&key, "").unwrap_err();
    assert_eq!(error.message(), "network_middlewares keys must be strings");
    let config = RegoValue::Object(vec![(text("a\"b"), RegoValue::Null)]);
    let error = parse_middleware_configs(&config, "").unwrap_err();
    assert_eq!(
        error.message(),
        "network middleware config String(\"a\\\"b\") must be an object"
    );
    assert!(parse_middleware_configs(&RegoValue::Undefined, "")
        .unwrap()
        .is_empty());
}

fn matching_middleware_configs(count: usize) -> Vec<RegoValue> {
    (0..count)
        .map(|index| {
            RegoValue::Object(vec![
                (text("name"), text(&format!("stage-{index}"))),
                (text("middleware"), text("openshell/regex")),
                (
                    text("endpoints"),
                    RegoValue::Object(vec![(
                        text("include"),
                        RegoValue::Array(vec![text("api.example.com")]),
                    )]),
                ),
            ])
        })
        .collect()
}

fn matching(count: usize) -> Vec<Selection> {
    (0..count)
        .map(|_| Selection {
            matches: Ok(true),
            on_error_fault: None,
        })
        .collect()
}

#[test]
fn middleware_chain_accepts_maximum_selected_stages() {
    let configs = matching_middleware_configs(10);
    let chain =
        global_middleware_entries(&configs, &matching(10), 10).expect("maximum selected chain");
    assert_eq!(chain.len(), 10);
}

#[test]
fn middleware_chain_rejects_selected_stages_over_capacity() {
    let configs = matching_middleware_configs(11);
    let error = global_middleware_entries(&configs, &matching(11), 10)
        .expect_err("selected chain over capacity");
    assert!(error
        .message()
        .contains("selected middleware stage count exceeds platform maximum 10"));
}

#[test]
fn chain_reports_the_first_fault() {
    let configs = matching_middleware_configs(2);
    let mut selections = matching(2);
    selections[0].on_error_fault = Some("unknown on_error".to_string());
    selections[1].matches = Err("bad pattern".to_string());
    assert!(matches!(
        global_middleware_entries(&configs, &selections, 10),
        Err(MiddlewareChainError::OnError(_))
    ));
    selections[0].on_error_fault = None;
    let error = global_middleware_entries(&configs, &selections, 10).unwrap_err();
    assert_eq!(error.message(), "bad pattern");
    selections[1].matches = Ok(false);
    assert_eq!(
        global_middleware_entries(&configs, &selections, 10)
            .unwrap()
            .len(),
        1
    );
}

#[test]
fn configuration_without_a_selector_applies_to_no_host() {
    let configs = vec![RegoValue::Object(vec![(
        text("order"),
        RegoValue::Number(RegoNumber {
            integer: Some(1 << 40),
            decimal: "1099511627776".to_string(),
        }),
    )])];
    assert!(global_middleware_entries(&configs, &matching(1), 10)
        .unwrap()
        .is_empty());
    assert_eq!(chain_entry_from_value(&configs[0]).order, 0);
}

#[test]
fn policy_dns_snapshot_is_empty_during_fail_closed_quarantine() {
    let mut engine = engine();
    assert_eq!(engine.policy_dns_eligibility_snapshot().unwrap().endpoints.len(), 1);
    let generation = engine.enter_fail_closed("invalid candidate");

    let snapshot = engine.policy_dns_eligibility_snapshot().unwrap();

    assert_eq!(snapshot.generation, generation);
    assert!(snapshot.endpoints.is_empty());
}

#[test]
fn policy_generation_starts_at_zero_and_increments_on_successful_reload() {
    let mut engine = engine();
    assert_eq!(engine.current_generation(), 0);

    engine.reload(RULES, &ready(DATA)).unwrap();

    assert_eq!(engine.current_generation(), 1);
}

#[test]
fn valid_reload_exits_fail_closed_quarantine() {
    let mut engine = engine();
    engine.enter_fail_closed("invalid candidate");
    assert!(engine.fail_closed_reason().is_some());

    engine.reload(RULES, &ready(DATA)).unwrap();

    assert!(engine.fail_closed_reason().is_none());
    assert_eq!(engine.current_generation(), 2);
}

#[test]
fn endpoint_config_generation_matches_query_generation() {
    let mut engine = engine();
    let input = input("api.example.com");

    let (config, generation) = engine.query_endpoint_config_with_generation(&input).unwrap();
    assert!(config.is_some());
    assert_eq!(generation, engine.current_generation());

    engine.reload(RULES, &ready(DATA)).unwrap();

    let (config, generation) = engine.query_endpoint_config_with_generation(&input).unwrap();
    assert!(config.is_some());
    assert_eq!(generation, engine.current_generation());
    assert_eq!(generation, 1);
}

#[test]
fn tunnel_clone_rejects_stale_generation() {
    let mut engine = engine();
    let captured_generation = engine.current_generation();
    engine.reload(RULES, &ready(DATA)).unwrap();

    assert!(engine.clone_engine_for_tunnel(captured_generation).is_err());
}

#[test]
fn reload_replaces_policy() {
    let mut engine = engine();
    let input = input("api.example.com");
    assert!(engine.evaluate_network(&input).unwrap().allowed);

    engine.reload(RULES, &ready("{\"network\": {}}")).unwrap();

    assert!(!engine.evaluate_network(&input).unwrap().allowed);
}

#[test]
fn configuration_activation_repairs_fail_closed_and_keeps_identity_mode() {
    let mut engine =
        OpaEngine::from_files_for_endpoint_only_proxy("policy.rego", RULES, &ready(DATA)).unwrap();
    engine.enter_fail_closed("invalid candidate");
    engine.reload_from_proto(RULES, &ready(DATA)).unwrap();
    assert!(engine.fail_closed_reason().is_none());
    assert!(!engine.binary_identity_required());
    assert!(engine.clone_engine_for_tunnel(2).is_ok());
    assert!(engine.evaluate_network(&input("api.example.com")).unwrap().allowed);
}

#[test]
fn left_quarantine_keeps_the_policy_and_its_guards_stale() {
    let mut engine = engine();
    let guard = engine.generation_guard(0).unwrap();
    engine.enter_fail_closed("candidate rejected");
    assert!(guard.is_stale(engine.current_generation()));
    assert!(!engine.evaluate_network(&input("api.example.com")).unwrap().allowed);
    assert_eq!(engine.exit_fail_closed(), 2);
    assert!(guard.is_stale(engine.current_generation()));
    assert!(engine.evaluate_network(&input("api.example.com")).unwrap().allowed);
}

fn object(entries: Vec<(&str, JsonValue)>) -> JsonValue {
    JsonValue::Object(
        entries
            .into_iter()
            .map(|(key, value)| (key.to_string(), value))
            .collect(),
    )
}

fn json_text(s: &str) -> JsonValue {
    JsonValue::Text(s.to_string())
}

fn l7_input(host: &str, port: u64, method: &str, path: &str) -> JsonValue {
    object(vec![
        (
            "network",
            object(vec![
                ("host", json_text(host)),
                ("port", JsonValue::Number(JsonNumber::Unsigned(port))),
            ]),
        ),
        (
            "exec",
            object(vec![
                ("path", json_text("/usr/bin/curl")),
                ("ancestors", JsonValue::Array(vec![])),
                ("cmdline_paths", JsonValue::Array(vec![])),
            ]),
        ),
        (
            "request",
            object(vec![("method", json_text(method)), ("path", json_text(path))]),
        ),
    ])
}

#[test]
fn l7_clone_engine_for_tunnel() {
    let engine = engine();
    let mut cloned = engine
        .clone_engine_for_tunnel(engine.current_generation())
        .unwrap();
    let input = l7_input("api.example.com", 443, "GET", "/repos/myorg/foo");
    let value = cloned
        .evaluate_rule(&input, "data.openshell.sandbox.allow_request")
        .unwrap();
    assert_eq!(value, RegoValue::Bool(true));
    let input = l7_input("api.example.com", 443, "DELETE", "/repos/myorg/foo");
    let value = cloned
        .evaluate_rule(&input, "data.openshell.sandbox.allow_request")
        .unwrap();
    assert_eq!(value, RegoValue::Bool(false));
    assert!(cloned
        .evaluate_rule(&input, "data.openshell.sandbox.no_such_rule")
        .is_err());
}

#[test]
fn policy_generation_does_not_increment_on_failed_reload() {
    let mut engine = engine();
    engine.reload(RULES, &ready(DATA)).unwrap();
    assert_eq!(engine.current_generation(), 1);

    let invalid = PreparedData::Rejected(
        "L7 policy validation failed: invalid L7 policy configuration".to_string(),
    );
    assert!(engine.reload(RULES, &invalid).is_err());
    assert_eq!(engine.current_generation(), 1);

    let input = l7_input("api.example.com", 443, "GET", "/repos/myorg/foo");
    let mut cloned = engine
        .clone_engine_for_tunnel(engine.current_generation())
        .unwrap();
    let value = cloned
        .evaluate_rule(&input, "data.openshell.sandbox.allow_request")
        .unwrap();
    assert_eq!(value, RegoValue::Bool(true));
}

#[test]
fn activation_publishes_before_it_commits() {
    let mut engine = engine();
    let guard = engine.generation_guard(0).unwrap();
    engine.enter_fail_closed("invalid candidate");
    let actions = engine
        .reload_configuration_from_proto_with_pid(RULES, &ready(DATA), true)
        .unwrap();
    assert_eq!(
        actions,
        vec![
            ActivationAction::Publish(2),
            ActivationAction::CommitCredentials,
            ActivationAction::ReplaceRunner,
        ]
    );
    assert!(guard.is_stale(2));
    assert!(engine.fail_closed_reason().is_none());
    assert!(engine.binary_identity_required());

    let actions = engine
        .reload_configuration_from_proto_with_pid(RULES, &ready(DATA), false)
        .unwrap();
    assert_eq!(
        actions,
        vec![ActivationAction::Publish(3), ActivationAction::CommitCredentials]
    );
}

#[test]
fn rejected_activation_does_nothing() {
    let mut engine = engine();
    engine.enter_fail_closed("invalid candidate");
    for (rules, data, expected) in [
        (RULES, PreparedData::Rejected("bad policy".to_string()), "bad policy"),
        ("no rules", ready(DATA), "failed to load Rego policy"),
        (RULES, ready("no data"), "failed to load OPA policy data"),
    ] {
        let outcome = engine.reload_configuration_from_proto_with_pid(rules, &data, true);
        assert_eq!(outcome, Err(expected.to_string()));
        assert_eq!(engine.current_generation(), 1);
        assert_eq!(engine.fail_closed_reason().as_deref(), Some("invalid candidate"));
    }
}

#[test]
fn stage_configuration_keeps_what_a_struct_can_hold() {
    let number = |n: i64| {
        RegoValue::Number(RegoNumber {
            integer: Some(n),
            decimal: n.to_string(),
        })
    };
    let value = RegoValue::Object(vec![
        (number(1), text("dropped")),
        (text("flag"), RegoValue::Bool(true)),
        (text("size"), number(7)),
        (
            text("list"),
            RegoValue::Array(vec![text("a"), RegoValue::Null, RegoValue::Members(vec![text("b")])]),
        ),
        (
            text("nested"),
            RegoValue::Object(vec![
                (text("name"), text("x")),
                (RegoValue::Null, text("dropped")),
            ]),
        ),
        (text("missing"), RegoValue::Undefined),
    ]);
    assert_eq!(
        regorus_value_to_struct(&value),
        vec![
            ("flag".to_string(), StructValue::Bool(true)),
            ("size".to_string(), StructValue::Number("7".to_string())),
            (
                "list".to_string(),
                StructValue::List(vec![
                    StructValue::Text("a".to_string()),
                    StructValue::Null,
                    StructValue::Null,
                ])
            ),
            (
                "nested".to_string(),
                StructValue::Struct(vec![(
                    "name".to_string(),
                    StructValue::Text("x".to_string())
                )])
            ),
            ("missing".to_string(), StructValue::Null),
        ]
    );
    assert!(regorus_value_to_struct(&text("no object")).is_empty());
}
