//! Policy data: its documents, its shape, its normal forms and its loading.

use openshell_supervisor_network::json::{JsonNumber, JsonValue};
use openshell_supervisor_network::opa::aliases::{
    l7_config_requests, normalize_l7_config_aliases, ConfigStanza, Outcome,
};
use openshell_supervisor_network::opa::diagnostics::{
    redacted_policy_violation_category, render_bounded_validation_diagnostics,
    render_repeated_validation_diagnostic, PolicyViolation,
};
use openshell_supervisor_network::opa::document::proto_to_opa_data_json;
use openshell_supervisor_network::opa::engine::PreparedData;
use openshell_supervisor_network::opa::load::{
    binary_identity_notice, raw_file_error, redacted_raw_parse_error, LoadEvent, LoadState,
    PolicyLoad, RawFileFault,
};
use openshell_supervisor_network::opa::normalize::{
    inject_runtime_policy_data, normalize_endpoint_ports, normalize_endpoint_protocols,
    normalize_l7_policy_rule_aliases,
};
use openshell_supervisor_network::opa::policy::{
    BinaryResolution, EndpointSelector, FilesystemSection, L7Rule, L7Selector, LandlockSection,
    McpOptions, NetworkBinary, NetworkEndpoint, NetworkMiddleware, NetworkPolicyRule,
    ProcessSection, SandboxPolicy,
};

fn plain(value: &serde_json::Value) -> JsonValue {
    match value {
        serde_json::Value::Null => JsonValue::Null,
        serde_json::Value::Bool(b) => JsonValue::Bool(*b),
        serde_json::Value::Number(n) => JsonValue::Number(match (n.as_u64(), n.as_i64()) {
            (Some(n), _) => JsonNumber::Unsigned(n),
            (None, Some(n)) => JsonNumber::Negative(n),
            (None, None) => JsonNumber::Decimal(n.to_string()),
        }),
        serde_json::Value::String(s) => JsonValue::Text(s.clone()),
        serde_json::Value::Array(items) => JsonValue::Array(items.iter().map(plain).collect()),
        serde_json::Value::Object(map) => {
            JsonValue::Object(map.iter().map(|(k, v)| (k.clone(), plain(v))).collect())
        }
    }
}

fn wire(value: &JsonValue) -> serde_json::Value {
    match value {
        JsonValue::Null => serde_json::Value::Null,
        JsonValue::Bool(b) => serde_json::Value::Bool(*b),
        JsonValue::Number(JsonNumber::Unsigned(n)) => serde_json::Value::from(*n),
        JsonValue::Number(JsonNumber::Negative(n)) => serde_json::Value::from(*n),
        JsonValue::Number(JsonNumber::Decimal(s)) => serde_json::from_str(s).unwrap(),
        JsonValue::Text(s) => serde_json::Value::String(s.clone()),
        JsonValue::Array(items) => serde_json::Value::Array(items.iter().map(wire).collect()),
        JsonValue::Object(list) => {
            serde_json::Value::Object(list.iter().map(|(k, v)| (k.clone(), wire(v))).collect())
        }
    }
}

fn parsed(text: &str) -> serde_json::Value {
    serde_json::from_str(text).expect("JSON fixture")
}

fn data(text: &str) -> JsonValue {
    plain(&parsed(text))
}

fn selector() -> L7Selector {
    L7Selector {
        method: String::new(),
        path: String::new(),
        command: String::new(),
        operation_type: String::new(),
        operation_name: String::new(),
        fields: vec![],
        query: vec![],
        params: vec![],
    }
}

fn endpoint(host: &str, port: u32) -> NetworkEndpoint {
    NetworkEndpoint {
        host: host.to_string(),
        port,
        ports: vec![],
        path: String::new(),
        protocol: String::new(),
        tls: String::new(),
        enforcement: String::new(),
        access: String::new(),
        rules: vec![],
        allowed_ips: vec![],
        advisor_proposed: false,
        deny_rules: vec![],
        allow_encoded_slash: false,
        websocket_credential_rewrite: false,
        request_body_credential_rewrite: false,
        allow_uninspected_credentials: false,
        provider_credentialed: false,
        endpoint_id: None,
        credential_signing: String::new(),
        signing_service: String::new(),
        signing_region: String::new(),
        credential_provider: None,
        persisted_queries: String::new(),
        graphql_persisted_queries: vec![],
        graphql_max_body_bytes: 0,
        json_rpc_max_body_bytes: 0,
        mcp: None,
    }
}

fn binary(path: &str, resolution: BinaryResolution) -> NetworkBinary {
    NetworkBinary {
        path: path.to_string(),
        resolution,
    }
}

fn bare_policy(network_policies: Vec<(String, NetworkPolicyRule)>) -> SandboxPolicy {
    SandboxPolicy {
        filesystem: None,
        landlock: None,
        process: None,
        network_policies,
        network_middlewares: vec![],
        policy_hash: "policy-hash".to_string(),
    }
}

fn test_proto() -> SandboxPolicy {
    let mut policy = bare_policy(vec![
        (
            "claude_code".to_string(),
            NetworkPolicyRule {
                name: "claude_code".to_string(),
                endpoints: vec![
                    endpoint("api.anthropic.com", 443),
                    endpoint("statsig.anthropic.com", 443),
                ],
                binaries: vec![binary("/usr/local/bin/agent", BinaryResolution::Literal)],
            },
        ),
        (
            "gitlab".to_string(),
            NetworkPolicyRule {
                name: "gitlab".to_string(),
                endpoints: vec![endpoint("gitlab.com", 443)],
                binaries: vec![binary("/usr/bin/glab", BinaryResolution::Literal)],
            },
        ),
    ]);
    policy.filesystem = Some(FilesystemSection {
        include_workdir: true,
        read_only: vec!["/usr".to_string(), "/lib".to_string()],
        read_write: vec!["/sandbox".to_string(), "/tmp".to_string()],
    });
    policy.landlock = Some(LandlockSection {
        compatibility: "best_effort".to_string(),
    });
    policy.process = Some(ProcessSection {
        run_as_user: "sandbox".to_string(),
        run_as_group: "sandbox".to_string(),
    });
    policy
}

fn projected_allow(protocol: &str, allow: L7Selector) -> serde_json::Value {
    let mut projected = endpoint("api.example.com", 443);
    projected.protocol = protocol.to_string();
    projected.rules = vec![L7Rule { allow: Some(allow) }];
    let policy = bare_policy(vec![(
        "selector_projection".to_string(),
        NetworkPolicyRule {
            name: "selector_projection".to_string(),
            endpoints: vec![projected],
            binaries: vec![],
        },
    )]);
    let document = wire(&proto_to_opa_data_json(&policy));
    document["network_policies"]["selector_projection"]["endpoints"][0]["rules"][0]["allow"].clone()
}

#[test]
fn proto_projection_omits_absent_allow_selectors() {
    let mut allow = selector();
    allow.operation_type = "subscription".to_string();
    allow.operation_name = "NewMessages".to_string();
    allow.fields = vec!["messageAdded".to_string()];
    assert_eq!(
        projected_allow("websocket", allow),
        parsed(
            r#"{
                "operation_type": "subscription",
                "operation_name": "NewMessages",
                "fields": ["messageAdded"]
            }"#
        )
    );
}

#[test]
fn proto_projection_preserves_nonempty_allow_selectors() {
    let mut allow = selector();
    allow.method = "POST".to_string();
    allow.path = "/repos/**".to_string();
    assert_eq!(
        projected_allow("rest", allow),
        parsed(r#"{"method": "POST", "path": "/repos/**"}"#)
    );
}

#[test]
fn proto_to_opa_data_json_pid_zero_no_expansion() {
    let document = wire(&proto_to_opa_data_json(&test_proto()));
    let binaries = document["network_policies"]["claude_code"]["binaries"]
        .as_array()
        .unwrap();
    assert_eq!(
        binaries.len(),
        1,
        "With pid=0, should have no expanded binaries"
    );
    assert_eq!(binaries[0]["path"], "/usr/local/bin/agent");
}

#[test]
fn resolved_binaries_join_the_policy() {
    let mut policy = test_proto();
    policy.network_policies[1].1.binaries = vec![
        binary(
            "/usr/bin/python3",
            BinaryResolution::Resolved("/usr/bin/python3.11".to_string()),
        ),
        binary("/usr/bin/missing", BinaryResolution::Absent),
    ];
    let document = wire(&proto_to_opa_data_json(&policy));
    assert_eq!(
        document["network_policies"]["gitlab"]["binaries"],
        parsed(
            r#"[{"path":"/usr/bin/python3"},{"path":"/usr/bin/python3.11"},{"path":"/usr/bin/missing"}]"#
        )
    );
}

#[test]
fn policy_sections_are_projected() {
    let document = wire(&proto_to_opa_data_json(&test_proto()));
    assert_eq!(
        document["filesystem_policy"],
        parsed(
            r#"{"include_workdir":true,"read_only":["/usr","/lib"],"read_write":["/sandbox","/tmp"]}"#
        )
    );
    assert_eq!(document["landlock"], parsed(r#"{"compatibility":"best_effort"}"#));
    assert_eq!(
        document["process"],
        parsed(r#"{"run_as_user":"sandbox","run_as_group":"sandbox"}"#)
    );
    assert_eq!(
        document["network_policies"]["gitlab"]["endpoints"][0],
        parsed(r#"{"host":"gitlab.com","ports":[443]}"#)
    );
}

#[test]
fn mcp_endpoint_keeps_its_identity_and_options() {
    let mut mcp = endpoint("mcp.example.com", 443);
    mcp.protocol = "MCP".to_string();
    mcp.endpoint_id = Some("endpoint-1".to_string());
    mcp.mcp = Some(McpOptions {
        versions: vec!["2025-11-25".to_string()],
        strict_tool_names: Some(false),
        allow_all_known_mcp_methods: None,
    });
    let mut policy = bare_policy(vec![(
        "mcp".to_string(),
        NetworkPolicyRule {
            name: "mcp".to_string(),
            endpoints: vec![mcp],
            binaries: vec![],
        },
    )]);
    policy.network_middlewares = vec![(
        "guard".to_string(),
        NetworkMiddleware {
            middleware: "openshell/regex".to_string(),
            order: 3,
            name: String::new(),
            config: Some(data(r#"{"pattern":"x"}"#)),
            on_error: "fail_open".to_string(),
            endpoints: Some(EndpointSelector {
                included: vec!["mcp.example.com".to_string()],
                excluded: vec![],
            }),
        },
    )];
    let document = wire(&proto_to_opa_data_json(&policy));
    let projected = &document["network_policies"]["mcp"]["endpoints"][0];
    assert_eq!(projected["endpoint_id"], "endpoint-1");
    assert_eq!(projected["policy_hash"], "policy-hash");
    assert_eq!(projected["mcp_versions"], parsed(r#"["2025-11-25"]"#));
    assert_eq!(projected["mcp_strict_tool_names"], false);
    assert!(projected.get("mcp_allow_all_known_mcp_methods").is_none());
    assert_eq!(
        document["network_middlewares"]["guard"],
        parsed(
            r#"{
                "middleware":"openshell/regex",
                "order":3,
                "config":{"pattern":"x"},
                "on_error":"fail_open",
                "endpoints":{"include":["mcp.example.com"]}
            }"#
        )
    );
}

#[test]
fn protocol_names_normalization_preserves_other_data_and_is_idempotent() {
    let authored = parsed(
        r#"{
            "network_policies": {
                "first": {
                    "endpoints": [
                        {"protocol": "ReSt", "path": "/KeepCase", "host": "KeepCase.example"},
                        {"protocol": "FutureProtocol"},
                        {"protocol": ""},
                        {"protocol": null},
                        {"protocol": 42},
                        {"host": "no-protocol.example"}
                    ]
                },
                "second": {"endpoints": [{"protocol": "JsOn-RpC"}]}
            }
        }"#,
    );
    let mut expected = authored.clone();
    expected["network_policies"]["first"]["endpoints"][0]["protocol"] = "rest".into();
    expected["network_policies"]["second"]["endpoints"][0]["protocol"] = "json-rpc".into();

    let mut data = plain(&authored);
    normalize_endpoint_protocols(&mut data);
    assert_eq!(
        wire(&data),
        expected,
        "only recognized protocol names may change"
    );
    normalize_endpoint_protocols(&mut data);
    assert_eq!(wire(&data), expected, "normalization must be idempotent");
}

#[test]
fn single_port_becomes_a_list() {
    let mut policy = data(
        r#"{"network_policies":{"p":{"endpoints":[
            {"port":443},
            {"port":443,"ports":[80]},
            {"port":0},
            {"ports":[]},
            "no endpoint"
        ]}}}"#,
    );
    normalize_endpoint_ports(&mut policy);
    assert_eq!(
        wire(&policy)["network_policies"]["p"]["endpoints"],
        parsed(r#"[{"ports":[443]},{"ports":[80]},{},{"ports":[]},"no endpoint"]"#)
    );
    normalize_endpoint_ports(&mut policy);
    assert_eq!(
        wire(&policy)["network_policies"]["p"]["endpoints"],
        parsed(r#"[{"ports":[443]},{"ports":[80]},{},{"ports":[]},"no endpoint"]"#)
    );
}

#[test]
fn mcp_rule_aliases_move_into_params() {
    let mut policy = data(
        r#"{"network_policies":{"p":{"endpoints":[{
            "protocol":"mcp",
            "mcp_allow_all_known_mcp_methods":true,
            "rules":[
                {"allow":{"tool":"read_*"}},
                {"allow":{}},
                {"allow":{"method":"tools/list","query":{"q":"","r":"x*"}}}
            ],
            "deny_rules":[{"tool":"delete"}]
        }]}}}"#,
    );
    normalize_l7_policy_rule_aliases(&mut policy);
    let endpoint = &wire(&policy)["network_policies"]["p"]["endpoints"][0];
    assert_eq!(
        endpoint["rules"],
        parsed(
            r#"[
                {"allow":{"params":{"name":{"glob":"read_*"}},"method":"tools/call"}},
                {"allow":{"method":"*"}},
                {"allow":{"method":"tools/list","query":{"q":"","r":{"glob":"x*"}}}}
            ]"#
        )
    );
    assert_eq!(
        endpoint["deny_rules"],
        parsed(r#"[{"params":{"name":{"glob":"delete"}},"method":"tools/call"}]"#)
    );
    let once = wire(&policy);
    normalize_l7_policy_rule_aliases(&mut policy);
    assert_eq!(wire(&policy), once);
}

#[test]
fn runtime_identity_requirement_joins_objects_only() {
    assert_eq!(
        wire(&inject_runtime_policy_data(data("{}"), true)),
        parsed(r#"{"runtime":{"require_binary_identity":true}}"#)
    );
    assert_eq!(
        wire(&inject_runtime_policy_data(data("[]"), true)),
        parsed("[]")
    );
}

fn stanzas() -> Vec<ConfigStanza> {
    vec![
        ConfigStanza {
            key: "json_rpc".to_string(),
            is_mcp: false,
        },
        ConfigStanza {
            key: "mcp".to_string(),
            is_mcp: true,
        },
    ]
}

fn fields(list: Vec<(&str, &str)>) -> Outcome {
    Ok(list
        .into_iter()
        .map(|(name, value)| (name.to_string(), data(value)))
        .collect())
}

#[test]
fn config_stanzas_are_lowered_in_place() {
    let mut policy = data(
        r#"{"network_policies":{"p":{"endpoints":[
            {"protocol":"mcp","mcp":{"versions":["a"]},"json_rpc":{"max":1},"kept":true},
            {"protocol":"json-rpc","json_rpc":{"max":1}},
            {"protocol":"Mcp"}
        ]}}}"#,
    );
    let requests = l7_config_requests(&policy, &stanzas());
    assert_eq!(requests.len(), 1);
    assert_eq!(requests[0].len(), 3);
    assert!(requests[0][0][0].is_none(), "the MCP stanza takes precedence");
    assert_eq!(
        wire(requests[0][0][1].as_ref().unwrap()),
        parsed(r#"{"versions":["a"]}"#)
    );
    assert_eq!(
        wire(requests[0][1][0].as_ref().unwrap()),
        parsed(r#"{"max":1}"#)
    );
    let table = vec![vec![
        vec![
            fields(vec![]),
            fields(vec![("mcp_versions", r#"["a"]"#), ("kept", "false")]),
        ],
        vec![fields(vec![("json_rpc_max_body_bytes", "1")]), fields(vec![])],
        vec![fields(vec![]), fields(vec![])],
    ]];
    let errors = normalize_l7_config_aliases(
        &mut policy,
        &stanzas(),
        &table,
        &fields(vec![("mcp_versions", r#"["default"]"#)]),
    );
    assert!(errors.is_empty(), "{errors:?}");
    assert_eq!(
        wire(&policy)["network_policies"]["p"]["endpoints"],
        parsed(
            r#"[
                {"protocol":"mcp","kept":true,"mcp_versions":["a"]},
                {"protocol":"json-rpc","json_rpc_max_body_bytes":1},
                {"protocol":"Mcp","mcp_versions":["default"]}
            ]"#
        )
    );
}

#[test]
fn config_stanza_faults_are_located() {
    let mut policy = data(
        r#"{"network_policies":{"p":{"endpoints":[
            {"mcp":null},
            {"mcp":{"versions":[]},"mcp_versions":["x"]},
            {"json_rpc":7},
            {"protocol":"mcp"}
        ]}}}"#,
    );
    let table = vec![vec![
        vec![fields(vec![]), fields(vec![])],
        vec![fields(vec![]), fields(vec![("mcp_versions", "[]")])],
        vec![Err("not an object".to_string()), fields(vec![])],
        vec![],
    ]];
    let errors = normalize_l7_config_aliases(
        &mut policy,
        &stanzas(),
        &table,
        &Err("no default".to_string()),
    );
    assert_eq!(
        errors,
        vec![
            "network_policies.p.endpoints[0].mcp: mcp config must be an object".to_string(),
            "network_policies.p.endpoints[1]: mcp.versions and mcp_versions cannot both be set"
                .to_string(),
            "network_policies.p.endpoints[2].json_rpc: not an object".to_string(),
            "network_policies.p.endpoints[3].mcp: no default".to_string(),
        ]
    );
}

fn opa_container_policy() -> serde_json::Value {
    parsed(
        r#"{
            "filesystem_policy": {},
            "landlock": {},
            "process": {},
            "network_middlewares": {},
            "network_policies": {
                "admin": {
                    "endpoints": [{
                        "host": "admin.example.test",
                        "port": 443,
                        "protocol": "rest",
                        "enforcement": "enforce",
                        "access": "full",
                        "deny_rules": [{"method": "DELETE", "path": "/admin/**"}]
                    }],
                    "binaries": [{"path": "/usr/bin/curl"}]
                }
            }
        }"#,
    )
}

fn rejection(candidate: &serde_json::Value) -> Option<String> {
    match PolicyLoad::from_raw_data(Some(plain(candidate)), true).state {
        LoadState::Rejected(message) => Some(message),
        LoadState::Schema(_) => None,
        other => panic!("unexpected {other:?}"),
    }
}

fn set(candidate: &mut serde_json::Value, pointer: &str, value: serde_json::Value) {
    let (parent, field) = pointer.rsplit_once('/').expect("field pointer");
    candidate
        .pointer_mut(parent)
        .and_then(serde_json::Value::as_object_mut)
        .expect("container parent must be an object")
        .insert(field.to_string(), value);
}

#[test]
fn yaml_containers_reject_malformed_objects_and_collections() {
    let valid = opa_container_policy();
    assert_eq!(
        rejection(&valid),
        None,
        "control policy must load before changing one container"
    );
    let invalid_objects = [
        parsed("null"),
        parsed("[]"),
        parsed(r#""untrusted-marker""#),
        parsed("42"),
        parsed("false"),
    ];
    for invalid in &invalid_objects {
        assert_eq!(
            rejection(invalid).expect("non-object root must reject"),
            "OPA policy data must be an object"
        );
    }

    let object_cases = [
        ("/filesystem_policy", "filesystem_policy must be an object"),
        ("/landlock", "landlock must be an object"),
        ("/process", "process must be an object"),
        ("/network_policies", "network_policies must be an object"),
        (
            "/network_policies/admin",
            "network policy entries must be objects",
        ),
        (
            "/network_middlewares",
            "network_middlewares must be an object",
        ),
        (
            "/network_middlewares/untrusted-marker",
            "network middleware entries must be objects",
        ),
    ];
    for (pointer, expected) in object_cases {
        for invalid in &invalid_objects {
            let mut candidate = valid.clone();
            set(&mut candidate, pointer, invalid.clone());
            let error = rejection(&candidate).expect("malformed object must reject");
            assert_eq!(error, expected, "{pointer}: {invalid}");
        }
    }

    let collection_cases = [
        (
            "/network_policies/admin/endpoints",
            "network policy endpoints",
        ),
        (
            "/network_policies/admin/binaries",
            "network policy binaries",
        ),
        (
            "/network_policies/admin/endpoints/0/rules",
            "network endpoint rules",
        ),
        (
            "/network_policies/admin/endpoints/0/deny_rules",
            "network endpoint deny_rules",
        ),
    ];
    for (pointer, field_label) in collection_cases {
        for invalid in [
            parsed("null"),
            parsed(r#"{"untrusted-marker": "value"}"#),
            parsed(r#""untrusted-marker""#),
            parsed("42"),
            parsed("false"),
            parsed("[null]"),
            parsed(r#"["untrusted-marker"]"#),
            parsed("[{}, false]"),
        ] {
            let mut candidate = valid.clone();
            set(&mut candidate, pointer, invalid.clone());
            let error = rejection(&candidate).expect("malformed collection must reject");
            let expected = if invalid.is_array() {
                format!("{field_label} entries must be objects")
            } else {
                format!("{field_label} must be an array")
            };
            assert_eq!(error, expected, "{pointer}: {invalid}");
            assert!(error.len() <= 128);
            assert!(!error.contains("untrusted-marker"));
        }
    }
}

#[test]
fn yaml_containers_structural_errors_are_fixed_for_large_untrusted_input() {
    let mut data = opa_container_policy();
    let marker = "sensitive-\u{1f980}".repeat(128);
    let mut endpoint = parsed("{}");
    endpoint["deny_rules"] = serde_json::Value::String(marker);
    data["network_policies"]["admin"]["endpoints"] =
        serde_json::Value::Array(vec![endpoint; 1024]);
    let message = rejection(&data).expect("malformed denial collections must reject");
    assert_eq!(message, "network endpoint deny_rules must be an array");
    assert!(message.len() <= 128);
    assert_eq!(message.lines().count(), 1);
    assert!(!message.contains("sensitive"));
}

#[test]
fn load_diagnostics_enforce_item_and_byte_limits_with_omission() {
    let long_category = "固定診断".repeat(16);
    for count in [0, 1, 8, 9, 100_000] {
        let message = render_repeated_validation_diagnostic(
            "policy validation failed",
            count,
            "invalid filesystem path",
        );
        assert!(message.len() <= 512);
        assert_eq!(
            message.matches("invalid filesystem path").count(),
            count.min(8)
        );
        assert_eq!(message.contains("additional violations omitted"), count > 8);
    }

    let message =
        render_repeated_validation_diagnostic("policy validation failed", 8, &long_category);
    assert!(message.len() <= 512);
    assert_eq!(message.matches(&*long_category).count(), 2);
    assert!(message.ends_with("; additional violations omitted"));
}

#[test]
fn diagnostics_list_categories_in_order() {
    assert_eq!(
        render_bounded_validation_diagnostics(
            "heading",
            &vec!["one".to_string(), "two".to_string()]
        ),
        "heading: one; two"
    );
    assert_eq!(
        redacted_policy_violation_category(PolicyViolation::TooManyPaths),
        "filesystem path limit exceeded"
    );
    assert_eq!(
        redacted_policy_violation_category(PolicyViolation::DuplicateMcpVersion),
        "duplicate MCP protocol version"
    );
}

fn message(load: &PolicyLoad) -> String {
    match &load.state {
        LoadState::Rejected(message) => message.clone(),
        other => panic!("expected a rejection, got {other:?}"),
    }
}

#[test]
fn raw_data_goes_through_every_stage() {
    let mut load = PolicyLoad::from_raw_data(
        Some(data(
            r#"{"network_policies":{"p":{"endpoints":[{"protocol":"REST","port":443}]}}}"#,
        )),
        false,
    );
    let normalized = match &load.state {
        LoadState::Schema(data) => data.copy(),
        other => panic!("unexpected {other:?}"),
    };
    assert!(load.on(LoadEvent::Schema(Ok(normalized))).is_empty());
    match &load.state {
        LoadState::Stanzas(data) => {
            let data = wire(data);
            assert_eq!(data["runtime"]["require_binary_identity"], false);
            assert_eq!(
                data["network_policies"]["p"]["endpoints"][0],
                parsed(r#"{"protocol":"rest","ports":[443]}"#)
            );
        }
        other => panic!("unexpected {other:?}"),
    }
    assert!(load
        .on(LoadEvent::Stanzas(stanzas(), vec![], fields(vec![])))
        .is_empty());
    assert!(load.on(LoadEvent::Middleware(Ok(vec![]))).is_empty());
    assert_eq!(
        load.on(LoadEvent::Rules(0, vec!["deprecated".to_string()])),
        vec!["L7 policy validation warning: deprecated".to_string()]
    );
    assert_eq!(
        load.on(LoadEvent::Presets(
            data(r#"{"done":[1,true]}"#),
            vec!["expanded".to_string()]
        )),
        vec!["L7 access preset expansion warning: expanded".to_string()]
    );
    match load.prepared() {
        Some(PreparedData::Ready(document)) => assert_eq!(document, r#"{"done":[1,true]}"#),
        other => panic!("unexpected {other:?}"),
    }
    match load.state {
        LoadState::Ready(document) => assert_eq!(document, r#"{"done":[1,true]}"#),
        other => panic!("unexpected {other:?}"),
    }
}

fn at_rules() -> PolicyLoad {
    PolicyLoad {
        require_binary_identity: true,
        state: LoadState::Rules(data("{}")),
    }
}

#[test]
fn every_stage_can_reject_a_candidate() {
    let unconverted = PolicyLoad::from_raw_data(None, true);
    assert!(matches!(unconverted.prepared(), Some(PreparedData::Rejected(_))));
    assert!(at_rules().prepared().is_none());
    assert_eq!(
        message(&unconverted),
        "failed to convert YAML policy data to JSON"
    );

    let mut schema = PolicyLoad::from_raw_data(Some(data("{}")), true);
    schema.on(LoadEvent::Schema(Err("bad field".to_string())));
    assert_eq!(
        message(&schema),
        "OPA policy schema validation failed: bad field"
    );

    let mut config = PolicyLoad {
        require_binary_identity: true,
        state: LoadState::Stanzas(data(
            r#"{"network_policies":{"p":{"endpoints":[{"mcp":null}]}}}"#,
        )),
    };
    config.on(LoadEvent::Stanzas(stanzas(), vec![], fields(vec![])));
    assert_eq!(
        message(&config),
        "L7 policy validation failed: invalid L7 protocol configuration"
    );

    for (event, expected) in [
        (
            LoadEvent::Middleware(Err(())),
            "failed to parse or convert middleware policy configuration",
        ),
        (
            LoadEvent::Middleware(Ok(vec![PolicyViolation::DuplicateMiddlewareOrder])),
            "middleware policy validation failed: duplicate middleware order",
        ),
    ] {
        let mut middleware = PolicyLoad {
            require_binary_identity: true,
            state: LoadState::Middleware(data("{}")),
        };
        assert!(middleware.on(event).is_empty());
        assert_eq!(message(&middleware), expected);
    }

    let mut rules = at_rules();
    assert!(rules
        .on(LoadEvent::Rules(2, vec!["authored value".to_string()]))
        .is_empty());
    assert_eq!(
        message(&rules),
        "L7 policy validation failed: invalid L7 policy configuration; invalid L7 policy configuration"
    );
}

#[test]
fn events_that_are_not_due_change_nothing() {
    let mut rules = at_rules();
    assert!(rules.on(LoadEvent::Middleware(Err(()))).is_empty());
    assert!(matches!(rules.state, LoadState::Rules(_)));
}

#[test]
fn typed_policies_start_at_their_rules() {
    let load = PolicyLoad::from_policy(&Ok(test_proto()), 0, true);
    match &load.state {
        LoadState::Rules(data) => {
            let data = wire(data);
            assert_eq!(data["runtime"]["require_binary_identity"], true);
            assert_eq!(data["network_policies"]["gitlab"]["name"], "gitlab");
        }
        other => panic!("unexpected {other:?}"),
    }
    let violations = PolicyLoad::from_policy(&Err(vec![PolicyViolation::PathTraversal]), 0, true);
    assert_eq!(
        message(&violations),
        "policy validation failed: invalid filesystem path"
    );
    let ambiguous = PolicyLoad::from_policy(&Ok(test_proto()), 1, true);
    assert_eq!(
        message(&ambiguous),
        "network endpoint ambiguity validation failed: ambiguous network endpoint selectors"
    );
}

#[test]
fn parse_errors_show_no_contents() {
    assert_eq!(
        redacted_raw_parse_error("duplicate key", Some((2, 5))),
        "failed to parse YAML data: duplicate key at line 2, column 5"
    );
    assert_eq!(
        redacted_raw_parse_error("too deep", None),
        "failed to parse YAML data: too deep"
    );
    assert_eq!(
        raw_file_error(RawFileFault::Io, "/private/path", None),
        "failed to read YAML policy data file"
    );
    assert_eq!(
        raw_file_error(RawFileFault::Contents, "too deep", None),
        "failed to parse YAML data: too deep"
    );
    assert_eq!(
        binary_identity_notice(false, "files"),
        "OPA runtime binary identity mode configured [source:files require_binary_identity:false]"
    );
}

#[test]
fn document_lists_middlewares_by_name() {
    let mut policy = bare_policy(vec![]);
    for name in ["zeta", "alpha"] {
        policy.network_middlewares.push((
            name.to_string(),
            NetworkMiddleware {
                middleware: "openshell/regex".to_string(),
                order: 1,
                name: String::new(),
                config: None,
                on_error: String::new(),
                endpoints: None,
            },
        ));
    }
    let JsonValue::Object(document) = proto_to_opa_data_json(&policy) else {
        panic!("document must be an object");
    };
    let JsonValue::Object(middlewares) = &document[4].1 else {
        panic!("middlewares must be an object");
    };
    assert_eq!(middlewares[0].0, "alpha");
    assert_eq!(middlewares[1].0, "zeta");
}

#[test]
fn stanza_without_an_outcome_is_a_fault() {
    for table in [vec![], vec![vec![]], vec![vec![vec![]]]] {
        let mut policy = data(r#"{"network_policies":{"p":{"endpoints":[{"json_rpc":{"max":1}}]}}}"#);
        let errors = normalize_l7_config_aliases(&mut policy, &stanzas(), &table, &fields(vec![]));
        assert_eq!(
            errors,
            vec![
                "network_policies.p.endpoints[0].json_rpc: configuration was not lowered"
                    .to_string()
            ]
        );
    }
}
