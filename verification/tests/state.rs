use policy_hub::state::{startup_action, verdict_of, Artifact, StartupAction};
use policy_hub::{
    ApiError, AppState, CoreError, CreatePolicyRequest, CreateRuleTemplateRequest, ExecutePolicyRequest,
    ExecutionResult, ExecutorError, InMemoryStorage, JsonValue, Policy, PolicyStorage,
    RuleTemplate, RuleTemplateStorage, StorageError,
};

const DISCOUNT: &str =
    r#"rule("discount").when(f => f.amount > 100).then(f => ({discount: f.amount * 0.1}))"#;

fn json(text: &str) -> JsonValue {
    JsonValue::parse(text).expect("valid JSON")
}

fn new_state() -> AppState<InMemoryStorage> {
    AppState::new().expect("Failed to create WASM executor")
}

fn rebuild(state: &mut AppState<InMemoryStorage>, written: Option<Policy>) {
    let bundle = state.rebuild_bundle(written).expect("rebuild");
    state.install_bundle(bundle);
}

fn create_template(state: &mut AppState<InMemoryStorage>, name: &str, source: &str) -> RuleTemplate {
    let saved = state
        .create_rule_template(&CreateRuleTemplateRequest {
            name: name.to_string(),
            source: source.to_string(),
        })
        .expect("Failed to create template");
    rebuild(state, None);
    saved
}

fn create_policy(
    state: &mut AppState<InMemoryStorage>,
    name: &str,
    template_id: u128,
    version: Option<u32>,
    metadata: &str,
) -> Policy {
    let saved = state
        .create_policy(&CreatePolicyRequest {
            name: name.to_string(),
            rule_template_id: template_id,
            rule_template_version: version,
            metadata: json(metadata),
            description: None,
        })
        .expect("Failed to create policy");
    rebuild(state, Some(saved.clone()));
    saved
}

fn execute(state: &AppState<InMemoryStorage>, policy_id: u128, facts: &str) -> ExecutionResult {
    let bundle = state.cached().expect("a bundle is cached");
    state
        .execute_policy(&ExecutePolicyRequest { policy_id, facts: json(facts) }, &bundle)
        .expect("Failed to execute policy")
}

fn number(value: &JsonValue) -> f64 {
    match value {
        JsonValue::Number(n) => n.parse::<f64>().expect("numeral"),
        other => panic!("not a number: {:?}", other),
    }
}

#[test]
fn test_full_policy_lifecycle() {
    let mut state = new_state();

    let rule_source = r#"
        rule("test-rule")
            .when(facts => facts.value > 10)
            .then(facts => ({ result: "high" }));
    "#;
    let template = create_template(&mut state, "test-rule", rule_source);
    let policy = create_policy(
        &mut state,
        "test-policy",
        template.id,
        Some(template.version),
        r#"{ "environment": "test" }"#,
    );

    let result = execute(&state, policy.id, r#"{ "value": 20 }"#);
    assert_eq!(result.success, true);
    assert_eq!(result.output_facts.get("result"), Some(&JsonValue::String("high".to_string())));

    let result = execute(&state, policy.id, r#"{ "value": 5 }"#);
    assert_eq!(result.success, true);
    assert_eq!(result.output_facts, JsonValue::Null);
}

#[test]
fn test_multiple_policies_bundling() {
    let mut state = new_state();

    fn source(name: &str, condition: &str, output: &str) -> String {
        format!(
            r#"rule("{}").when(facts => {}).then(facts => ({{ result: {} }}));"#,
            name, condition, output
        )
    }

    let t1 = create_template(&mut state, "T1", &source("T1", "facts.val > 10", "\"High\""));
    let high = create_policy(&mut state, "high-policy", t1.id, Some(t1.version), "{}");
    let t2 = create_template(&mut state, "T2", &source("T2", "facts.val < 5", "\"Low\""));
    let low = create_policy(&mut state, "low-policy", t2.id, Some(t2.version), "{}");
    let t3 = create_template(&mut state, "T3", &source("T3", "facts.val === 7", "\"Lucky\""));
    let lucky = create_policy(&mut state, "lucky-policy", t3.id, Some(t3.version), "{}");

    let out = execute(&state, high.id, r#"{ "val": 20 }"#);
    assert_eq!(out.output_facts.get("result"), Some(&JsonValue::String("High".to_string())));

    let out = execute(&state, low.id, r#"{ "val": 2 }"#);
    assert_eq!(out.output_facts.get("result"), Some(&JsonValue::String("Low".to_string())));

    let out = execute(&state, lucky.id, r#"{ "val": 7 }"#);
    assert_eq!(out.output_facts.get("result"), Some(&JsonValue::String("Lucky".to_string())));

    // No cross-talk: the first policy's own condition governs.
    let out = execute(&state, high.id, r#"{ "val": 2 }"#);
    assert_eq!(out.success, true);
    assert_eq!(out.condition_met, false);
    assert_eq!(out.output_facts, JsonValue::Null);
}

#[test]
fn it_creates_a_new_template() {
    let mut state = new_state();
    let name = "rspec-test-1";
    let saved = state
        .create_rule_template(&CreateRuleTemplateRequest {
            name: name.to_string(),
            source: r#"rule("test").when(f => true).then(f => ({ok: true}))"#.to_string(),
        })
        .expect("Create template failed");
    assert_eq!(saved.name, name);
    assert!(saved.version >= 1);
    assert_eq!(state.get_rule_template(saved.id).expect("stored").id, saved.id);
}

#[test]
fn it_lists_all_templates() {
    let mut state = new_state();
    assert_eq!(state.list_rule_templates().expect("List templates failed"), Vec::<String>::new());
    create_template(&mut state, "beta", DISCOUNT);
    create_template(&mut state, "alpha", DISCOUNT);
    create_template(&mut state, "beta", DISCOUNT);
    assert_eq!(
        state.list_rule_templates().expect("List templates failed"),
        vec!["alpha".to_string(), "beta".to_string()]
    );
}

#[test]
fn it_executes_when_condition_is_met() {
    let mut state = new_state();
    let template = create_template(&mut state, "discount-1", DISCOUNT);
    let policy = create_policy(&mut state, "discount-policy-1", template.id, None, "{}");

    let result = execute(&state, policy.id, r#"{"amount": 150}"#);

    assert_eq!(result.success, true);
    assert_eq!(result.condition_met, true);
    assert_eq!(number(result.output_facts.get("discount").expect("discount")), 15.0);
    assert_eq!(result.error, None);
}

#[test]
fn it_does_not_execute_when_condition_is_not_met() {
    let mut state = new_state();
    let template = create_template(&mut state, "no-discount-1", DISCOUNT);
    let policy = create_policy(&mut state, "no-discount-policy-1", template.id, None, "{}");

    let result = execute(&state, policy.id, r#"{"amount": 50}"#);

    assert_eq!(result.success, true);
    assert_eq!(result.condition_met, false);
    assert_eq!(result.output_facts, JsonValue::Null);
}

#[test]
fn it_handles_boundary_value() {
    let mut state = new_state();
    let template = create_template(&mut state, "boundary-1", DISCOUNT);
    let policy = create_policy(&mut state, "boundary-policy-1", template.id, None, "{}");

    let result = execute(&state, policy.id, r#"{"amount": 100}"#);

    assert_eq!(result.success, true);
    assert_eq!(result.condition_met, false);
}

#[test]
fn repeated_execution_gives_the_same_verdict() {
    let mut state = new_state();
    let template = create_template(&mut state, "discount", DISCOUNT);
    let policy = create_policy(&mut state, "discount-policy", template.id, None, "{}");

    let first = execute(&state, policy.id, r#"{"amount": 150}"#);
    for _ in 0..5 {
        let again = execute(&state, policy.id, r#"{"amount": 150}"#);
        assert_eq!(again.success, first.success);
        assert_eq!(again.condition_met, first.condition_met);
        assert_eq!(again.output_facts, first.output_facts);
        assert_eq!(again.error, first.error);
    }
}

#[test]
fn metadata_is_captured_into_every_execution() {
    let mut state = new_state();
    let template = create_template(
        &mut state,
        "tiered",
        r#"rule("tiered").when((f, m) => f.amount > m.floor).then((f, m) => ({tier: m.tier}))"#,
    );
    let gold =
        create_policy(&mut state, "gold", template.id, None, r#"{"floor": 100, "tier": "gold"}"#);
    let iron =
        create_policy(&mut state, "iron", template.id, None, r#"{"floor": 10, "tier": "iron"}"#);

    let out = execute(&state, gold.id, r#"{"amount": 50}"#);
    assert_eq!(out.condition_met, false);
    let out = execute(&state, iron.id, r#"{"amount": 50}"#);
    assert_eq!(out.condition_met, true);
    assert_eq!(out.output_facts.get("tier"), Some(&JsonValue::String("iron".to_string())));
    let out = execute(&state, gold.id, r#"{"amount": 500}"#);
    assert_eq!(out.output_facts.get("tier"), Some(&JsonValue::String("gold".to_string())));
}

#[test]
fn invalid_source_is_turned_down_and_nothing_is_stored() {
    let mut state = new_state();
    for source in
        ["", "function() { when(true) ", "   \n\t", "when(true))", "nothing here", "when }{ )("]
    {
        let r = state.create_rule_template(&CreateRuleTemplateRequest {
            name: "broken".to_string(),
            source: source.to_string(),
        });
        match r {
            Err(ApiError::Compilation(_)) => {}
            other => panic!("expected a compilation error for {:?}, got {:?}", source, other),
        }
    }
    assert_eq!(state.list_rule_templates().unwrap(), Vec::<String>::new());
    assert!(state.storage.get_versions_by_name("broken").unwrap().is_empty());
    assert!(state.cached().is_none());
}

#[test]
fn versions_count_up_and_only_the_last_is_latest() {
    let mut state = new_state();
    for _ in 0..4 {
        create_template(&mut state, "pricing", DISCOUNT);
        create_template(&mut state, "other", DISCOUNT);
    }
    let response = state.get_rule_template_versions("pricing").expect("versions");
    assert_eq!(response.name, "pricing");
    let versions: Vec<u32> = response.versions.iter().map(|v| v.version).collect();
    assert_eq!(versions, vec![1, 2, 3, 4]);
    let latest: Vec<bool> = response.versions.iter().map(|v| v.is_latest).collect();
    assert_eq!(latest, vec![false, false, false, true]);
}

#[test]
fn unknown_names_and_identifiers_are_not_found() {
    let mut state = new_state();
    match state.get_rule_template_versions("nobody") {
        Err(ApiError::NotFound(m)) => assert_eq!(m, "Rule template 'nobody' not found"),
        other => panic!("{:?}", other),
    }
    match state.get_rule_template(1) {
        Err(ApiError::NotFound(m)) => {
            assert_eq!(m, "Rule template 00000000-0000-0000-0000-000000000001 not found")
        }
        other => panic!("{:?}", other),
    }
    match state.get_policy(0x1234) {
        Err(ApiError::NotFound(m)) => {
            assert_eq!(m, "Policy 00000000-0000-0000-0000-000000001234 not found")
        }
        other => panic!("{:?}", other),
    }
    let r = state.create_policy(&CreatePolicyRequest {
        name: "p".to_string(),
        rule_template_id: 7,
        rule_template_version: None,
        metadata: JsonValue::Null,
        description: None,
    });
    assert!(matches!(r, Err(ApiError::NotFound(_))));
    assert!(state.list_policies().unwrap().is_empty());
}

#[test]
fn a_policy_must_name_the_version_that_is_stored() {
    let mut state = new_state();
    let template = create_template(&mut state, "t", DISCOUNT);
    let r = state.create_policy(&CreatePolicyRequest {
        name: "p".to_string(),
        rule_template_id: template.id,
        rule_template_version: Some(12),
        metadata: JsonValue::Null,
        description: Some("about p".to_string()),
    });
    match r {
        Err(ApiError::NotFound(m)) => assert_eq!(
            m,
            format!(
                "Rule template {} version 12 not found",
                policy_hub::ident::to_hyphenated(template.id)
            )
        ),
        other => panic!("{:?}", other),
    }
    let saved = state
        .create_policy(&CreatePolicyRequest {
            name: "p".to_string(),
            rule_template_id: template.id,
            rule_template_version: Some(1),
            metadata: JsonValue::Null,
            description: Some("about p".to_string()),
        })
        .expect("created");
    assert_eq!(saved.rule_template_version, 1);
    assert_eq!(saved.description, Some("about p".to_string()));
    assert!(saved.is_active);
    assert_eq!(state.get_policy(saved.id).unwrap().name, "p");
}

#[test]
fn executing_an_unknown_policy_is_not_found() {
    let mut state = new_state();
    let template = create_template(&mut state, "t", DISCOUNT);
    create_policy(&mut state, "p", template.id, None, "{}");
    let bundle = state.cached().unwrap();
    let r = state.execute_policy(
        &ExecutePolicyRequest { policy_id: 99, facts: JsonValue::Null },
        &bundle,
    );
    assert!(matches!(r, Err(ApiError::NotFound(_))));
}

#[test]
fn a_policy_missing_from_a_stale_bundle_is_a_failed_verdict() {
    let mut state = new_state();
    let template = create_template(&mut state, "t", DISCOUNT);
    let first = create_policy(&mut state, "first", template.id, None, "{}");
    let stale = state.cached().unwrap();
    let second = create_policy(&mut state, "second", template.id, None, "{}");

    let r = state
        .execute_policy(
            &ExecutePolicyRequest { policy_id: second.id, facts: json(r#"{"amount": 150}"#) },
            &stale,
        )
        .expect("a verdict");
    assert_eq!(r.success, false);
    assert_eq!(r.condition_met, false);
    assert_eq!(r.output_facts, JsonValue::Null);
    assert_eq!(
        r.error,
        Some(format!(
            "\"Policy not found in bundle: {}\"",
            policy_hub::ident::to_hyphenated(second.id)
        ))
    );
    let r = state
        .execute_policy(
            &ExecutePolicyRequest { policy_id: first.id, facts: json(r#"{"amount": 150}"#) },
            &stale,
        )
        .expect("a verdict");
    assert!(r.success && r.condition_met);
}

#[test]
fn a_sandbox_fault_is_a_failed_verdict() {
    let mut state = new_state();
    let template = create_template(&mut state, "t", DISCOUNT);
    let policy = create_policy(&mut state, "p", template.id, None, "{}");
    let r = state
        .execute_policy(
            &ExecutePolicyRequest { policy_id: policy.id, facts: JsonValue::Null },
            &[0xff, 0xfe],
        )
        .expect("a verdict");
    assert_eq!(r.success, false);
    let message = r.error.expect("a message");
    assert!(message.starts_with("Runtime error: Invalid bundle encoding: "), "{}", message);
}

#[test]
fn rebuild_covers_a_policy_that_the_listing_does_not_show_yet() {
    let mut state = new_state();
    let template = create_template(&mut state, "t", DISCOUNT);
    let unlisted = Policy::new("unlisted".to_string(), template.id, 1, json("{}"));
    let bundle = state.rebuild_bundle(Some(unlisted.clone())).expect("rebuild");
    let text = String::from_utf8(bundle).unwrap();
    assert!(text.contains(&policy_hub::ident::to_hyphenated(unlisted.id)));

    // A policy that is listed is not added a second time.
    let listed = create_policy(&mut state, "listed", template.id, None, "{}");
    let bundle = state.rebuild_bundle(Some(listed.clone())).expect("rebuild");
    let text = String::from_utf8(bundle).unwrap();
    assert_eq!(text.matches("__register_policy(\"").count(), 1);
}

#[test]
fn rebuild_fails_where_a_template_is_gone() {
    let mut state = new_state();
    let orphan = Policy::new("orphan".to_string(), 42, 1, json("{}"));
    PolicyStorage::save_policy(&mut state.storage, orphan.clone()).unwrap();
    match state.rebuild_bundle(None) {
        Err(ApiError::Internal(m)) => assert_eq!(
            m,
            format!(
                "Bundling failed: policy {} refers to template \
                 00000000-0000-0000-0000-00000000002a, which was not supplied",
                policy_hub::ident::to_hyphenated(orphan.id)
            )
        ),
        other => panic!("{:?}", other.map(|b| b.len())),
    }
}

#[test]
fn rebuild_fails_where_a_stored_template_does_not_compile() {
    let mut state = new_state();
    let broken = RuleTemplate::new("broken".to_string(), "no keywords".to_string());
    RuleTemplateStorage::save(&mut state.storage, broken.clone()).unwrap();
    PolicyStorage::save_policy(
        &mut state.storage,
        Policy::new("p".to_string(), broken.id, 1, json("{}")),
    )
    .unwrap();
    assert!(matches!(state.rebuild_bundle(None), Err(ApiError::Compilation(_))));
}

#[test]
fn startup_installs_what_was_persisted_without_rebuilding() {
    let mut state = new_state();
    let started = state.initialize_bundle(Some(b"persisted".to_vec())).expect("started");
    assert_eq!(started, (0, None));
    assert_eq!(state.cached(), Some(b"persisted".to_vec()));
}

#[test]
fn startup_leaves_the_slot_empty_without_policies() {
    let mut state = new_state();
    let started = state.initialize_bundle(None).expect("started");
    assert_eq!(started, (0, None));
    assert_eq!(state.cached(), None);
}

#[test]
fn startup_rebuilds_from_stored_policies() {
    let mut state = new_state();
    let template = state
        .create_rule_template(&CreateRuleTemplateRequest {
            name: "t".to_string(),
            source: DISCOUNT.to_string(),
        })
        .unwrap();
    let policy = state
        .create_policy(&CreatePolicyRequest {
            name: "p".to_string(),
            rule_template_id: template.id,
            rule_template_version: None,
            metadata: json("{}"),
            description: None,
        })
        .unwrap();
    let (count, built) = state.initialize_bundle(None).expect("started");
    assert_eq!(count, 1);
    let built = built.expect("an artifact to persist");
    assert_eq!(state.cached(), None);
    state.install_bundle(built.clone());
    assert_eq!(state.cached(), Some(built));
    let result = execute(&state, policy.id, r#"{"amount": 150}"#);
    assert!(result.condition_met);
}

#[test]
fn startup_decisions() {
    assert!(matches!(startup_action(Some(vec![1, 2]), 3), StartupAction::Install(b) if b == vec![1, 2]));
    assert!(matches!(startup_action(None, 0), StartupAction::LeaveEmpty));
    assert!(matches!(startup_action(None, 3), StartupAction::Rebuild));
}

#[test]
fn api_errors_carry_status_and_kind() {
    let cases = [
        (ApiError::NotFound("x".to_string()), 404, "not_found", "Not found: x"),
        (ApiError::BadRequest("x".to_string()), 400, "bad_request", "Bad request: x"),
        (ApiError::Compilation("x".to_string()), 400, "compilation_error", "Compilation error: x"),
        (ApiError::Execution("x".to_string()), 500, "execution_error", "Execution error: x"),
        (ApiError::Internal("x".to_string()), 500, "internal_error", "Internal error: x"),
    ];
    for (error, status, kind, text) in cases {
        assert_eq!(error.status_code(), status);
        assert_eq!(error.error_type(), kind);
        assert_eq!(error.to_string(), text);
    }
}

#[test]
fn errors_of_the_parts_map_onto_api_errors() {
    assert!(matches!(
        ApiError::from(StorageError::NotFound("gone".to_string())),
        ApiError::NotFound(m) if m == "gone"
    ));
    assert!(matches!(
        ApiError::from(StorageError::AlreadyExists("dup".to_string())),
        ApiError::BadRequest(m) if m == "dup"
    ));
    assert!(matches!(
        ApiError::from(StorageError::Connection("down".to_string())),
        ApiError::Internal(m) if m == "Connection error: down"
    ));
    assert!(matches!(
        ApiError::from(StorageError::Serialization("bad".to_string())),
        ApiError::Internal(m) if m == "Serialization error: bad"
    ));
    assert!(matches!(
        ApiError::from(StorageError::Internal("oops".to_string())),
        ApiError::Internal(m) if m == "Internal error: oops"
    ));
    assert!(matches!(
        ApiError::from(ExecutorError::Timeout),
        ApiError::Execution(m) if m == "Execution timeout"
    ));
    assert!(matches!(
        ApiError::from(ExecutorError::ScriptNotLoaded),
        ApiError::Execution(m) if m == "Script not loaded"
    ));
    assert!(matches!(
        ApiError::from(ExecutorError::InvalidInput("x".to_string())),
        ApiError::Execution(m) if m == "Invalid input: x"
    ));
    assert!(matches!(
        ApiError::from(policy_hub::CompilerError::SyntaxError("x".to_string())),
        ApiError::Compilation(m) if m == "Syntax error: x"
    ));
}

#[test]
fn a_fault_becomes_a_failed_verdict_with_its_text() {
    let v = verdict_of(Err(ExecutorError::Timeout), 12);
    assert_eq!(v.success, false);
    assert_eq!(v.condition_met, false);
    assert_eq!(v.output_facts, JsonValue::Null);
    assert_eq!(v.execution_time_ms, 12);
    assert_eq!(v.error, Some("Execution timeout".to_string()));

    let ok = ExecutionResult::success(true, JsonValue::Bool(true), 3);
    let v = verdict_of(Ok(ok.clone()), 99);
    assert_eq!(v.execution_time_ms, 3);
    assert_eq!(v.output_facts, JsonValue::Bool(true));
    assert!(v.success && v.condition_met);
}

#[test]
fn an_empty_slot_is_filled_by_building() {
    let mut state = new_state();
    let template = state
        .create_rule_template(&CreateRuleTemplateRequest {
            name: "t".to_string(),
            source: DISCOUNT.to_string(),
        })
        .unwrap();
    state
        .create_policy(&CreatePolicyRequest {
            name: "p".to_string(),
            rule_template_id: template.id,
            rule_template_version: None,
            metadata: json("{}"),
            description: None,
        })
        .unwrap();
    let built = match state.get_or_build().expect("an artifact") {
        Artifact::Built(bundle) => bundle,
        Artifact::Cached(_) => panic!("the slot was empty"),
    };
    assert_eq!(state.cached(), None);
    state.install_bundle(built.clone());
    match state.get_or_build().expect("an artifact") {
        Artifact::Cached(bundle) => assert_eq!(bundle, built),
        Artifact::Built(_) => panic!("the slot was full"),
    }
    state.install_bundle(b"newer".to_vec());
    assert_eq!(state.cached(), Some(b"newer".to_vec()));
}

#[test]
fn core_errors_print_their_kind() {
    assert_eq!(CoreError::Serialization("x".to_string()).to_string(), "Serialization error: x");
    assert_eq!(
        CoreError::InvalidRuleTemplate("x".to_string()).to_string(),
        "Invalid rule template: x"
    );
    assert_eq!(CoreError::InvalidPolicy("x".to_string()).to_string(), "Invalid policy: x");
    assert_eq!(CoreError::VersionNotFound("x".to_string()).to_string(), "Version not found: x");
    assert_eq!(
        CoreError::RuleTemplateNotFound("x".to_string()).to_string(),
        "Rule template not found: x"
    );
    assert_eq!(CoreError::PolicyNotFound("x".to_string()).to_string(), "Policy not found: x");
}

#[test]
fn a_failed_rebuild_leaves_the_slot_as_it_was() {
    let mut state = new_state();
    assert!(state.settle_rebuild(Err(ApiError::Internal("disk full".to_string()))).is_some());
    assert_eq!(state.cached(), None);
    assert!(state.settle_rebuild(Ok(b"one".to_vec())).is_none());
    assert_eq!(state.cached(), Some(b"one".to_vec()));
    match state.settle_rebuild(Err(ApiError::Compilation("broken".to_string()))) {
        Some(ApiError::Compilation(m)) => assert_eq!(m, "broken"),
        other => panic!("{:?}", other),
    }
    assert_eq!(state.cached(), Some(b"one".to_vec()));
    assert!(state.settle_rebuild(Ok(b"two".to_vec())).is_none());
    assert_eq!(state.cached(), Some(b"two".to_vec()));
}

#[test]
fn startup_names_the_step_that_failed() {
    let mut state = new_state();
    let orphan = Policy::new("orphan".to_string(), 42, 1, json("{}"));
    PolicyStorage::save_policy(&mut state.storage, orphan.clone()).unwrap();
    match state.initialize_bundle(None) {
        Err(m) => assert_eq!(
            m,
            format!(
                "Internal error: Bundling failed: policy {} refers to template \
                 00000000-0000-0000-0000-00000000002a, which was not supplied",
                policy_hub::ident::to_hyphenated(orphan.id)
            )
        ),
        other => panic!("{:?}", other.map(|s| s.0)),
    }
    assert_eq!(state.cached(), None);
    assert_eq!(state.list_policies().unwrap().len(), 1);

    let mut state = new_state();
    let broken = RuleTemplate::new("broken".to_string(), "no keywords".to_string());
    RuleTemplateStorage::save(&mut state.storage, broken.clone()).unwrap();
    PolicyStorage::save_policy(
        &mut state.storage,
        Policy::new("p".to_string(), broken.id, 1, json("{}")),
    )
    .unwrap();
    match state.initialize_bundle(None) {
        Err(m) => assert_eq!(
            m,
            "Compilation error: Invalid rule structure: \
             Source must contain 'when' or 'rule' definitions"
        ),
        other => panic!("{:?}", other.map(|s| s.0)),
    }
    assert_eq!(state.cached(), None);
    // With a persisted artifact nothing is rebuilt, whatever is stored.
    assert_eq!(state.initialize_bundle(Some(b"kept".to_vec())), Ok((1, None)));
    assert_eq!(state.cached(), Some(b"kept".to_vec()));
}

#[test]
fn a_failed_verdict_has_no_match_and_no_output() {
    let mut state = new_state();
    let template = create_template(
        &mut state,
        "thrower",
        r#"rule("fine").when(f => true).then(f => 1); rule("bad").when(f => { throw new Error("no"); }).then(f => 2)"#,
    );
    let policy = create_policy(&mut state, "p", template.id, None, "{}");
    let v = execute(&state, policy.id, "{}");
    assert!(!v.success);
    assert!(!v.condition_met);
    assert_eq!(v.output_facts, JsonValue::Null);
    assert_eq!(v.error, Some("Error: no".to_string()));

    for bundle in [&b"syntax error ("[..], &b"var nothing = 1;"[..], &[0xff, 0xfe][..]] {
        let v = state
            .execute_policy(
                &ExecutePolicyRequest { policy_id: policy.id, facts: JsonValue::Null },
                bundle,
            )
            .expect("a verdict");
        assert!(!v.success);
        assert!(!v.condition_met);
        assert_eq!(v.output_facts, JsonValue::Null);
        assert!(v.error.is_some());
    }
}

#[test]
fn a_match_without_output_gives_null_facts() {
    let mut state = new_state();
    let template = create_template(
        &mut state,
        "silent",
        r#"rule("silent").when(f => f.n > 0).then(f => undefined); rule("loud").when(f => f.n > 1).then(f => "x")"#,
    );
    let policy = create_policy(&mut state, "p", template.id, None, "{}");
    let v = execute(&state, policy.id, r#"{"n": 1}"#);
    assert!(v.success && v.condition_met);
    assert_eq!(v.output_facts, JsonValue::Null);
    let v = execute(&state, policy.id, r#"{"n": 2}"#);
    assert!(v.success && v.condition_met);
    assert_eq!(v.output_facts, json(r#"[null,"x"]"#));
}
