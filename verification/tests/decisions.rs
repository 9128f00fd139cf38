use policy_hub::compiler::{RUNTIME_JS, UNIT_ENTRY_POINT, UNIT_HEADER, UNIT_SOURCE_HEADER};
use policy_hub::ident::to_hyphenated;
use policy_hub::rebuild::{assemble_bundle, compile_template, gather_templates, splice_policy};
use policy_hub::requests::{
    claim_identifier, draft_policy, draft_template, require_policy, require_template, resolve_template,
    versions_response,
};
use policy_hub::state::run_policy;
use policy_hub::{
    ApiError, Bundler, CreatePolicyRequest, CreateRuleTemplateRequest, JsonValue, Policy,
    RuleCompiler, RuleTemplate, WasmExecutor,
};

fn template(id: u128, name: &str, version: u32, source: &str) -> RuleTemplate {
    let mut t = RuleTemplate::first(id, 0, name.to_string(), source.to_string());
    t.version = version;
    t
}

fn policy(id: u128, template_id: u128) -> Policy {
    Policy::bind(id, 0, format!("p{}", id), template_id, 1, JsonValue::Object(vec![]))
}

fn ids(policies: &[Policy]) -> Vec<u128> {
    policies.iter().map(|p| p.id).collect()
}

#[test]
fn a_written_policy_is_added_unless_it_is_listed() {
    let listed = || vec![policy(1, 9), policy(2, 9), policy(3, 9)];
    assert_eq!(ids(&splice_policy(listed(), None)), vec![1, 2, 3]);
    assert_eq!(ids(&splice_policy(listed(), Some(policy(4, 8)))), vec![1, 2, 3, 4]);
    assert_eq!(ids(&splice_policy(listed(), Some(policy(2, 8)))), vec![1, 2, 3]);
    assert_eq!(ids(&splice_policy(listed(), Some(policy(3, 8)))), vec![1, 2, 3]);
    assert_eq!(ids(&splice_policy(vec![], Some(policy(7, 8)))), vec![7]);
    assert_eq!(ids(&splice_policy(vec![], None)), Vec::<u128>::new());
    // The listed policy stays as listed; the written one is not put in its place.
    let spliced = splice_policy(listed(), Some(policy(2, 8)));
    assert_eq!(spliced[1].rule_template_id, 9);
    let spliced = splice_policy(listed(), Some(policy(4, 8)));
    assert_eq!(spliced[3].rule_template_id, 8);
}

#[test]
fn a_template_is_compiled_into_itself() {
    let compiler = RuleCompiler::new();
    let t = compile_template(&compiler, template(5, "n", 3, "when x")).expect("compiles");
    assert_eq!(t.id, 5);
    assert_eq!(t.name, "n");
    assert_eq!(t.version, 3);
    assert_eq!(t.source, "when x");
    assert_eq!(
        t.compiled_js,
        Some(format!("{}{}{}when x{}", UNIT_HEADER, RUNTIME_JS, UNIT_SOURCE_HEADER, UNIT_ENTRY_POINT))
    );
    assert!(compile_template(&compiler, template(5, "n", 3, "nothing")).is_err());
}

#[test]
fn found_templates_are_gathered_by_the_identifier_asked_for() {
    let compiler = RuleCompiler::new();
    let fetched = vec![
        (1, Some(template(1, "a", 1, "when a"))),
        (2, None),
        (3, Some(template(3, "c", 1, "rule c"))),
        (1, Some(template(1, "a", 2, "when again"))),
    ];
    let gathered = gather_templates(&compiler, &fetched).expect("compiles");
    let mut keys: Vec<u128> = gathered.keys().copied().collect();
    keys.sort();
    assert_eq!(keys, vec![1, 3]);
    assert_eq!(gathered[&1].source, "when again");
    assert!(gathered[&1].compiled_js.as_ref().unwrap().contains("when again"));
    assert!(gathered[&3].compiled_js.as_ref().unwrap().contains("rule c"));

    let broken = vec![(1, Some(template(1, "a", 1, "when a"))), (2, Some(template(2, "b", 1, "b")))];
    assert!(gather_templates(&compiler, &broken).is_err());
    assert!(gather_templates(&compiler, &vec![]).expect("nothing to compile").is_empty());
}

#[test]
fn an_artifact_is_assembled_from_what_was_found() {
    let compiler = RuleCompiler::new();
    let policies = vec![policy(10, 1), policy(11, 2)];
    let found = vec![
        (1, Some(template(1, "a", 1, "when a"))),
        (2, Some(template(2, "b", 1, "when b"))),
    ];
    let bundle = assemble_bundle(&compiler, &policies, &found).expect("linked");
    let templates = gather_templates(&compiler, &found).unwrap();
    assert_eq!(bundle, Bundler::bundle_all(&policies, &templates).unwrap());

    let gone = vec![(1, Some(template(1, "a", 1, "when a"))), (2, None)];
    match assemble_bundle(&compiler, &policies, &gone) {
        Err(ApiError::Internal(m)) => assert_eq!(
            m,
            format!(
                "Bundling failed: policy {} refers to template {}, which was not supplied",
                to_hyphenated(11),
                to_hyphenated(2)
            )
        ),
        other => panic!("{:?}", other.map(|b| b.len())),
    }
    let broken = vec![(1, Some(template(1, "a", 1, "x"))), (2, None)];
    assert!(matches!(
        assemble_bundle(&compiler, &policies, &broken),
        Err(ApiError::Compilation(_))
    ));
}

#[test]
fn a_draft_is_version_one_or_the_next() {
    let req = CreateRuleTemplateRequest { name: "n".to_string(), source: "when s".to_string() };
    let first = draft_template(None, &req, 7, 99).expect("a draft");
    assert_eq!((first.id, first.created_at, first.version, first.is_latest), (7, 99, 1, true));
    assert_eq!(first.name, "n");
    assert_eq!(first.source, "when s");
    assert_eq!((first.wasm_path, first.compiled_js), (None, None));

    let mut latest = template(1, "stored-name", 41, "old");
    latest.compiled_js = Some("unit".to_string());
    latest.wasm_path = Some("path".to_string());
    let next = draft_template(Some(latest), &req, 8, 100).expect("a draft");
    assert_eq!((next.id, next.created_at, next.version, next.is_latest), (8, 100, 42, true));
    assert_eq!(next.name, "stored-name");
    assert_eq!(next.source, "when s");
    assert_eq!((next.wasm_path, next.compiled_js), (None, None));

    match draft_template(Some(template(1, "n", u32::MAX, "old")), &req, 8, 100) {
        Err(ApiError::Internal(m)) => assert_eq!(m, "version numbers are used up"),
        other => panic!("{:?}", other),
    }
    assert_eq!(
        draft_template(Some(template(1, "n", u32::MAX - 1, "old")), &req, 8, 100).unwrap().version,
        u32::MAX
    );
}

#[test]
fn a_drafted_policy_is_bound_to_the_template_as_found() {
    let req = CreatePolicyRequest {
        name: "p".to_string(),
        rule_template_id: 1,
        rule_template_version: None,
        metadata: JsonValue::Bool(true),
        description: Some("d".to_string()),
    };
    let p = draft_policy(&req, &template(5, "t", 4, "when"), 77, 88);
    assert_eq!((p.id, p.created_at), (77, 88));
    assert_eq!(p.name, "p");
    assert_eq!((p.rule_template_id, p.rule_template_version), (5, 4));
    assert_eq!(p.metadata, JsonValue::Bool(true));
    assert_eq!(p.description, Some("d".to_string()));
    assert!(p.is_active);
}

#[test]
fn a_template_is_resolved_by_identifier_and_version() {
    let t = || Some(template(5, "t", 4, "when"));
    assert_eq!(resolve_template(t(), 5, None).unwrap().version, 4);
    assert_eq!(resolve_template(t(), 5, Some(4)).unwrap().version, 4);
    match resolve_template(t(), 5, Some(3)) {
        Err(ApiError::NotFound(m)) => assert_eq!(
            m,
            "Rule template 00000000-0000-0000-0000-000000000005 version 3 not found"
        ),
        other => panic!("{:?}", other),
    }
    match resolve_template(t(), 5, Some(u32::MAX)) {
        Err(ApiError::NotFound(m)) => assert_eq!(
            m,
            "Rule template 00000000-0000-0000-0000-000000000005 version 4294967295 not found"
        ),
        other => panic!("{:?}", other),
    }
    for version in [None, Some(1)] {
        match resolve_template(None, 5, version) {
            Err(ApiError::NotFound(m)) => {
                assert_eq!(m, "Rule template 00000000-0000-0000-0000-000000000005 not found")
            }
            other => panic!("{:?}", other),
        }
    }
    assert_eq!(require_template(t(), 9).unwrap().id, 5);
    assert!(matches!(require_template(None, 9), Err(ApiError::NotFound(_))));
    assert_eq!(require_policy(Some(policy(3, 1)), 9).unwrap().id, 3);
    match require_policy(None, 9) {
        Err(ApiError::NotFound(m)) => {
            assert_eq!(m, "Policy 00000000-0000-0000-0000-000000000009 not found")
        }
        other => panic!("{:?}", other),
    }
}

#[test]
fn a_version_history_lists_what_was_found() {
    let mut old = template(1, "n", 1, "when");
    old.is_latest = false;
    old.created_at = 10;
    let mut new = template(2, "n", 2, "when");
    new.created_at = 20;
    let response = versions_response("n", &vec![old, new]).expect("a history");
    assert_eq!(response.name, "n");
    let rows: Vec<(u128, u32, i64, bool)> = response
        .versions
        .iter()
        .map(|v| (v.id, v.version, v.created_at, v.is_latest))
        .collect();
    assert_eq!(rows, vec![(1, 1, 10, false), (2, 2, 20, true)]);
    match versions_response("it's", &vec![]) {
        Err(ApiError::NotFound(m)) => assert_eq!(m, "Rule template 'it's' not found"),
        other => panic!("{:?}", other.map(|r| r.name)),
    }
}

#[test]
fn running_a_policy_always_gives_a_verdict() {
    let executor = WasmExecutor::new().unwrap();
    let v = run_policy(&executor, &[0xc3, 0x28], 1, &JsonValue::Null);
    assert!(!v.success && !v.condition_met);
    assert_eq!(v.output_facts, JsonValue::Null);
    assert!(v.error.unwrap().starts_with("Runtime error: Invalid bundle encoding: "));

    let v = run_policy(&executor, b"syntax error (", 1, &JsonValue::Null);
    assert!(!v.success);
    assert!(v.error.unwrap().starts_with("Runtime error: Bundle loading failed: "));

    let compiler = RuleCompiler::new();
    let found = vec![(1, Some(template(1, "a", 1, r#"rule("a").when(f => f.go).then(f => "went")"#)))];
    let bundle = assemble_bundle(&compiler, &[policy(10, 1)], &found).unwrap();
    let v = run_policy(&executor, &bundle, 10, &JsonValue::parse(r#"{"go": true}"#).unwrap());
    assert!(v.success && v.condition_met);
    assert_eq!(v.output_facts, JsonValue::String("went".to_string()));
    assert_eq!(v.error, None);
    let v = run_policy(&executor, &bundle, 11, &JsonValue::Null);
    assert!(!v.success);
    assert_eq!(
        v.error,
        Some(format!("\"Policy not found in bundle: {}\"", to_hyphenated(11)))
    );
}

#[test]
fn an_identifier_is_claimed_only_where_none_holds_it() {
    assert!(claim_identifier(None, 5).is_ok());
    match claim_identifier(Some(template(5, "t", 1, "when")), 5) {
        Err(ApiError::BadRequest(m)) => {
            assert_eq!(m, "Rule template 00000000-0000-0000-0000-000000000005 already exists")
        }
        other => panic!("{:?}", other),
    }
}
