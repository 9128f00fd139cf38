use policy_hub::bundler::{BUNDLE_RUNTIME, WRAPPER_PREFIX};
use policy_hub::ident::{to_hyphenated, to_simple};
use policy_hub::{Bundler, JsonValue, LinkError, Policy, RuleCompiler, RuleTemplate};
use std::collections::HashMap;

fn json(text: &str) -> JsonValue {
    JsonValue::parse(text).expect("valid JSON")
}

fn template(id: u128, unit: Option<&str>) -> RuleTemplate {
    let mut t = RuleTemplate::first(id, 0, format!("t{}", id), "when".to_string());
    t.compiled_js = unit.map(|u| u.to_string());
    t
}

fn policy(id: u128, template_id: u128, metadata: &str) -> Policy {
    Policy::bind(id, 0, format!("p{}", id), template_id, 1, json(metadata))
}

fn bundle(policies: &[Policy], templates: &HashMap<u128, RuleTemplate>) -> String {
    String::from_utf8(Bundler::bundle_all(policies, templates).expect("linked")).expect("text")
}

fn wrappers(text: &str) -> usize {
    text.matches(&format!("function {}", WRAPPER_PREFIX)).count()
}

fn registrations(text: &str) -> usize {
    text.matches("__register_policy(\"").count()
}

#[test]
fn nothing_to_link_gives_the_runtime_alone() {
    let text = bundle(&[], &HashMap::new());
    assert_eq!(text, BUNDLE_RUNTIME);
    assert!(text.contains("function __execute_bundle(policyId, factsJson)"));
    assert!(text.contains("Policy not found in bundle: "));
}

#[test]
fn the_artifact_is_runtime_then_wrappers_then_registrations() {
    let mut templates = HashMap::new();
    templates.insert(0x11, template(0x11, Some("UNIT-A")));
    let text = bundle(&[policy(0xaa, 0x11, r#"{"k":"v"}"#)], &templates);
    let expected = format!(
        "{}\n                function __template_{}(facts, metadata) {{\n                    \
         // Define __execute within this scope\n                    UNIT-A\n                    \
         \n                    // Call the internal __execute function with JSON strings\n                    \
         return __execute(JSON.stringify(facts), JSON.stringify(metadata));\n                }}\n                \
         \n                    __register_policy(\"{}\", __template_{}, {{\"k\":\"v\"}});\n                    ",
        BUNDLE_RUNTIME,
        to_simple(0x11),
        to_hyphenated(0xaa),
        to_simple(0x11),
    );
    assert_eq!(text, expected);
}

#[test]
fn policies_that_share_a_template_share_one_wrapper() {
    let mut templates = HashMap::new();
    templates.insert(7, template(7, Some("UNIT")));
    for n in 2..6u128 {
        let policies: Vec<Policy> =
            (0..n).map(|i| policy(100 + i, 7, &format!("{{\"n\":{}}}", i))).collect();
        let text = bundle(&policies, &templates);
        assert_eq!(wrappers(&text), 1);
        assert_eq!(registrations(&text), n as usize);
        for (i, p) in policies.iter().enumerate() {
            let entry = format!(
                "__register_policy(\"{}\", __template_{}, {{\"n\":{}}});",
                to_hyphenated(p.id),
                to_simple(7),
                i
            );
            assert_eq!(text.matches(&entry).count(), 1);
        }
    }
}

#[test]
fn wrappers_come_in_the_order_of_first_reference() {
    let mut templates = HashMap::new();
    for id in [1u128, 2, 3, 4] {
        templates.insert(id, template(id, Some(&format!("UNIT-{}", id))));
    }
    let policies =
        vec![policy(10, 3, "{}"), policy(11, 1, "{}"), policy(12, 3, "{}"), policy(13, 2, "{}")];
    let text = bundle(&policies, &templates);
    assert_eq!(wrappers(&text), 3);
    let at = |needle: &str| text.find(needle).expect(needle);
    assert!(at("UNIT-3") < at("UNIT-1"));
    assert!(at("UNIT-1") < at("UNIT-2"));
    assert!(!text.contains("UNIT-4"));
    assert!(at("UNIT-2") < at("__register_policy(\""));
    let place = |p: &Policy| at(&format!("__register_policy(\"{}\"", to_hyphenated(p.id)));
    assert!(place(&policies[0]) < place(&policies[1]));
    assert!(place(&policies[1]) < place(&policies[2]));
    assert!(place(&policies[2]) < place(&policies[3]));
}

#[test]
fn the_same_input_gives_the_same_artifact() {
    let mut templates = HashMap::new();
    for id in 0..20u128 {
        templates.insert(id, template(id, Some(&format!("UNIT-{}", id))));
    }
    let policies: Vec<Policy> = (0..40u128).map(|i| policy(i, (i * 7) % 20, "{}")).collect();
    let first = Bundler::bundle_all(&policies, &templates).unwrap();
    for _ in 0..5 {
        let mut again = HashMap::new();
        for id in (0..20u128).rev() {
            again.insert(id, template(id, Some(&format!("UNIT-{}", id))));
        }
        assert_eq!(Bundler::bundle_all(&policies, &again).unwrap(), first);
    }
}

#[test]
fn a_missing_template_fails_the_link() {
    let mut templates = HashMap::new();
    templates.insert(1, template(1, Some("UNIT")));
    let policies = vec![policy(10, 1, "{}"), policy(11, 2, "{}"), policy(12, 3, "{}")];
    assert_eq!(
        Bundler::bundle_all(&policies, &templates),
        Err(LinkError { policy_id: 11, template_id: 2 })
    );
    assert_eq!(
        Bundler::bundle_all(&policies[..1], &HashMap::new()),
        Err(LinkError { policy_id: 10, template_id: 1 })
    );
    assert_eq!(
        LinkError { policy_id: 11, template_id: 2 }.to_string(),
        "policy 00000000-0000-0000-0000-00000000000b refers to template \
         00000000-0000-0000-0000-000000000002, which was not supplied"
    );
}

#[test]
fn a_template_that_was_never_compiled_gives_an_empty_unit() {
    let mut templates = HashMap::new();
    templates.insert(1, template(1, None));
    let text = bundle(&[policy(10, 1, "{}")], &templates);
    assert!(text.contains("// Define __execute within this scope\n                    \n"));
}

#[test]
fn metadata_is_frozen_as_compact_json() {
    let mut templates = HashMap::new();
    templates.insert(1, template(1, Some("UNIT")));
    let text = bundle(
        &[policy(10, 1, r#"{ "z": [1, 2, {"deep": null}], "a": "it's" }"#)],
        &templates,
    );
    assert!(text.contains(r#", {"a":"it's","z":[1,2,{"deep":null}]});"#));
}

#[test]
fn a_compiled_unit_is_wrapped_verbatim() {
    let compiler = RuleCompiler::new();
    let unit = compiler.compile(r#"rule("r").when(f => true).then(f => 1)"#).unwrap();
    let mut templates = HashMap::new();
    templates.insert(5, template(5, Some(&unit)));
    let text = bundle(&[policy(1, 5, "{}")], &templates);
    assert_eq!(text.matches(&unit).count(), 1);
}
