use policy_hub::aggregate::{aggregate_at, decode_result, decode_results};
use policy_hub::{aggregate, JsonValue, RuleResult};

fn json(text: &str) -> JsonValue {
    JsonValue::parse(text).expect("valid JSON")
}

fn report(met: bool, output: Option<&str>, error: Option<&str>) -> RuleResult {
    RuleResult {
        rule: "r".to_string(),
        condition_met: met,
        output: output.map(json),
        error: error.map(|e| e.to_string()),
    }
}

#[test]
fn an_empty_list_is_a_success_without_a_match() {
    let v = aggregate_at(&vec![], 7, 1000);
    assert!(v.success);
    assert!(!v.condition_met);
    assert_eq!(v.output_facts, JsonValue::Null);
    assert_eq!(v.error, None);
    assert_eq!(v.execution_time_ms, 7);
    assert_eq!(v.executed_at, 1000);
}

#[test]
fn no_match_gives_no_output() {
    let v = aggregate_at(&vec![report(false, None, None), report(false, Some("1"), None)], 0, 0);
    assert!(v.success);
    assert!(!v.condition_met);
    assert_eq!(v.output_facts, JsonValue::Null);
}

#[test]
fn one_match_gives_its_output() {
    let v = aggregate_at(
        &vec![report(false, None, None), report(true, Some(r#"{"discount":15}"#), None)],
        0,
        0,
    );
    assert!(v.success);
    assert!(v.condition_met);
    assert_eq!(v.output_facts, json(r#"{"discount":15}"#));
}

#[test]
fn several_matches_give_the_list_of_outputs_in_order() {
    let v = aggregate_at(
        &vec![
            report(true, Some("\"first\""), None),
            report(false, Some("\"skipped\""), None),
            report(true, Some("\"second\""), None),
            report(true, Some("3"), None),
        ],
        0,
        0,
    );
    assert!(v.success && v.condition_met);
    assert_eq!(v.output_facts, json(r#"["first","second",3]"#));
}

#[test]
fn a_match_without_output_stands_as_null() {
    // Exactly one matched: its output, which is null where it carries none.
    let v = aggregate_at(&vec![report(true, None, None)], 0, 0);
    assert!(v.success && v.condition_met);
    assert_eq!(v.output_facts, JsonValue::Null);

    let v = aggregate_at(&vec![report(false, Some("7"), None), report(true, None, None)], 0, 0);
    assert!(v.success && v.condition_met);
    assert_eq!(v.output_facts, JsonValue::Null);

    // More than one matched: the list of all their outputs, in order.
    let v = aggregate_at(&vec![report(true, None, None), report(true, Some("1"), None)], 0, 0);
    assert_eq!(v.output_facts, json("[null,1]"));
    let v = aggregate_at(
        &vec![report(true, Some("1"), None), report(true, None, None), report(true, None, None)],
        0,
        0,
    );
    assert_eq!(v.output_facts, json("[1,null,null]"));
    let v = aggregate_at(&vec![report(true, None, None), report(true, None, None)], 0, 0);
    assert_eq!(v.output_facts, json("[null,null]"));
}

#[test]
fn a_null_output_on_the_wire_stands_as_null() {
    let results = decode_results(&json(
        r#"[{"rule":"a","conditionMet":true,"output":null},{"rule":"b","conditionMet":true,"output":2}]"#,
    ))
    .expect("a list");
    assert_eq!(aggregate_at(&results, 0, 0).output_facts, json("[null,2]"));
    let results =
        decode_results(&json(r#"[{"rule":"a","conditionMet":true}]"#)).expect("a list");
    let v = aggregate_at(&results, 0, 0);
    assert!(v.condition_met);
    assert_eq!(v.output_facts, JsonValue::Null);
}

#[test]
fn the_first_error_overrides_every_match() {
    let v = aggregate_at(
        &vec![
            report(true, Some("1"), None),
            report(false, None, Some("Error: first")),
            report(true, Some("2"), Some("Error: second")),
        ],
        9,
        5,
    );
    assert!(!v.success);
    assert!(!v.condition_met);
    assert_eq!(v.output_facts, JsonValue::Null);
    assert_eq!(v.error, Some("Error: first".to_string()));
    assert_eq!(v.execution_time_ms, 9);
    assert_eq!(v.executed_at, 5);
}

#[test]
fn a_verdict_is_stamped_with_the_time_it_is_made() {
    let before = chrono::Utc::now().timestamp_millis();
    let v = aggregate(&vec![report(true, Some("1"), None)], 3);
    let after = chrono::Utc::now().timestamp_millis();
    assert!(before <= v.executed_at && v.executed_at <= after);
    assert_eq!(v.execution_time_ms, 3);
    assert_eq!(v.output_facts, json("1"));
}

#[test]
fn a_report_is_read_from_an_object() {
    let r = decode_result(&json(
        r#"{"rule":"discount","conditionMet":true,"output":{"d":1},"extra":[1]}"#,
    ))
    .expect("a report");
    assert_eq!(r.rule, "discount");
    assert!(r.condition_met);
    assert_eq!(r.output, Some(json(r#"{"d":1}"#)));
    assert_eq!(r.error, None);

    let r = decode_result(&json(r#"{"rule":"broken","error":"TypeError: x"}"#)).expect("a report");
    assert_eq!(r.rule, "broken");
    assert!(!r.condition_met);
    assert_eq!(r.output, None);
    assert_eq!(r.error, Some("TypeError: x".to_string()));
}

#[test]
fn missing_members_take_their_defaults() {
    let r = decode_result(&json("{}")).expect("a report");
    assert_eq!(r.rule, "");
    assert!(!r.condition_met);
    assert_eq!(r.output, None);
    assert_eq!(r.error, None);

    let r = decode_result(&json(r#"{"output":null,"error":null}"#)).expect("a report");
    assert_eq!(r.output, None);
    assert_eq!(r.error, None);
}

#[test]
fn members_of_the_wrong_kind_are_turned_down() {
    for text in [
        "null",
        "[]",
        "\"x\"",
        r#"{"rule":1}"#,
        r#"{"rule":null}"#,
        r#"{"conditionMet":"yes"}"#,
        r#"{"conditionMet":null}"#,
        r#"{"conditionMet":1}"#,
        r#"{"error":{"message":"x"}}"#,
        r#"{"error":false}"#,
    ] {
        assert!(decode_result(&json(text)).is_none(), "{}", text);
    }
}

#[test]
fn a_result_list_is_a_list_of_reports() {
    let results = decode_results(&json(
        r#"[{"rule":"a","conditionMet":true,"output":1},{"rule":"b","conditionMet":false,"output":null}]"#,
    ))
    .expect("a list");
    assert_eq!(results.len(), 2);
    assert_eq!(results[0].rule, "a");
    assert_eq!(results[0].output, Some(json("1")));
    assert_eq!(results[1].rule, "b");
    assert_eq!(results[1].output, None);

    assert_eq!(decode_results(&json("[]")).expect("a list").len(), 0);
    for text in ["{}", "null", "\"[]\"", r#"[{"rule":"a"}, 1]"#, r#"[{"rule":1}]"#] {
        assert!(decode_results(&json(text)).is_none(), "{}", text);
    }
}
