//! The raw result list of an executable unit, and its aggregation into one
//! verdict.

use vstd::prelude::*;
use crate::clock::now_millis;
use crate::json::{Json, JsonValue};
use crate::models::{clone_opt_text, opt_text, ExecutionResult, VerdictView};

verus! {

/// What one rule of an executable unit reported.
#[derive(Debug)]
pub struct RuleResult {
    pub rule: String,
    pub condition_met: bool,
    pub output: Option<JsonValue>,
    pub error: Option<String>,
}

/// The mathematical value of a rule's report.
pub struct ReportView {
    pub rule: Seq<char>,
    pub condition_met: bool,
    pub output: Option<Json>,
    pub error: Option<Seq<char>>,
}

impl View for RuleResult {
    type V = ReportView;

    open spec fn view(&self) -> ReportView {
        ReportView {
            rule: self.rule@,
            condition_met: self.condition_met,
            output: match self.output {
                Some(v) => Some(v@),
                None => None,
            },
            error: opt_text(self.error),
        }
    }
}

/// The views of a list of reports, in order.
pub open spec fn reports_of(results: Seq<RuleResult>) -> Seq<ReportView> {
    Seq::new(results.len(), |i: int| results[i]@)
}

/// Reads one report from its wire form: an object whose member `rule`, if
/// there, is a string (else the name is empty), whose `conditionMet`, if
/// there, is a boolean (else false), whose `output` is any document (none
/// where it is missing or `null`) and whose `error`, if there, is a string
/// or `null`. Other members are passed over.
pub open spec fn decode_report(j: Json) -> Option<ReportView> {
    let rule = j.member("rule"@);
    let met = j.member("conditionMet"@);
    let output = j.member("output"@);
    let error = j.member("error"@);
    if !(j is Object) {
        None
    } else if rule is Some && !(rule->0 is String) {
        None
    } else if met is Some && !(met->0 is Bool) {
        None
    } else if error is Some && !(error->0 is String || error->0 is Null) {
        None
    } else {
        Some(
            ReportView {
                rule: match rule {
                    Some(Json::String(name)) => name,
                    _ => Seq::empty(),
                },
                condition_met: match met {
                    Some(Json::Bool(b)) => b,
                    _ => false,
                },
                output: match output {
                    Some(Json::Null) => None,
                    other => other,
                },
                error: match error {
                    Some(Json::String(e)) => Some(e),
                    _ => None,
                },
            },
        )
    }
}

/// Reads a result list from its wire form: a list of reports.
pub open spec fn decode_reports(j: Json) -> Option<Seq<ReportView>> {
    match j {
        Json::Array(items) => if forall|i: int|
            0 <= i < items.len() ==> decode_report(#[trigger] items[i]) is Some {
            Some(Seq::new(items.len(), |i: int| decode_report(items[i])->0))
        } else {
            None
        },
        _ => None,
    }
}

/// Whether any report carries a met condition.
pub open spec fn any_matched(reports: Seq<ReportView>) -> bool
    decreases reports.len(),
{
    reports.len() > 0 && (any_matched(reports.drop_last()) || reports.last().condition_met)
}

/// The error of the first report that carries one.
pub open spec fn first_error(reports: Seq<ReportView>) -> Option<Seq<char>>
    decreases reports.len(),
{
    if reports.len() == 0 {
        None
    } else {
        match first_error(reports.drop_last()) {
            Some(e) => Some(e),
            None => reports.last().error,
        }
    }
}

/// The output that a report stands for: the one it carries, or `null`
/// where it carries none.
pub open spec fn output_of(report: ReportView) -> Json {
    match report.output {
        Some(output) => output,
        None => Json::Null,
    }
}

/// The outputs of the reports whose condition was met, one for each, in
/// order.
pub open spec fn matched_outputs(reports: Seq<ReportView>) -> Seq<Json>
    decreases reports.len(),
{
    if reports.len() == 0 {
        Seq::empty()
    } else {
        let rest = matched_outputs(reports.drop_last());
        if reports.last().condition_met {
            rest.push(output_of(reports.last()))
        } else {
            rest
        }
    }
}

/// The output facts of a run without errors: `null` where no report
/// matched, the output of the one that matched where exactly one did, else
/// the list of the outputs of all that matched.
pub open spec fn output_facts(reports: Seq<ReportView>) -> Json {
    let outputs = matched_outputs(reports);
    if outputs.len() == 0 {
        Json::Null
    } else if outputs.len() == 1 {
        outputs[0]
    } else {
        Json::Array(outputs)
    }
}

/// There is one output for each report that matched: none exactly where no
/// report matched.
pub proof fn lemma_outputs_count_matches(reports: Seq<ReportView>)
    ensures
        matched_outputs(reports).len() <= reports.len(),
        matched_outputs(reports).len() > 0 <==> any_matched(reports),
        (forall|i: int| 0 <= i < reports.len() ==> (#[trigger] reports[i]).condition_met)
            ==> matched_outputs(reports).len() == reports.len() && forall|i: int|
            0 <= i < reports.len() ==> #[trigger] matched_outputs(reports)[i] == output_of(
                reports[i],
            ),
    decreases reports.len(),
{
    if reports.len() > 0 {
        let front = reports.drop_last();
        lemma_outputs_count_matches(front);
        if forall|i: int| 0 <= i < reports.len() ==> (#[trigger] reports[i]).condition_met {
            assert forall|i: int| 0 <= i < front.len() implies (#[trigger] front[i]).condition_met by {
                assert(reports[i].condition_met);
            }
            assert(reports[reports.len() - 1].condition_met);
        }
    }
}

/// The verdict for a result list: a failure with the first error if any
/// report carries one, else a success with the disjunction of the
/// conditions and the collected outputs.
pub open spec fn verdict(reports: Seq<ReportView>, execution_time_ms: u64, executed_at: i64)
    -> VerdictView {
    match first_error(reports) {
        Some(e) => VerdictView::failure(e, execution_time_ms, executed_at),
        None => VerdictView::success(
            any_matched(reports),
            output_facts(reports),
            execution_time_ms,
            executed_at,
        ),
    }
}

/// A condition counts as met exactly when some report says so.
pub proof fn lemma_any_matched_is_disjunction(reports: Seq<ReportView>)
    ensures
        any_matched(reports) <==> exists|i: int|
            0 <= i < reports.len() && (#[trigger] reports[i]).condition_met,
    decreases reports.len(),
{
    if reports.len() > 0 {
        let front = reports.drop_last();
        lemma_any_matched_is_disjunction(front);
        if any_matched(front) {
            let i = choose|i: int| 0 <= i < front.len() && (#[trigger] front[i]).condition_met;
            assert(reports[i].condition_met);
        } else if reports.last().condition_met {
            assert(reports[reports.len() - 1].condition_met);
        } else {
            assert forall|i: int| 0 <= i < reports.len() implies !(#[trigger] reports[i]).condition_met by {
                if i < front.len() {
                    assert(!front[i].condition_met);
                }
            }
        }
    }
}

/// An error is reported exactly when some report carries one, and it is
/// then that of the earliest such report.
pub proof fn lemma_first_error_is_earliest(reports: Seq<ReportView>)
    ensures
        match first_error(reports) {
            None => forall|i: int| 0 <= i < reports.len() ==> (#[trigger] reports[i]).error is None,
            Some(e) => exists|i: int|
                0 <= i < reports.len() && (#[trigger] reports[i]).error == Some(e) && forall|j: int|
                    0 <= j < i ==> (#[trigger] reports[j]).error is None,
        },
    decreases reports.len(),
{
    if reports.len() > 0 {
        let front = reports.drop_last();
        lemma_first_error_is_earliest(front);
        match first_error(front) {
            Some(e) => {
                let i = choose|i: int|
                    0 <= i < front.len() && (#[trigger] front[i]).error == Some(e) && forall|j: int|
                        0 <= j < i ==> (#[trigger] front[j]).error is None;
                assert(reports[i].error == Some(e));
                assert forall|j: int| 0 <= j < i implies (#[trigger] reports[j]).error is None by {
                    assert(front[j].error is None);
                }
            },
            None => {
                assert forall|j: int| 0 <= j < front.len() implies (#[trigger] reports[j]).error is None by {
                    assert(front[j].error is None);
                }
                if reports.last().error is Some {
                    assert(reports[reports.len() - 1].error == first_error(reports));
                }
            },
        }
    }
}

/// A report with an error makes the verdict a failure, whatever matched.
pub proof fn lemma_error_overrides(reports: Seq<ReportView>, execution_time_ms: u64, executed_at: i64)
    requires
        exists|i: int| 0 <= i < reports.len() && (#[trigger] reports[i]).error is Some,
    ensures
        !verdict(reports, execution_time_ms, executed_at).success,
        !verdict(reports, execution_time_ms, executed_at).condition_met,
        verdict(reports, execution_time_ms, executed_at).output_facts == Json::Null,
        verdict(reports, execution_time_ms, executed_at).error == first_error(reports),
{
    lemma_first_error_is_earliest(reports);
}

/// What a verdict says of the rules does not depend on when it was made or
/// how long the run took: the same result list gives the same success,
/// match, output facts and error.
pub proof fn lemma_verdict_ignores_timing(
    reports: Seq<ReportView>,
    first_ms: u64,
    first_at: i64,
    second_ms: u64,
    second_at: i64,
)
    ensures
        verdict(reports, first_ms, first_at).success == verdict(
            reports,
            second_ms,
            second_at,
        ).success,
        verdict(reports, first_ms, first_at).condition_met == verdict(
            reports,
            second_ms,
            second_at,
        ).condition_met,
        verdict(reports, first_ms, first_at).output_facts == verdict(
            reports,
            second_ms,
            second_at,
        ).output_facts,
        verdict(reports, first_ms, first_at).error == verdict(reports, second_ms, second_at).error,
{
}

/// Without a met condition a run without errors yields no output facts.
pub proof fn lemma_no_match_no_output(reports: Seq<ReportView>, execution_time_ms: u64, executed_at: i64)
    requires
        forall|i: int| 0 <= i < reports.len() ==> !(#[trigger] reports[i]).condition_met,
        forall|i: int| 0 <= i < reports.len() ==> (#[trigger] reports[i]).error is None,
    ensures
        verdict(reports, execution_time_ms, executed_at) == VerdictView::success(
            false,
            Json::Null,
            execution_time_ms,
            executed_at,
        ),
{
    lemma_any_matched_is_disjunction(reports);
    lemma_first_error_is_earliest(reports);
    lemma_outputs_count_matches(reports);
}

/// Where exactly one report matched, the output facts of a run without
/// errors are the output of that report: `null` where it carries none.
pub proof fn lemma_one_match_gives_its_output(reports: Seq<ReportView>, k: int)
    requires
        0 <= k < reports.len(),
        reports[k].condition_met,
        forall|i: int| 0 <= i < reports.len() && i != k ==> !(#[trigger] reports[i]).condition_met,
    ensures
        matched_outputs(reports) == seq![output_of(reports[k])],
        output_facts(reports) == output_of(reports[k]),
    decreases reports.len(),
{
    let front = reports.drop_last();
    if k == reports.len() - 1 {
        assert forall|i: int| 0 <= i < front.len() implies !(#[trigger] front[i]).condition_met by {
            assert(!reports[i].condition_met);
        }
        lemma_any_matched_is_disjunction(front);
        lemma_outputs_count_matches(front);
        assert(matched_outputs(front) =~= Seq::<Json>::empty());
        assert(matched_outputs(reports) =~= seq![output_of(reports[k])]);
    } else {
        assert(!reports[reports.len() - 1].condition_met);
        assert forall|i: int| 0 <= i < front.len() && i != k implies !(
        #[trigger] front[i]).condition_met by {
            assert(!reports[i].condition_met);
        }
        lemma_one_match_gives_its_output(front, k);
    }
}

/// Reads one report from a document.
pub fn decode_result(doc: &JsonValue) -> (r: Option<RuleResult>)
    ensures
        match r {
            Some(report) => decode_report(doc@) == Some(report@),
            None => decode_report(doc@) is None,
        },
{
    proof {
        reveal_strlit("rule");
        reveal_strlit("conditionMet");
        reveal_strlit("output");
        reveal_strlit("error");
    }
    match doc {
        JsonValue::Object(_) => {},
        _ => {
            return None;
        },
    }
    let rule = match doc.get("rule") {
        None => String::new(),
        Some(JsonValue::String(name)) => name.clone(),
        Some(_) => {
            return None;
        },
    };
    let condition_met = match doc.get("conditionMet") {
        None => false,
        Some(JsonValue::Bool(b)) => *b,
        Some(_) => {
            return None;
        },
    };
    let error = match doc.get("error") {
        None => None,
        Some(JsonValue::Null) => None,
        Some(JsonValue::String(e)) => Some(e.clone()),
        Some(_) => {
            return None;
        },
    };
    let output = match doc.get("output") {
        None => None,
        Some(JsonValue::Null) => None,
        Some(v) => Some(v.clone()),
    };
    Some(RuleResult { rule, condition_met, output, error })
}

/// Reads a result list from a document.
pub fn decode_results(doc: &JsonValue) -> (r: Option<Vec<RuleResult>>)
    ensures
        match r {
            Some(results) => decode_reports(doc@) is Some && decode_reports(doc@)->0 == reports_of(
                results@,
            ),
            None => decode_reports(doc@) is None,
        },
{
    match doc {
        JsonValue::Array(items) => {
            let ghost entries = doc@->Array_0;
            let mut results: Vec<RuleResult> = Vec::new();
            let mut i: usize = 0;
            while i < items.len()
                invariant
                    doc@ == Json::Array(entries),
                    entries.len() == items.len(),
                    forall|j: int| 0 <= j < items.len() ==> #[trigger] entries[j] == items@[j]@,
                    i <= items.len(),
                    results.len() == i,
                    forall|j: int|
                        0 <= j < i ==> decode_report(entries[j]) == Some((#[trigger] results@[j])@),
                decreases items.len() - i,
            {
                match decode_result(&items[i]) {
                    Some(report) => {
                        results.push(report);
                    },
                    None => {
                        assert(decode_report(entries[i as int]) is None);
                        return None;
                    },
                }
                i = i + 1;
            }
            proof {
                assert forall|j: int| 0 <= j < entries.len() implies decode_report(
                    #[trigger] entries[j],
                ) is Some by {
                    assert(decode_report(entries[j]) == Some(results@[j]@));
                }
                assert(decode_reports(doc@)->0 =~= reports_of(results@));
            }
            Some(results)
        },
        _ => None,
    }
}

/// Aggregates a result list into a verdict stamped with a given time.
pub fn aggregate_at(results: &Vec<RuleResult>, execution_time_ms: u64, executed_at: i64) -> (r:
    ExecutionResult)
    ensures
        r@ == verdict(reports_of(results@), execution_time_ms, executed_at),
{
    let ghost reports = reports_of(results@);
    let mut any_met = false;
    let mut error: Option<String> = None;
    let mut outputs: Vec<JsonValue> = Vec::new();
    let mut i: usize = 0;
    while i < results.len()
        invariant
            reports == reports_of(results@),
            i <= results.len(),
            any_met == any_matched(reports.take(i as int)),
            opt_text(error) == first_error(reports.take(i as int)),
            outputs@.len() == matched_outputs(reports.take(i as int)).len(),
            forall|j: int|
                0 <= j < outputs@.len() ==> (#[trigger] outputs@[j])@ == matched_outputs(
                    reports.take(i as int),
                )[j],
        decreases results.len() - i,
    {
        proof {
            assert(reports.take(i + 1).drop_last() == reports.take(i as int));
            assert(reports.take(i + 1).last() == results@[i as int]@);
        }
        let entry = &results[i];
        if entry.condition_met {
            any_met = true;
            match &entry.output {
                Some(v) => {
                    outputs.push(v.clone());
                },
                None => {
                    outputs.push(JsonValue::Null);
                },
            }
        }
        if error.is_none() {
            error = clone_opt_text(&entry.error);
        }
        i = i + 1;
    }
    proof {
        assert(reports.take(results.len() as int) == reports);
        lemma_outputs_count_matches(reports);
    }
    match error {
        Some(e) => ExecutionResult::failure_at(e, execution_time_ms, executed_at),
        None => {
            let facts = if outputs.len() == 0 {
                JsonValue::Null
            } else if outputs.len() == 1 {
                outputs.remove(0)
            } else {
                let all = JsonValue::Array(outputs);
                proof {
                    let a = all@->Array_0;
                    assert(a =~= matched_outputs(reports));
                }
                all
            };
            ExecutionResult::success_at(any_met, facts, execution_time_ms, executed_at)
        },
    }
}

/// Aggregates a result list into a verdict, stamped with the current time.
pub fn aggregate(results: &Vec<RuleResult>, execution_time_ms: u64) -> (r: ExecutionResult)
    ensures
        r@ == verdict(reports_of(results@), execution_time_ms, r.executed_at),
{
    aggregate_at(results, execution_time_ms, now_millis())
}

} // verus!
