//! The sandboxed executor: runs units and bundles in a fresh engine
//! context under a memory ceiling, a fuel budget and a deadline.

use vstd::prelude::*;
use vstd::string::*;
use vstd::utf8::valid_utf8;
use crate::aggregate::{aggregate_at, decode_reports, decode_results, verdict, ReportView};
use crate::cache::{lru_capacity, lru_clear, lru_entries, lru_new, Entries};
use crate::clock::{elapsed_millis, now_millis, start_timer};
use crate::engine::{
    arm_watchdog, call_script, cap_memory, fuel_store, load_script, metered_engine, open_context,
    open_runtime, Budget,
};
use crate::executor::{
    append_quoted, build_unit_call, is_unit_verdict, is_unreadable, quoted, unit_verdict_at,
    ExecutorError,
};
use crate::json::{parsed_json, printed_json, Json, JsonValue};
use crate::models::{ExecutionResult, VerdictView};
use crate::text::text_of_bytes;

verus! {

/// The ceilings under which a sandboxed call runs.
#[derive(Debug, Clone, Copy, PartialEq, Eq)]
pub struct WasmLimits {
    /// The heap ceiling in bytes; zero lifts the ceiling.
    pub max_memory_bytes: usize,
    /// The fuel budget: the number of engine polls a call may take.
    pub max_fuel: u64,
    /// The wall-clock ceiling in milliseconds.
    pub timeout_ms: u64,
}

impl Default for WasmLimits {
    /// 16 MiB of heap, a million units of fuel, five seconds.
    fn default() -> (limits: Self)
        ensures
            limits == (WasmLimits {
                max_memory_bytes: 16777216,
                max_fuel: 1000000,
                timeout_ms: 5000,
            }),
    {
        WasmLimits { max_memory_bytes: 16777216, max_fuel: 1000000, timeout_ms: 5000 }
    }
}

/// What the raw result of a bundle's dispatch stands for.
pub enum BundleOutcome {
    /// Neither a fault object nor a result list.
    Unreadable,
    /// A fault object, with its `error` member as JSON text.
    Fault(Seq<char>),
    /// A result list.
    Reports(Seq<ReportView>),
}

/// The document inside a raw dispatch result. The result is JSON text; where
/// that text is itself one JSON string, the document is what the string
/// holds, read as JSON text in turn.
pub open spec fn bundle_document(raw: Seq<char>) -> Option<Json> {
    match parsed_json(raw) {
        Some(Json::String(inner)) => parsed_json(inner),
        other => other,
    }
}

/// What a raw dispatch result stands for: a document with a member `error`
/// is a fault, whatever else it holds; otherwise the document must be a
/// result list.
pub open spec fn bundle_outcome(raw: Seq<char>) -> BundleOutcome {
    match bundle_document(raw) {
        None => BundleOutcome::Unreadable,
        Some(doc) => match doc.member("error"@) {
            Some(error) => BundleOutcome::Fault(printed_json(error)),
            None => match decode_reports(doc) {
                Some(reports) => BundleOutcome::Reports(reports),
                None => BundleOutcome::Unreadable,
            },
        },
    }
}

/// The expression that calls a bundle's dispatch entry point.
pub open spec fn bundle_call(policy_id: Seq<char>, facts: Seq<char>) -> Seq<char> {
    "__execute_bundle('"@ + policy_id + "', '"@ + quoted(facts) + "')"@
}

/// The error for a fault of the engine noticed after `elapsed_ms`: a
/// timeout once the deadline has passed, else a runtime error with the
/// engine's message behind `prefix`.
pub open spec fn is_engine_fault(
    error: ExecutorError,
    prefix: Seq<char>,
    message: Seq<char>,
    elapsed_ms: u64,
    timeout_ms: u64,
) -> bool {
    if elapsed_ms >= timeout_ms {
        error is Timeout
    } else {
        error matches ExecutorError::RuntimeError(m) && m@ == prefix + message
    }
}

/// Builds the error for a fault of the engine.
pub fn engine_fault(prefix: &str, message: String, elapsed_ms: u64, timeout_ms: u64) -> (error:
    ExecutorError)
    ensures
        is_engine_fault(error, prefix@, message@, elapsed_ms, timeout_ms),
{
    if elapsed_ms >= timeout_ms {
        ExecutorError::Timeout
    } else {
        ExecutorError::RuntimeError(String::from_str(prefix).concat(message.as_str()))
    }
}

/// Builds the expression that calls a bundle's dispatch entry point.
pub fn build_bundle_call(policy_id: &str, facts: &str) -> (call: String)
    ensures
        call@ == bundle_call(policy_id@, facts@),
{
    let mut call = String::from_str("__execute_bundle('");
    call.append(policy_id);
    call.append("', '");
    append_quoted(&mut call, facts);
    call.append("')");
    call
}

/// Turns the raw result of a bundle's dispatch into a verdict stamped with
/// a given time.
///
/// A fault object becomes a failed verdict that carries the fault as JSON
/// text; a result list becomes its aggregate; anything else is a runtime
/// error.
pub fn bundle_verdict_at(raw: &str, execution_time_ms: u64, executed_at: i64) -> (r: Result<
    ExecutionResult,
    ExecutorError,
>)
    ensures
        match bundle_outcome(raw@) {
            BundleOutcome::Unreadable => r matches Err(e) && e is RuntimeError,
            BundleOutcome::Fault(message) => r matches Ok(v) && v@ == VerdictView::failure(
                message,
                execution_time_ms,
                executed_at,
            ),
            BundleOutcome::Reports(reports) => r matches Ok(v) && v@ == verdict(
                reports,
                execution_time_ms,
                executed_at,
            ),
        },
        r matches Ok(v) ==> comes_of(raw@, v@),
{
    proof {
        reveal_strlit("error");
    }
    let outer = JsonValue::parse(raw);
    let inner = match outer {
        Ok(JsonValue::String(text)) => JsonValue::parse(text.as_str()),
        other => other,
    };
    match inner {
        Err(message) => Err(
            ExecutorError::RuntimeError(
                String::from_str("Failed to parse JSON results: ").concat(message.as_str()),
            ),
        ),
        Ok(doc) => {
            match doc.get("error") {
                Some(error) => {
                    return Ok(
                        ExecutionResult::failure_at(
                            error.to_text(),
                            execution_time_ms,
                            executed_at,
                        ),
                    );
                },
                None => {},
            }
            match decode_results(&doc) {
                None => Err(
                    ExecutorError::RuntimeError(
                        String::from_str(
                            "Failed to parse JSON results: not a list of rule results",
                        ),
                    ),
                ),
                Some(results) => Ok(aggregate_at(&results, execution_time_ms, executed_at)),
            }
        },
    }
}

/// Whether `error` is the error for a metering engine that could not be
/// set up: a runtime error that carries the engine's message behind a
/// fixed prefix.
pub open spec fn is_setup_failure(error: ExecutorError) -> bool {
    error matches ExecutorError::RuntimeError(m) && exists|detail: Seq<char>|
        m@ == #[trigger] ("Failed to create WASM engine: "@ + detail)
}

/// Runs units and bundles under resource limits. Running takes `&self`;
/// the module store is changed through `&mut self`.
pub struct WasmExecutor {
    engine: wasmtime::Engine,
    limits: WasmLimits,
    cache: lru::LruCache<String, String>,
}

impl WasmExecutor {
    /// The limits that every call runs under.
    pub closed spec fn spec_limits(&self) -> WasmLimits {
        self.limits
    }

    /// The modules kept, the most recently used first.
    pub closed spec fn modules(&self) -> Entries {
        lru_entries(self.cache)
    }

    /// The number of modules that can be kept.
    pub closed spec fn capacity(&self) -> nat {
        lru_capacity(self.cache)
    }

    /// An executor with the default limits.
    pub fn new() -> (r: Result<Self, ExecutorError>)
        ensures
            match r {
                Ok(executor) => executor.spec_limits() == (WasmLimits {
                    max_memory_bytes: 16777216,
                    max_fuel: 1000000,
                    timeout_ms: 5000,
                }) && executor.modules() == Entries::empty() && executor.capacity() == 100,
                Err(e) => e is RuntimeError,
            },
    {
        Self::with_limits(WasmLimits::default())
    }

    /// An executor with the given limits and room for 100 modules. Fails
    /// only where the metering engine cannot be set up.
    pub fn with_limits(limits: WasmLimits) -> (r: Result<Self, ExecutorError>)
        ensures
            match r {
                Ok(executor) => executor.spec_limits() == limits && executor.modules()
                    == Entries::empty() && executor.capacity() == 100,
                Err(e) => is_setup_failure(e),
            },
    {
        match metered_engine() {
            Ok(engine) => Ok(WasmExecutor { engine, limits, cache: lru_new(100) }),
            Err(message) => Err(
                ExecutorError::RuntimeError(
                    String::from_str("Failed to create WASM engine: ").concat(message.as_str()),
                ),
            ),
        }
    }

    /// The limits that every call runs under.
    pub fn limits(&self) -> (limits: &WasmLimits)
        ensures
            *limits == self.spec_limits(),
    {
        &self.limits
    }

    /// Forgets every module.
    pub fn clear_cache(&mut self)
        ensures
            final(self).modules() == Entries::empty(),
            final(self).capacity() == old(self).capacity(),
            final(self).spec_limits() == old(self).spec_limits(),
    {
        lru_clear(&mut self.cache);
    }

    /// Runs a script and then a call in a fresh engine instance and
    /// context, under the memory ceiling and the watchdog. A fault while
    /// loading carries `load_prefix`, one while calling `call_prefix`;
    /// either is a timeout once the deadline has passed.
    fn run_sandboxed(
        &self,
        script: &str,
        call: &str,
        load_prefix: &str,
        call_prefix: &str,
        start: std::time::Instant,
    ) -> (r: Result<String, ExecutorError>)
        ensures
            r matches Err(e) ==> e is RuntimeError || e is Timeout,
    {
        let runtime = match open_runtime() {
            Ok(runtime) => runtime,
            Err(message) => {
                return Err(ExecutorError::RuntimeError(message));
            },
        };
        cap_memory(&runtime, self.limits.max_memory_bytes);
        arm_watchdog(
            &runtime,
            Budget { fuel: self.limits.max_fuel, timeout_ms: self.limits.timeout_ms },
            start,
        );
        let context = match open_context(&runtime) {
            Ok(context) => context,
            Err(message) => {
                return Err(ExecutorError::RuntimeError(message));
            },
        };
        match load_script(&context, script) {
            Ok(()) => {},
            Err(message) => {
                return Err(
                    engine_fault(
                        load_prefix,
                        message,
                        elapsed_millis(&start),
                        self.limits.timeout_ms,
                    ),
                );
            },
        }
        match call_script(&context, call) {
            Ok(raw) => Ok(raw),
            Err(message) => Err(
                engine_fault(call_prefix, message, elapsed_millis(&start), self.limits.timeout_ms),
            ),
        }
    }

    /// Runs a compiled unit on the facts and the metadata, sandboxed.
    ///
    /// A fault of the engine, a breach of the memory ceiling or an
    /// exhausted fuel budget is a runtime error, a passed deadline a
    /// timeout; a result that is not a result list is reported as
    /// unreadable; any verdict is the aggregate of the result list that
    /// the unit returned.
    pub fn execute(&self, compiled_js: &str, facts: &JsonValue, metadata: &JsonValue) -> (r: Result<
        ExecutionResult,
        ExecutorError,
    >)
        ensures
            match r {
                Ok(v) => is_unit_verdict(v@),
                Err(e) => e is RuntimeError || e is Timeout || is_unreadable(e),
            },
    {
        let start = start_timer();
        match fuel_store(&self.engine, self.limits.max_fuel) {
            Ok(()) => {},
            Err(message) => {
                return Err(
                    ExecutorError::RuntimeError(
                        String::from_str("Failed to set fuel: ").concat(message.as_str()),
                    ),
                );
            },
        }
        let facts_json = facts.to_text();
        let metadata_json = metadata.to_text();
        let call = build_unit_call(facts_json.as_str(), metadata_json.as_str());
        let raw = match self.run_sandboxed(compiled_js, call.as_str(), "", "", start) {
            Ok(raw) => raw,
            Err(e) => {
                return Err(e);
            },
        };
        let execution_time_ms = elapsed_millis(&start);
        unit_verdict_at(raw.as_str(), execution_time_ms, now_millis())
    }

    /// Runs one policy of a bundle on the facts, sandboxed.
    ///
    /// Bytes that are not UTF-8 text are turned down before anything runs.
    /// A fault of the engine or of a limit is a runtime error, a passed
    /// deadline a timeout. A policy that the bundle does not know, and an
    /// exception inside its rule, come back as a failed verdict.
    pub fn execute_bundle(&self, bundle: &[u8], policy_id: &str, facts: &JsonValue) -> (r: Result<
        ExecutionResult,
        ExecutorError,
    >)
        ensures
            match r {
                Ok(v) => valid_utf8(bundle@) && is_unit_verdict(v@),
                Err(e) => e is RuntimeError || (e is Timeout && valid_utf8(bundle@)),
            },
            !valid_utf8(bundle@) ==> (r matches Err(ExecutorError::RuntimeError(m)) && exists|
                detail: Seq<char>,
            | m@ == #[trigger] ("Invalid bundle encoding: "@ + detail)),
    {
        let start = start_timer();
        let source = match text_of_bytes(bundle) {
            Ok(source) => source,
            Err(message) => {
                return Err(
                    ExecutorError::RuntimeError(
                        String::from_str("Invalid bundle encoding: ").concat(message.as_str()),
                    ),
                );
            },
        };
        let facts_json = facts.to_text();
        let call = build_bundle_call(policy_id, facts_json.as_str());
        let raw = match self.run_sandboxed(
            source,
            call.as_str(),
            "Bundle loading failed: ",
            "Bundle execution failed: ",
            start,
        ) {
            Ok(raw) => raw,
            Err(e) => {
                return Err(e);
            },
        };
        let execution_time_ms = elapsed_millis(&start);
        let r = bundle_verdict_at(raw.as_str(), execution_time_ms, now_millis());
        proof {
            if r is Ok {
                lemma_bundle_verdict_is_aggregate(raw@, r->Ok_0@);
            }
        }
        r
    }
}

/// Whether `v` is a verdict that a raw dispatch result comes to, whenever
/// it was made and however long the run took.
pub open spec fn comes_of(raw: Seq<char>, v: VerdictView) -> bool {
    match bundle_outcome(raw) {
        BundleOutcome::Unreadable => false,
        BundleOutcome::Fault(message) => v == VerdictView::failure(
            message,
            v.execution_time_ms,
            v.executed_at,
        ),
        BundleOutcome::Reports(reports) => v == verdict(
            reports,
            v.execution_time_ms,
            v.executed_at,
        ),
    }
}

/// Equal raw results give equal verdicts: the same success, match, output
/// facts and error. Which raw result a call returns is up to the engine
/// and the rule; a rule that reads the clock or draws random numbers may
/// return another each time.
pub proof fn lemma_same_result_same_verdict(raw: Seq<char>, first: VerdictView, second: VerdictView)
    requires
        comes_of(raw, first),
        comes_of(raw, second),
    ensures
        first.success == second.success,
        first.condition_met == second.condition_met,
        first.output_facts == second.output_facts,
        first.error == second.error,
{
}

/// Every verdict of a bundle is the aggregate of some result list: a fault
/// object gives the verdict of a single report with that error.
pub proof fn lemma_bundle_verdict_is_aggregate(raw: Seq<char>, v: VerdictView)
    requires
        comes_of(raw, v),
    ensures
        is_unit_verdict(v),
{
    match bundle_outcome(raw) {
        BundleOutcome::Fault(message) => {
            let report = ReportView {
                rule: Seq::empty(),
                condition_met: false,
                output: None,
                error: Some(message),
            };
            let reports = seq![report];
            assert(reports.drop_last() =~= Seq::<ReportView>::empty());
            assert(crate::aggregate::first_error(reports.drop_last()) is None);
            assert(reports.last() == report);
            assert(verdict(reports, v.execution_time_ms, v.executed_at) == v);
        },
        BundleOutcome::Reports(reports) => {
            assert(verdict(reports, v.execution_time_ms, v.executed_at) == v);
        },
        BundleOutcome::Unreadable => {},
    }
}

} // verus!
