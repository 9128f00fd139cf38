//! The plain executor: runs an executable unit in a fresh engine context
//! and turns what comes back into a verdict.

use vstd::prelude::*;
use vstd::string::*;
use crate::aggregate::{aggregate_at, decode_reports, decode_results, verdict, ReportView};
use crate::cache::{
    after_get, after_put, lemma_get_keeps_well_formed, lemma_put_keeps_well_formed, lru_capacity,
    lru_clear, lru_entries, lru_get, lru_new, lru_put, stored, well_formed, Entries,
};
use crate::clock::{elapsed_millis, now_millis, start_timer};
use crate::engine::{call_script, load_script, open_context, open_runtime};
use crate::json::{parsed_json, JsonValue};
use crate::models::{ExecutionResult, VerdictView};
use crate::text::chars_of;

verus! {

/// Why an execution did not yield a verdict.
#[derive(Debug)]
pub enum ExecutorError {
    RuntimeError(String),
    Timeout,
    InvalidInput(String),
    Serialization(String),
    ScriptNotLoaded,
}

impl ExecutorError {
    /// The error as one line of text.
    pub open spec fn text(self) -> Seq<char> {
        match self {
            ExecutorError::RuntimeError(m) => "Runtime error: "@ + m@,
            ExecutorError::Timeout => "Execution timeout"@,
            ExecutorError::InvalidInput(m) => "Invalid input: "@ + m@,
            ExecutorError::Serialization(m) => "Serialization error: "@ + m@,
            ExecutorError::ScriptNotLoaded => "Script not loaded"@,
        }
    }

    /// The error as one line of text: its kind, then its detail.
    pub fn to_string(&self) -> (s: String)
        ensures
            s@ == self.text(),
    {
        match self {
            ExecutorError::RuntimeError(m) => String::from_str("Runtime error: ").concat(
                m.as_str(),
            ),
            ExecutorError::Timeout => String::from_str("Execution timeout"),
            ExecutorError::InvalidInput(m) => String::from_str("Invalid input: ").concat(
                m.as_str(),
            ),
            ExecutorError::Serialization(m) => String::from_str("Serialization error: ").concat(
                m.as_str(),
            ),
            ExecutorError::ScriptNotLoaded => String::from_str("Script not loaded"),
        }
    }
}

/// The characters that stand for `c` inside a single-quoted script string:
/// a quote and a line feed are escaped, all else stands for itself.
pub open spec fn quoted_char(c: char) -> Seq<char> {
    if c == '\'' {
        seq!['\\', '\'']
    } else if c == '\n' {
        seq!['\\', 'n']
    } else {
        seq![c]
    }
}

/// A text as it stands inside a single-quoted script string.
pub open spec fn quoted(text: Seq<char>) -> Seq<char>
    decreases text.len(),
{
    if text.len() == 0 {
        Seq::empty()
    } else {
        quoted(text.drop_last()) + quoted_char(text.last())
    }
}

/// The expression that calls a unit's entry point with the facts and the
/// metadata as JSON text.
pub open spec fn unit_call(facts: Seq<char>, metadata: Seq<char>) -> Seq<char> {
    "__execute('"@ + quoted(facts) + "', '"@ + quoted(metadata) + "')"@
}

/// Whether `error` is the failure to read a result list.
pub open spec fn is_unreadable(error: ExecutorError) -> bool {
    error is Serialization
}

/// What a unit's raw result stands for: the verdict over the reports it
/// lists, or nothing where it is not the JSON text of a result list.
pub open spec fn unit_reports(raw: Seq<char>) -> Option<Seq<ReportView>> {
    match parsed_json(raw) {
        Some(doc) => decode_reports(doc),
        None => None,
    }
}

/// Appends `text` as it stands inside a single-quoted script string.
pub fn append_quoted(out: &mut String, text: &str)
    ensures
        final(out)@ == old(out)@ + quoted(text@),
{
    let chars = chars_of(text);
    let mut i: usize = 0;
    while i < chars.len()
        invariant
            chars@ == text@,
            i <= chars.len(),
            out@ == old(out)@ + quoted(chars@.take(i as int)),
        decreases chars.len() - i,
    {
        proof {
            assert(chars@.take(i + 1).drop_last() == chars@.take(i as int));
            assert(chars@.take(i + 1).last() == chars@[i as int]);
        }
        let ghost before = out@;
        let c = chars[i];
        if c == '\'' {
            out.push('\\');
            out.push('\'');
        } else if c == '\n' {
            out.push('\\');
            out.push('n');
        } else {
            out.push(c);
        }
        proof {
            assert(out@ =~= before + quoted_char(c));
            assert(out@ =~= old(out)@ + quoted(chars@.take(i + 1)));
        }
        i = i + 1;
    }
    proof {
        assert(chars@.take(chars.len() as int) == chars@);
    }
}

/// Builds the expression that calls a unit's entry point.
pub fn build_unit_call(facts: &str, metadata: &str) -> (call: String)
    ensures
        call@ == unit_call(facts@, metadata@),
{
    let mut call = String::from_str("__execute('");
    append_quoted(&mut call, facts);
    call.append("', '");
    append_quoted(&mut call, metadata);
    call.append("')");
    call
}

/// Turns the raw result of a unit into a verdict stamped with a given time.
///
/// The raw result must be the JSON text of a result list; the verdict is
/// then the aggregate of the reports listed. Anything else is reported as
/// unreadable.
pub fn unit_verdict_at(raw: &str, execution_time_ms: u64, executed_at: i64) -> (r: Result<
    ExecutionResult,
    ExecutorError,
>)
    ensures
        match unit_reports(raw@) {
            Some(reports) => r matches Ok(v) && v@ == verdict(
                reports,
                execution_time_ms,
                executed_at,
            ),
            None => r matches Err(e) && is_unreadable(e),
        },
{
    match JsonValue::parse(raw) {
        Err(message) => Err(ExecutorError::Serialization(message)),
        Ok(doc) => match decode_results(&doc) {
            None => Err(
                ExecutorError::Serialization(String::from_str("not a list of rule results")),
            ),
            Some(results) => Ok(aggregate_at(&results, execution_time_ms, executed_at)),
        },
    }
}

/// Whether a verdict may come of a run that took `execution_time_ms`:
/// it is the aggregate of some result list.
pub open spec fn is_unit_verdict(v: VerdictView) -> bool {
    exists|reports: Seq<ReportView>| #[trigger]
        verdict(reports, v.execution_time_ms, v.executed_at) == v
}

/// A failed verdict is the aggregate of a result list: that of one report
/// with the error.
pub proof fn lemma_failure_is_aggregate(message: Seq<char>, execution_time_ms: u64, executed_at: i64)
    ensures
        is_unit_verdict(VerdictView::failure(message, execution_time_ms, executed_at)),
{
    let report = ReportView {
        rule: Seq::empty(),
        condition_met: false,
        output: None,
        error: Some(message),
    };
    let reports = seq![report];
    assert(reports.drop_last() =~= Seq::<ReportView>::empty());
    assert(crate::aggregate::first_error(reports.drop_last()) is None);
    assert(reports.last() == report);
    assert(verdict(reports, execution_time_ms, executed_at) == VerdictView::failure(
        message,
        execution_time_ms,
        executed_at,
    ));
}

/// A verdict either went through, and then carries no error, or failed,
/// and then carries an error, no match and no output facts.
pub proof fn lemma_verdict_shape(v: VerdictView)
    requires
        is_unit_verdict(v),
    ensures
        v.success ==> v.error is None,
        !v.success ==> !v.condition_met && v.output_facts == crate::json::Json::Null
            && v.error is Some,
{
    let reports = choose|reports: Seq<ReportView>| #[trigger]
        verdict(reports, v.execution_time_ms, v.executed_at) == v;
    assert(verdict(reports, v.execution_time_ms, v.executed_at) == v);
}

/// Runs executable units without resource limits, and keeps a bounded store
/// of scripts by template. The store is changed through `&mut self`, a
/// lookup included, as it makes the script the most recently used; an
/// executor that is shared is locked by its owner.
pub struct RuleExecutor {
    cache: lru::LruCache<String, String>,
}

impl RuleExecutor {
    /// The scripts kept, the most recently used first.
    pub closed spec fn scripts(&self) -> Entries {
        lru_entries(self.cache)
    }

    /// The number of scripts that can be kept.
    pub closed spec fn capacity(&self) -> nat {
        lru_capacity(self.cache)
    }

    /// The store holds no key twice and no more than its capacity.
    pub open spec fn wf(&self) -> bool {
        well_formed(self.scripts(), self.capacity())
    }

    /// An executor whose store keeps `cache_size` scripts, or 100 for a
    /// size of zero.
    pub fn new(cache_size: usize) -> (executor: Self)
        ensures
            executor.wf(),
            executor.scripts() == Entries::empty(),
            executor.capacity() == if cache_size == 0 {
                100
            } else {
                cache_size as nat
            },
    {
        let capacity: usize = if cache_size == 0 {
            100
        } else {
            cache_size
        };
        RuleExecutor { cache: lru_new(capacity) }
    }

    /// Runs a compiled unit on the facts and the metadata, in a fresh
    /// engine instance and context.
    ///
    /// A fault of the engine (the unit does not load, or its entry point
    /// throws) is a runtime error; a result that is not a result list is
    /// reported as unreadable; any verdict is the aggregate of the result
    /// list that the unit returned.
    pub fn execute(&self, compiled_js: &str, facts: &JsonValue, metadata: &JsonValue) -> (r: Result<
        ExecutionResult,
        ExecutorError,
    >)
        ensures
            match r {
                Ok(v) => is_unit_verdict(v@),
                Err(e) => e is RuntimeError || is_unreadable(e),
            },
    {
        let start = start_timer();
        let runtime = match open_runtime() {
            Ok(runtime) => runtime,
            Err(message) => {
                return Err(ExecutorError::RuntimeError(message));
            },
        };
        let context = match open_context(&runtime) {
            Ok(context) => context,
            Err(message) => {
                return Err(ExecutorError::RuntimeError(message));
            },
        };
        let facts_json = facts.to_text();
        let metadata_json = metadata.to_text();
        match load_script(&context, compiled_js) {
            Ok(()) => {},
            Err(message) => {
                return Err(ExecutorError::RuntimeError(message));
            },
        }
        let call = build_unit_call(facts_json.as_str(), metadata_json.as_str());
        let raw = match call_script(&context, call.as_str()) {
            Ok(raw) => raw,
            Err(message) => {
                return Err(ExecutorError::RuntimeError(message));
            },
        };
        let execution_time_ms = elapsed_millis(&start);
        unit_verdict_at(raw.as_str(), execution_time_ms, now_millis())
    }

    /// Keeps a compiled script for a rule template; it is then the most
    /// recently used. Where the store is full and the template is new to
    /// it, the least recently used script leaves.
    pub fn cache_script(&mut self, template_id: &str, source: String)
        requires
            old(self).wf(),
        ensures
            final(self).wf(),
            final(self).capacity() == old(self).capacity(),
            final(self).scripts() == after_put(
                old(self).scripts(),
                old(self).capacity(),
                template_id@,
                source@,
            ),
            stored(final(self).scripts(), template_id@) == Some(source@),
    {
        proof {
            lemma_put_keeps_well_formed(self.scripts(), self.capacity(), template_id@, source@);
        }
        lru_put(&mut self.cache, String::from_str(template_id), source);
    }

    /// The script kept for a rule template, if any; a hit makes it the most
    /// recently used.
    pub fn get_cached_script(&mut self, template_id: &str) -> (script: Option<String>)
        requires
            old(self).wf(),
        ensures
            final(self).wf(),
            final(self).capacity() == old(self).capacity(),
            final(self).scripts() == after_get(old(self).scripts(), template_id@),
            match script {
                Some(s) => stored(old(self).scripts(), template_id@) == Some(s@),
                None => stored(old(self).scripts(), template_id@) is None,
            },
    {
        proof {
            lemma_get_keeps_well_formed(self.scripts(), self.capacity(), template_id@);
        }
        lru_get(&mut self.cache, template_id)
    }

    /// Forgets every script.
    pub fn clear_cache(&mut self)
        requires
            old(self).wf(),
        ensures
            final(self).wf(),
            final(self).capacity() == old(self).capacity(),
            final(self).scripts() == Entries::empty(),
    {
        lru_clear(&mut self.cache);
    }
}

impl Default for RuleExecutor {
    fn default() -> (executor: Self)
        ensures
            executor.wf(),
            executor.scripts() == Entries::empty(),
            executor.capacity() == 100,
    {
        RuleExecutor::new(100)
    }
}

} // verus!
