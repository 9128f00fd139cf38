//! The durable entities, the verdict of an execution, and the request shapes.

use vstd::prelude::*;
use crate::clock::now_millis;
use crate::ident::fresh_id;
use crate::json::{Json, JsonValue};

verus! {

/// The view of an optional text.
pub open spec fn opt_text(s: Option<String>) -> Option<Seq<char>> {
    match s {
        Some(t) => Some(t@),
        None => None,
    }
}

/// The views of a list of texts, in order.
pub open spec fn text_views(texts: Seq<String>) -> Seq<Seq<char>> {
    Seq::new(texts.len(), |i: int| texts[i]@)
}

/// Copies an optional text.
pub fn clone_opt_text(s: &Option<String>) -> (r: Option<String>)
    ensures
        opt_text(r) == opt_text(*s),
{
    match s {
        Some(t) => Some(t.clone()),
        None => None,
    }
}

/// One version of a rule template. The source is the only durable form of
/// the rule logic; `created_at` counts milliseconds since the Unix epoch.
#[derive(Debug)]
pub struct RuleTemplate {
    pub id: u128,
    pub name: String,
    pub version: u32,
    pub source: String,
    pub wasm_path: Option<String>,
    pub compiled_js: Option<String>,
    pub created_at: i64,
    pub is_latest: bool,
}

/// The mathematical value of a rule template.
pub struct TemplateView {
    pub id: u128,
    pub name: Seq<char>,
    pub version: u32,
    pub source: Seq<char>,
    pub wasm_path: Option<Seq<char>>,
    pub compiled_js: Option<Seq<char>>,
    pub created_at: i64,
    pub is_latest: bool,
}

impl View for RuleTemplate {
    type V = TemplateView;

    open spec fn view(&self) -> TemplateView {
        TemplateView {
            id: self.id,
            name: self.name@,
            version: self.version,
            source: self.source@,
            wasm_path: opt_text(self.wasm_path),
            compiled_js: opt_text(self.compiled_js),
            created_at: self.created_at,
            is_latest: self.is_latest,
        }
    }
}

impl TemplateView {
    /// The first version of a template: version 1, latest, nothing compiled.
    pub open spec fn first(id: u128, created_at: i64, name: Seq<char>, source: Seq<char>) -> Self {
        TemplateView {
            id,
            name,
            version: 1,
            source,
            wasm_path: None,
            compiled_js: None,
            created_at,
            is_latest: true,
        }
    }

    /// The version that follows `self`: same name, next number, latest.
    pub open spec fn successor(self, id: u128, created_at: i64, source: Seq<char>) -> Self {
        TemplateView {
            id,
            name: self.name,
            version: (self.version + 1) as u32,
            source,
            wasm_path: None,
            compiled_js: None,
            created_at,
            is_latest: true,
        }
    }
}

impl Clone for RuleTemplate {
    fn clone(&self) -> (r: Self)
        ensures
            r@ == self@,
    {
        RuleTemplate {
            id: self.id,
            name: self.name.clone(),
            version: self.version,
            source: self.source.clone(),
            wasm_path: clone_opt_text(&self.wasm_path),
            compiled_js: clone_opt_text(&self.compiled_js),
            created_at: self.created_at,
            is_latest: self.is_latest,
        }
    }
}

impl RuleTemplate {
    /// The first version of a template under a given identity and time.
    pub fn first(id: u128, created_at: i64, name: String, source: String) -> (t: Self)
        ensures
            t@ == TemplateView::first(id, created_at, name@, source@),
    {
        RuleTemplate {
            id,
            name,
            version: 1,
            source,
            wasm_path: None,
            compiled_js: None,
            created_at,
            is_latest: true,
        }
    }

    /// The version after this one under a given identity and time.
    pub fn successor(&self, id: u128, created_at: i64, source: String) -> (t: Self)
        requires
            self.version < u32::MAX,
        ensures
            t@ == self@.successor(id, created_at, source@),
    {
        RuleTemplate {
            id,
            name: self.name.clone(),
            version: self.version + 1,
            source,
            wasm_path: None,
            compiled_js: None,
            created_at,
            is_latest: true,
        }
    }

    /// A new template: version 1 and latest, under a fresh identifier and
    /// the current time.
    pub fn new(name: String, source: String) -> (t: Self)
        ensures
            t@ == TemplateView::first(t.id, t.created_at, name@, source@),
    {
        Self::first(fresh_id(), now_millis(), name, source)
    }

    /// The next version of this template, under a fresh identifier and the
    /// current time.
    pub fn new_version(&self, source: String) -> (t: Self)
        requires
            self.version < u32::MAX,
        ensures
            t@ == self@.successor(t.id, t.created_at, source@),
    {
        self.successor(fresh_id(), now_millis(), source)
    }
}

/// The views of a list of templates, in order.
pub open spec fn template_list_views(templates: Seq<RuleTemplate>) -> Seq<TemplateView> {
    Seq::new(templates.len(), |i: int| templates[i]@)
}

/// A policy: a pinned reference to one template version, with the metadata
/// that is captured into every execution of it.
#[derive(Debug)]
pub struct Policy {
    pub id: u128,
    pub name: String,
    pub rule_template_id: u128,
    pub rule_template_version: u32,
    pub metadata: JsonValue,
    pub created_at: i64,
    pub description: Option<String>,
    pub is_active: bool,
}

/// The mathematical value of a policy.
pub struct PolicyView {
    pub id: u128,
    pub name: Seq<char>,
    pub rule_template_id: u128,
    pub rule_template_version: u32,
    pub metadata: Json,
    pub created_at: i64,
    pub description: Option<Seq<char>>,
    pub is_active: bool,
}

impl View for Policy {
    type V = PolicyView;

    open spec fn view(&self) -> PolicyView {
        PolicyView {
            id: self.id,
            name: self.name@,
            rule_template_id: self.rule_template_id,
            rule_template_version: self.rule_template_version,
            metadata: self.metadata@,
            created_at: self.created_at,
            description: opt_text(self.description),
            is_active: self.is_active,
        }
    }
}

impl PolicyView {
    /// A policy as it is created: active, without a description.
    pub open spec fn fresh(
        id: u128,
        created_at: i64,
        name: Seq<char>,
        rule_template_id: u128,
        rule_template_version: u32,
        metadata: Json,
    ) -> Self {
        PolicyView {
            id,
            name,
            rule_template_id,
            rule_template_version,
            metadata,
            created_at,
            description: None,
            is_active: true,
        }
    }
}

impl Clone for Policy {
    fn clone(&self) -> (r: Self)
        ensures
            r@ == self@,
    {
        Policy {
            id: self.id,
            name: self.name.clone(),
            rule_template_id: self.rule_template_id,
            rule_template_version: self.rule_template_version,
            metadata: self.metadata.clone(),
            created_at: self.created_at,
            description: clone_opt_text(&self.description),
            is_active: self.is_active,
        }
    }
}

impl Policy {
    /// A policy under a given identity and time.
    pub fn bind(
        id: u128,
        created_at: i64,
        name: String,
        rule_template_id: u128,
        rule_template_version: u32,
        metadata: JsonValue,
    ) -> (p: Self)
        ensures
            p@ == PolicyView::fresh(
                id,
                created_at,
                name@,
                rule_template_id,
                rule_template_version,
                metadata@,
            ),
    {
        Policy {
            id,
            name,
            rule_template_id,
            rule_template_version,
            metadata,
            created_at,
            description: None,
            is_active: true,
        }
    }

    /// A new policy bound to a template version, under a fresh identifier
    /// and the current time.
    pub fn new(
        name: String,
        rule_template_id: u128,
        rule_template_version: u32,
        metadata: JsonValue,
    ) -> (p: Self)
        ensures
            p@ == PolicyView::fresh(
                p.id,
                p.created_at,
                name@,
                rule_template_id,
                rule_template_version,
                metadata@,
            ),
    {
        Self::bind(
            fresh_id(),
            now_millis(),
            name,
            rule_template_id,
            rule_template_version,
            metadata,
        )
    }
}

/// The view of an optional policy.
pub open spec fn opt_policy(p: Option<Policy>) -> Option<PolicyView> {
    match p {
        Some(policy) => Some(policy@),
        None => None,
    }
}

/// The views of a list of policies, in order.
pub open spec fn policy_views(policies: Seq<Policy>) -> Seq<PolicyView> {
    Seq::new(policies.len(), |i: int| policies[i]@)
}

/// The facts handed to a policy when it is executed.
#[derive(Debug, Clone)]
pub struct InputFacts {
    pub data: JsonValue,
}

impl InputFacts {
    pub fn new(data: JsonValue) -> (f: Self)
        ensures
            f.data == data,
    {
        InputFacts { data }
    }
}

/// The verdict of one execution request.
#[derive(Debug)]
pub struct ExecutionResult {
    pub success: bool,
    pub condition_met: bool,
    pub output_facts: JsonValue,
    pub execution_time_ms: u64,
    pub error: Option<String>,
    pub executed_at: i64,
}

/// The mathematical value of a verdict.
pub struct VerdictView {
    pub success: bool,
    pub condition_met: bool,
    pub output_facts: Json,
    pub execution_time_ms: u64,
    pub error: Option<Seq<char>>,
    pub executed_at: i64,
}

impl View for ExecutionResult {
    type V = VerdictView;

    open spec fn view(&self) -> VerdictView {
        VerdictView {
            success: self.success,
            condition_met: self.condition_met,
            output_facts: self.output_facts@,
            execution_time_ms: self.execution_time_ms,
            error: opt_text(self.error),
            executed_at: self.executed_at,
        }
    }
}

impl VerdictView {
    /// The verdict of a run that went through.
    pub open spec fn success(
        condition_met: bool,
        output_facts: Json,
        execution_time_ms: u64,
        executed_at: i64,
    ) -> Self {
        VerdictView {
            success: true,
            condition_met,
            output_facts,
            execution_time_ms,
            error: None,
            executed_at,
        }
    }

    /// The verdict of a run that failed: no match, no output, the message.
    pub open spec fn failure(error: Seq<char>, execution_time_ms: u64, executed_at: i64) -> Self {
        VerdictView {
            success: false,
            condition_met: false,
            output_facts: Json::Null,
            execution_time_ms,
            error: Some(error),
            executed_at,
        }
    }
}

impl Clone for ExecutionResult {
    fn clone(&self) -> (r: Self)
        ensures
            r@ == self@,
    {
        ExecutionResult {
            success: self.success,
            condition_met: self.condition_met,
            output_facts: self.output_facts.clone(),
            execution_time_ms: self.execution_time_ms,
            error: clone_opt_text(&self.error),
            executed_at: self.executed_at,
        }
    }
}

impl ExecutionResult {
    /// A successful verdict stamped with a given time.
    pub fn success_at(
        condition_met: bool,
        output_facts: JsonValue,
        execution_time_ms: u64,
        executed_at: i64,
    ) -> (r: Self)
        ensures
            r@ == VerdictView::success(
                condition_met,
                output_facts@,
                execution_time_ms,
                executed_at,
            ),
    {
        ExecutionResult {
            success: true,
            condition_met,
            output_facts,
            execution_time_ms,
            error: None,
            executed_at,
        }
    }

    /// A failed verdict stamped with a given time.
    pub fn failure_at(error: String, execution_time_ms: u64, executed_at: i64) -> (r: Self)
        ensures
            r@ == VerdictView::failure(error@, execution_time_ms, executed_at),
    {
        ExecutionResult {
            success: false,
            condition_met: false,
            output_facts: JsonValue::Null,
            execution_time_ms,
            error: Some(error),
            executed_at,
        }
    }

    /// A successful verdict, stamped with the current time.
    pub fn success(condition_met: bool, output_facts: JsonValue, execution_time_ms: u64) -> (r:
        Self)
        ensures
            r@ == VerdictView::success(
                condition_met,
                output_facts@,
                execution_time_ms,
                r.executed_at,
            ),
    {
        Self::success_at(condition_met, output_facts, execution_time_ms, now_millis())
    }

    /// A failed verdict, stamped with the current time.
    pub fn failure(error: String, execution_time_ms: u64) -> (r: Self)
        ensures
            r@ == VerdictView::failure(error@, execution_time_ms, r.executed_at),
    {
        Self::failure_at(error, execution_time_ms, now_millis())
    }
}

/// Request to create a new rule template.
#[derive(Debug, Clone)]
pub struct CreateRuleTemplateRequest {
    pub name: String,
    pub source: String,
}

/// Request to create a new policy. Without a version the template is taken
/// as it is found.
#[derive(Debug, Clone)]
pub struct CreatePolicyRequest {
    pub name: String,
    pub rule_template_id: u128,
    pub rule_template_version: Option<u32>,
    pub metadata: JsonValue,
    pub description: Option<String>,
}

/// Request to execute a policy.
#[derive(Debug, Clone)]
pub struct ExecutePolicyRequest {
    pub policy_id: u128,
    pub facts: JsonValue,
}

/// One entry of a template's version history.
#[derive(Debug, Clone, Copy)]
pub struct RuleTemplateVersionInfo {
    pub id: u128,
    pub version: u32,
    pub created_at: i64,
    pub is_latest: bool,
}

/// The version history of the templates that share a name.
#[derive(Debug, Clone)]
pub struct RuleTemplateVersionsResponse {
    pub name: String,
    pub versions: Vec<RuleTemplateVersionInfo>,
}

} // verus!
