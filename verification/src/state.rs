//! The coordinator: the state that serves requests over a storage
//! backend, and the one slot that holds the current artifact.

use vstd::prelude::*;
use vstd::string::*;
use crate::bundler::collect_templates;
use crate::clock::{elapsed_millis, now_millis, start_timer};
use crate::compiler::{structural_fault, RuleCompiler};
use crate::error::ApiError;
use crate::executor::{
    is_unit_verdict, lemma_failure_is_aggregate, lemma_verdict_shape, ExecutorError,
};
use crate::history::{
    count_named, drafted, lemma_creation_keeps_history, lemma_latest_is_last, numbered_history,
};
use crate::ident::{fresh_id, to_hyphenated};
use crate::json::{Json, JsonValue};
use crate::memory::InMemoryStorage;
use crate::models::{
    opt_policy, policy_views, text_views, CreatePolicyRequest, CreateRuleTemplateRequest,
    ExecutePolicyRequest, ExecutionResult, Policy, PolicyView, RuleTemplate,
    RuleTemplateVersionsResponse, TemplateView, VerdictView,
};
use crate::rebuild::{
    assemble_bundle, fetched_views, found_for, is_rebuilt, lemma_save_keeps_links,
    lemma_save_policy_keeps_links, lemma_well_linked_rebuilds, splice_policy, spliced,
    well_linked, Fetched,
};
use crate::requests::{
    claim_identifier, template_taken, draft_policy, draft_template, drafted_policy, is_version_asked, no_policy, no_template,
    no_template_named, no_template_version, require_policy, require_template, resolve_template,
    version_infos, versions_left, versions_response, versions_used_up,
};
use crate::storage::{
    after_save_policy, first_index, is_latest_of, latest_names, lemma_first_index,
    supersede,
    lemma_found_when_stored, policy_ids, template_ids, versions_of, RuleTemplateStorage, Storage,
    StorageModel,
};
use crate::cache::Entries;
use crate::wasm_executor::{is_setup_failure, WasmExecutor, WasmLimits};

verus! {

/// What to do at startup.
pub enum StartupAction {
    /// Install the artifact found in the durable location as it is.
    Install(Vec<u8>),
    /// Rebuild the artifact from the stored policies and templates.
    Rebuild,
    /// Leave the cache empty: there is nothing to serve.
    LeaveEmpty,
}

/// Decides what to do at startup: an artifact that was persisted is
/// installed without a rebuild; without one the artifact is rebuilt if any
/// policy is stored, else the cache stays empty.
pub fn startup_action(persisted: Option<Vec<u8>>, policy_count: usize) -> (action: StartupAction)
    ensures
        match persisted {
            Some(bundle) => action == StartupAction::Install(bundle),
            None => if policy_count == 0 {
                action is LeaveEmpty
            } else {
                action is Rebuild
            },
        },
{
    match persisted {
        Some(bundle) => StartupAction::Install(bundle),
        None => if policy_count == 0 {
            StartupAction::LeaveEmpty
        } else {
            StartupAction::Rebuild
        },
    }
}

/// Turns the outcome of a sandboxed run into what the request is answered
/// with: a fault of the sandbox becomes a failed verdict that carries the
/// fault's text, never an error of the request.
pub fn verdict_of(outcome: Result<ExecutionResult, ExecutorError>, elapsed_ms: u64) -> (v:
    ExecutionResult)
    ensures
        match outcome {
            Ok(verdict) => v == verdict,
            Err(e) => v@ == VerdictView::failure(e.text(), elapsed_ms, v.executed_at),
        },
{
    match outcome {
        Ok(verdict) => verdict,
        Err(e) => ExecutionResult::failure(e.to_string(), elapsed_ms),
    }
}

/// Runs one policy of an artifact on the facts and answers with a verdict
/// whatever the sandbox does: a fault of the sandbox is a failed verdict
/// that carries the fault's text. The artifact is the caller's own copy;
/// no shared state is held while the policy runs.
///
/// The verdict is the aggregate of a result list: of the one that the
/// artifact returned, or of one report with the fault. A verdict that
/// failed carries an error, no match and no output facts.
pub fn run_policy(executor: &WasmExecutor, bundle: &[u8], policy_id: u128, facts: &JsonValue) -> (v:
    ExecutionResult)
    ensures
        is_unit_verdict(v@),
        v.success ==> v.error is None,
        !v.success ==> !v.condition_met && v.output_facts@ == Json::Null && v.error is Some,
        !vstd::utf8::valid_utf8(bundle@) ==> !v.success,
{
    let start = start_timer();
    let outcome = executor.execute_bundle(bundle, to_hyphenated(policy_id).as_str(), facts);
    let elapsed_ms = elapsed_millis(&start);
    proof {
        if outcome is Err {
            let text = outcome->Err_0.text();
            assert forall|at: i64| is_unit_verdict(
                #[trigger] VerdictView::failure(text, elapsed_ms, at),
            ) by {
                lemma_failure_is_aggregate(text, elapsed_ms, at);
            }
        }
    }
    let v = verdict_of(outcome, elapsed_ms);
    proof {
        lemma_verdict_shape(v@);
    }
    v
}

/// Whether an error can come of the storage or of a lookup: something was
/// not found, a request was bad, or the storage failed.
pub open spec fn is_lookup_error(e: ApiError) -> bool {
    e is NotFound || e is BadRequest || e is Internal
}

/// Whether `message` tells that the policies could not be listed: the
/// storage's error behind a fixed prefix.
pub open spec fn is_listing_failure(message: Seq<char>) -> bool {
    exists|e: crate::storage::StorageError|
        message == "Failed to list policies: "@ + #[trigger] e.text()
}

/// Whether `message` is the text of an error that a rebuild can end in.
pub open spec fn is_rebuild_failure(message: Seq<char>) -> bool {
    exists|e: ApiError|
        message == #[trigger] e.text() && (is_lookup_error(e) || e is Compilation)
}

/// Whether `message` is the text of the error that a rebuild over what is
/// stored comes to.
pub open spec fn is_failure_of_rebuild(
    message: Seq<char>,
    templates: Seq<TemplateView>,
    policies: Seq<PolicyView>,
) -> bool {
    exists|e: ApiError|
        message == #[trigger] e.text() && is_rebuilt(Err(e), templates, policies, None)
}

/// An artifact to execute, and where it came from.
pub enum Artifact {
    /// A copy of the artifact in the slot.
    Cached(Vec<u8>),
    /// An artifact built just now, the slot being empty.
    Built(Vec<u8>),
}

/// The state that serves requests: the storage, the compiler, the
/// sandboxed executor, and the one slot that holds the current artifact.
pub struct AppState<S: Storage> {
    pub storage: S,
    pub compiler: RuleCompiler,
    pub executor: WasmExecutor,
    pub cached_bundle: Option<Vec<u8>>,
}

/// The view of the slot: the artifact it holds, if any.
pub open spec fn slot_view(slot: Option<Vec<u8>>) -> Option<Seq<u8>> {
    match slot {
        Some(bundle) => Some(bundle@),
        None => None,
    }
}

impl AppState<InMemoryStorage> {
    /// A state over an empty store in memory, with the default limits and
    /// an empty slot. Fails only where the executor cannot be set up.
    ///
    /// On failure the error is that of the engine's setup, handed on as it
    /// came.
    pub fn new() -> (r: Result<Self, ExecutorError>)
        ensures
            match r {
                Ok(state) => {
                    &&& state.cached_bundle is None
                    &&& state.storage.wf()
                    &&& state.storage.templates() == Seq::<TemplateView>::empty()
                    &&& state.storage.policies() == Seq::<PolicyView>::empty()
                    &&& state.executor.spec_limits() == (WasmLimits {
                        max_memory_bytes: 16777216,
                        max_fuel: 1000000,
                        timeout_ms: 5000,
                    })
                    &&& state.executor.modules() == Entries::empty()
                    &&& state.executor.capacity() == 100
                },
                Err(e) => is_setup_failure(e),
            },
    {
        Self::with_storage(InMemoryStorage::new())
    }

    /// A state over an empty store in memory, with the given limits and an
    /// empty slot. Fails only where the executor cannot be set up.
    ///
    /// On failure the error is that of the engine's setup, handed on as it
    /// came.
    pub fn with_limits(limits: WasmLimits) -> (r: Result<Self, ExecutorError>)
        ensures
            match r {
                Ok(state) => {
                    &&& state.cached_bundle is None
                    &&& state.storage.wf()
                    &&& state.storage.templates() == Seq::<TemplateView>::empty()
                    &&& state.storage.policies() == Seq::<PolicyView>::empty()
                    &&& state.executor.spec_limits() == limits
                    &&& state.executor.modules() == Entries::empty()
                    &&& state.executor.capacity() == 100
                },
                Err(e) => is_setup_failure(e),
            },
    {
        match WasmExecutor::with_limits(limits) {
            Ok(executor) => Ok(
                AppState {
                    storage: InMemoryStorage::new(),
                    compiler: RuleCompiler::new(),
                    executor,
                    cached_bundle: None,
                },
            ),
            Err(e) => Err(e),
        }
    }
}

impl<S: Storage> AppState<S> {
    /// A state over the given storage, with the default limits and an
    /// empty slot. Fails only where the executor cannot be set up.
    ///
    /// On failure the error is that of the engine's setup, handed on as it
    /// came.
    pub fn with_storage(storage: S) -> (r: Result<Self, ExecutorError>)
        ensures
            match r {
                Ok(state) => {
                    &&& state.storage == storage
                    &&& state.cached_bundle is None
                    &&& state.executor.spec_limits() == (WasmLimits {
                        max_memory_bytes: 16777216,
                        max_fuel: 1000000,
                        timeout_ms: 5000,
                    })
                    &&& state.executor.modules() == Entries::empty()
                    &&& state.executor.capacity() == 100
                },
                Err(e) => is_setup_failure(e),
            },
    {
        let limits = WasmLimits { max_memory_bytes: 16777216, max_fuel: 1000000, timeout_ms: 5000 };
        match WasmExecutor::with_limits(limits) {
            Ok(executor) => Ok(
                AppState { storage, compiler: RuleCompiler::new(), executor, cached_bundle: None },
            ),
            Err(e) => Err(e),
        }
    }

    /// A copy of the artifact in the slot, if there is one. The slot is
    /// read and let go: what runs the artifact holds a copy of its own.
    pub fn cached(&self) -> (bundle: Option<Vec<u8>>)
        ensures
            slot_view(bundle) == slot_view(self.cached_bundle),
    {
        match &self.cached_bundle {
            Some(bundle) => Some(bundle.clone()),
            None => None,
        }
    }

    /// The artifact to execute: a copy of the one in the slot, or, with the
    /// slot empty, one rebuilt on the spot, which the caller persists and
    /// installs before it executes.
    pub fn get_or_build(&self) -> (r: Result<Artifact, ApiError>)
        ensures
            match self.cached_bundle {
                Some(bundle) => r matches Ok(Artifact::Cached(copy)) && copy@ == bundle@,
                None => match r {
                    Ok(artifact) => artifact matches Artifact::Built(bytes)
                        && vstd::utf8::valid_utf8(bytes@) && (S::consistent() ==> is_rebuilt(
                        Ok(bytes),
                        self.storage.templates(),
                        self.storage.policies(),
                        None,
                    )),
                    Err(e) => (is_lookup_error(e) || e is Compilation) && (S::consistent()
                        ==> is_rebuilt(
                        Err(e),
                        self.storage.templates(),
                        self.storage.policies(),
                        None,
                    )),
                },
            },
    {
        match self.cached() {
            Some(bundle) => Ok(Artifact::Cached(bundle)),
            None => match self.rebuild_bundle(None) {
                Ok(bundle) => Ok(Artifact::Built(bundle)),
                Err(e) => Err(e),
            },
        }
    }

    /// Puts an artifact into the slot, in place of what was there.
    pub fn install_bundle(&mut self, bundle: Vec<u8>)
        ensures
            final(self).cached_bundle == Some(bundle),
            final(self).storage == old(self).storage,
            final(self).executor == old(self).executor,
    {
        self.cached_bundle = Some(bundle);
    }

    /// Settles a rebuild attempt. An artifact that was built and persisted
    /// takes the slot. A failed attempt rolls nothing back: the slot keeps
    /// what it held, which may lag behind what is stored until a later
    /// attempt succeeds, and the error is handed back to be logged.
    pub fn settle_rebuild(&mut self, outcome: Result<Vec<u8>, ApiError>) -> (failure: Option<
        ApiError,
    >)
        ensures
            final(self).storage == old(self).storage,
            final(self).executor == old(self).executor,
            match outcome {
                Ok(bundle) => final(self).cached_bundle == Some(bundle) && failure is None,
                Err(e) => final(self).cached_bundle == old(self).cached_bundle && failure == Some(
                    e,
                ),
            },
    {
        match outcome {
            Ok(bundle) => {
                self.cached_bundle = Some(bundle);
                None
            },
            Err(e) => Some(e),
        }
    }

    /// Rebuilds the artifact from what is stored: lists the policies, adds
    /// the policy just written where the listing does not show it yet,
    /// fetches and compiles each template referred to, and links. The slot
    /// is not touched: the caller persists the artifact and installs it.
    ///
    /// Over a consistent backend the outcome is that of assembling what is
    /// stored, and the rebuild succeeds where what is stored is well
    /// linked.
    pub fn rebuild_bundle(&self, new_policy: Option<Policy>) -> (r: Result<Vec<u8>, ApiError>)
        ensures
            match r {
                Ok(bytes) => vstd::utf8::valid_utf8(bytes@),
                Err(e) => is_lookup_error(e) || e is Compilation,
            },
            S::consistent() ==> is_rebuilt(
                r,
                self.storage.templates(),
                self.storage.policies(),
                opt_policy(new_policy),
            ),
            S::consistent() && well_linked(
                self.storage.templates(),
                spliced(self.storage.policies(), opt_policy(new_policy)),
            ) ==> r is Ok,
    {
        let listed = match self.storage.list() {
            Ok(listed) => listed,
            Err(e) => {
                return Err(ApiError::from(e));
            },
        };
        let policies = splice_policy(listed, new_policy);
        let ids = collect_templates(policies.as_slice());
        let ghost wanted = found_for(self.storage.templates(), ids@);
        let mut fetched: Vec<Fetched> = Vec::new();
        let mut i: usize = 0;
        while i < ids.len()
            invariant
                i <= ids.len(),
                wanted == found_for(self.storage.templates(), ids@),
                fetched.len() == i,
                S::consistent() ==> fetched_views(fetched@) == wanted.take(i as int),
            decreases ids.len() - i,
        {
            match self.storage.get_by_id(ids[i]) {
                Ok(found) => {
                    fetched.push((ids[i], found));
                },
                Err(e) => {
                    return Err(ApiError::from(e));
                },
            }
            proof {
                if S::consistent() {
                    assert(fetched_views(fetched@) =~= wanted.take(i + 1));
                }
            }
            i = i + 1;
        }
        proof {
            assert(wanted.take(ids.len() as int) == wanted);
        }
        let r = assemble_bundle(&self.compiler, policies.as_slice(), &fetched);
        proof {
            if S::consistent() && well_linked(
                self.storage.templates(),
                spliced(self.storage.policies(), opt_policy(new_policy)),
            ) {
                lemma_well_linked_rebuilds(
                    r,
                    self.storage.templates(),
                    self.storage.policies(),
                    opt_policy(new_policy),
                );
            }
        }
        r
    }

    /// Brings the slot up at startup. An artifact that was persisted is
    /// installed as it is. Without one the artifact is rebuilt if any
    /// policy is stored and handed back for the caller to persist and
    /// install; with no policy stored the slot stays empty.
    ///
    /// Returns the number of policies listed and the artifact to persist.
    /// An error is the message of the step that failed: the storage's
    /// error behind `Failed to list policies: `, or the text of the
    /// rebuild's error. On an error nothing is built and, without a
    /// persisted artifact, the slot stays as it was.
    pub fn initialize_bundle(&mut self, persisted: Option<Vec<u8>>) -> (r: Result<
        (usize, Option<Vec<u8>>),
        String,
    >)
        ensures
            final(self).storage == old(self).storage,
            match persisted {
                Some(bundle) => final(self).cached_bundle == Some(bundle) && (r matches Ok(
                    started,
                ) ==> started.1 is None),
                None => final(self).cached_bundle == old(self).cached_bundle,
            },
            match r {
                Ok(started) => started.1 matches Some(bytes) ==> vstd::utf8::valid_utf8(bytes@),
                Err(m) => is_listing_failure(m@) || (persisted is None && is_rebuild_failure(
                    m@,
                )),
            },
            S::consistent() ==> if persisted is Some || old(self).storage.policies().len() == 0 {
                r matches Ok(started) && started.0 == old(self).storage.policies().len()
                    && started.1 is None
            } else {
                match r {
                    Ok(started) => started.0 == old(self).storage.policies().len() && (
                    started.1 matches Some(bytes) && is_rebuilt(
                        Ok(bytes),
                        old(self).storage.templates(),
                        old(self).storage.policies(),
                        None,
                    )),
                    Err(m) => is_failure_of_rebuild(
                        m@,
                        old(self).storage.templates(),
                        old(self).storage.policies(),
                    ),
                }
            },
    {
        let found = persisted.is_some();
        match startup_action(persisted, 0) {
            StartupAction::Install(bundle) => {
                self.cached_bundle = Some(bundle);
            },
            _ => {},
        }
        let listed = match self.storage.list() {
            Ok(listed) => listed,
            Err(e) => {
                return Err(
                    String::from_str("Failed to list policies: ").concat(e.to_string().as_str()),
                );
            },
        };
        if found {
            return Ok((listed.len(), None));
        }
        match startup_action(None, listed.len()) {
            StartupAction::Rebuild => match self.rebuild_bundle(None) {
                Ok(bundle) => Ok((listed.len(), Some(bundle))),
                Err(e) => Err(e.to_string()),
            },
            _ => Ok((0, None)),
        }
    }

    /// Creates a rule template from a request: the source is validated,
    /// then saved as version 1 of a new name or as the version after the
    /// latest of a known one.
    ///
    /// Source with a structural fault is turned down before the storage is
    /// touched: nothing is saved. The slot is never touched: the caller
    /// rebuilds after a successful write.
    ///
    /// The identifier is drawn at random; should a stored template have
    /// it, the request fails and nothing is written over. Over a
    /// consistent backend sound source is saved unless the version numbers
    /// of the name are used up or the identifier is taken; a numbered
    /// history stays numbered, and what is stored stays well linked.
    pub fn create_rule_template(&mut self, req: &CreateRuleTemplateRequest) -> (r: Result<
        RuleTemplate,
        ApiError,
    >)
        ensures
            final(self).cached_bundle == old(self).cached_bundle,
            final(self).executor == old(self).executor,
            structural_fault(req.source@) is Some ==> (r matches Err(ApiError::Compilation(_)))
                && final(self).storage == old(self).storage,
            structural_fault(req.source@) is None ==> (r matches Err(e) ==> is_lookup_error(e)),
            S::consistent() && structural_fault(req.source@) is None ==> if !versions_left(
                old(self).storage.templates(),
                req.name@,
            ) {
                &&& r matches Err(ApiError::Internal(m))
                &&& m@ == versions_used_up()
                &&& final(self).storage == old(self).storage
            } else {
                match r {
                    Ok(t) => {
                        &&& first_index(template_ids(old(self).storage.templates()), t.id) is None
                        &&& t@ == drafted(
                            old(self).storage.templates(),
                            t.id,
                            t.created_at,
                            req.name@,
                            req.source@,
                        )
                        &&& final(self).storage.templates() == supersede(
                            old(self).storage.templates(),
                            req.name@,
                        ).push(t@)
                        &&& final(self).storage.policies() == old(self).storage.policies()
                    },
                    Err(e) => {
                        &&& e matches ApiError::BadRequest(m)
                        &&& exists|id: u128|
                            first_index(template_ids(old(self).storage.templates()), id) is Some
                                && m@ == #[trigger] template_taken(id)
                        &&& final(self).storage == old(self).storage
                    },
                }
            },
            S::consistent() && numbered_history(old(self).storage.templates())
                ==> numbered_history(final(self).storage.templates()) && (r matches Ok(t)
                ==> t.is_latest && t.version == count_named(
                old(self).storage.templates(),
                req.name@,
            ) + 1),
            S::consistent() && well_linked(
                old(self).storage.templates(),
                old(self).storage.policies(),
            ) ==> well_linked(final(self).storage.templates(), final(self).storage.policies()),
    {
        proof {
            if S::consistent() && numbered_history(self.storage.templates()) {
                lemma_latest_is_last(self.storage.templates(), req.name@);
            }
        }
        match self.compiler.validate(req.source.as_str()) {
            Ok(()) => {},
            Err(e) => {
                return Err(ApiError::from(e));
            },
        }
        let existing = match self.storage.get_latest_by_name(req.name.as_str()) {
            Ok(existing) => existing,
            Err(e) => {
                return Err(ApiError::from(e));
            },
        };
        let template = match draft_template(existing, req, fresh_id(), now_millis()) {
            Ok(template) => template,
            Err(e) => {
                return Err(e);
            },
        };
        let holder = match self.storage.get_by_id(template.id) {
            Ok(holder) => holder,
            Err(e) => {
                return Err(ApiError::from(e));
            },
        };
        match claim_identifier(holder, template.id) {
            Ok(()) => {},
            Err(e) => {
                proof {
                    if S::consistent() {
                        let stored = self.storage.templates();
                        assert(first_index(template_ids(stored), template.id) is Some);
                        assert(e->BadRequest_0@ == template_taken(template.id));
                    }
                }
                return Err(e);
            },
        }
        proof {
            let stored = self.storage.templates();
            if S::consistent() {
                crate::storage::lemma_first_match(stored, is_latest_of(req.name@));
                assert(template@.name == req.name@);
            }
            if S::consistent() && well_linked(stored, self.storage.policies()) {
                lemma_save_keeps_links(stored, self.storage.policies(), template@);
            }
            if S::consistent() && numbered_history(stored) && first_index(
                template_ids(stored),
                template.id,
            ) is None {
                lemma_creation_keeps_history(
                    stored,
                    template.id,
                    template.created_at,
                    req.name@,
                    req.source@,
                );
            }
        }
        match RuleTemplateStorage::save(&mut self.storage, template) {
            Ok(saved) => Ok(saved),
            Err(e) => Err(ApiError::from(e)),
        }
    }

    /// The rule template with the identifier; over a consistent backend
    /// the one stored, or the error that none is.
    pub fn get_rule_template(&self, id: u128) -> (r: Result<RuleTemplate, ApiError>)
        ensures
            r matches Err(e) ==> is_lookup_error(e),
            S::consistent() ==> match first_index(template_ids(self.storage.templates()), id) {
                Some(i) => r matches Ok(t) && t@ == self.storage.templates()[i],
                None => r matches Err(ApiError::NotFound(m)) && m@ == no_template(id),
            },
    {
        match self.storage.get_by_id(id) {
            Ok(found) => require_template(found, id),
            Err(e) => Err(ApiError::from(e)),
        }
    }

    /// The version history of the templates with a name; over a consistent
    /// backend the versions stored, lowest first, or the error that the
    /// name has none.
    pub fn get_rule_template_versions(&self, name: &str) -> (r: Result<
        RuleTemplateVersionsResponse,
        ApiError,
    >)
        ensures
            match r {
                Ok(response) => response.name@ == name@ && response.versions@.len() > 0,
                Err(e) => is_lookup_error(e),
            },
            S::consistent() ==> if versions_of(self.storage.templates(), name@).len() == 0 {
                r matches Err(ApiError::NotFound(m)) && m@ == no_template_named(name@)
            } else {
                r matches Ok(response) && response.versions@ == version_infos(
                    versions_of(self.storage.templates(), name@),
                )
            },
    {
        match self.storage.get_versions_by_name(name) {
            Ok(versions) => versions_response(name, &versions),
            Err(e) => Err(ApiError::from(e)),
        }
    }

    /// The names of the rule templates; over a consistent backend the
    /// names that have a latest version, each once, in ascending order.
    pub fn list_rule_templates(&self) -> (r: Result<Vec<String>, ApiError>)
        ensures
            r matches Err(e) ==> is_lookup_error(e),
            S::consistent() ==> (r matches Ok(names) && text_views(names@) == latest_names(
                self.storage.templates(),
            )),
    {
        match self.storage.list_names() {
            Ok(names) => Ok(names),
            Err(e) => Err(ApiError::from(e)),
        }
    }

    /// Creates a policy from a request: the template referred to must
    /// exist, in the version asked for if one is asked for; the policy is
    /// bound to the template as found and saved with the request's
    /// metadata and description. The slot is never touched: the caller
    /// rebuilds after a successful write.
    ///
    /// Over a consistent backend the request fails exactly where no template
    /// is stored under the identifier, or the one stored is not the version
    /// asked for; nothing is saved then. What is stored stays well linked.
    pub fn create_policy(&mut self, req: &CreatePolicyRequest) -> (r: Result<Policy, ApiError>)
        ensures
            final(self).cached_bundle == old(self).cached_bundle,
            final(self).executor == old(self).executor,
            r matches Err(e) ==> is_lookup_error(e),
            S::consistent() ==> match first_index(
                template_ids(old(self).storage.templates()),
                req.rule_template_id,
            ) {
                None => {
                    &&& r matches Err(ApiError::NotFound(m))
                    &&& m@ == no_template(req.rule_template_id)
                    &&& final(self).storage == old(self).storage
                },
                Some(i) => if is_version_asked(
                    old(self).storage.templates()[i],
                    req.rule_template_version,
                ) {
                    &&& r matches Ok(p)
                    &&& p@ == drafted_policy(
                        *req,
                        old(self).storage.templates()[i],
                        p.id,
                        p.created_at,
                    )
                    &&& final(self).storage.policies() == after_save_policy(
                        old(self).storage.policies(),
                        p@,
                    )
                    &&& final(self).storage.templates() == old(self).storage.templates()
                } else {
                    &&& r matches Err(ApiError::NotFound(m))
                    &&& m@ == no_template_version(
                        req.rule_template_id,
                        req.rule_template_version->0,
                    )
                    &&& final(self).storage == old(self).storage
                },
            },
            S::consistent() && well_linked(
                old(self).storage.templates(),
                old(self).storage.policies(),
            ) ==> well_linked(final(self).storage.templates(), final(self).storage.policies()),
    {
        let found = match self.storage.get_by_id(req.rule_template_id) {
            Ok(found) => found,
            Err(e) => {
                return Err(ApiError::from(e));
            },
        };
        let template = match resolve_template(
            found,
            req.rule_template_id,
            req.rule_template_version,
        ) {
            Ok(template) => template,
            Err(e) => {
                return Err(e);
            },
        };
        let policy = draft_policy(req, &template, fresh_id(), now_millis());
        proof {
            let stored = self.storage.templates();
            if S::consistent() && well_linked(stored, self.storage.policies()) {
                lemma_first_index(template_ids(stored), req.rule_template_id);
                lemma_found_when_stored(template_ids(stored), policy.rule_template_id);
                lemma_save_policy_keeps_links(stored, self.storage.policies(), policy@);
            }
        }
        match self.storage.save_policy(policy) {
            Ok(saved) => Ok(saved),
            Err(e) => Err(ApiError::from(e)),
        }
    }

    /// The policy with the identifier; over a consistent backend the one
    /// stored, or the error that none is.
    pub fn get_policy(&self, id: u128) -> (r: Result<Policy, ApiError>)
        ensures
            r matches Err(e) ==> is_lookup_error(e),
            S::consistent() ==> match first_index(policy_ids(self.storage.policies()), id) {
                Some(i) => r matches Ok(p) && p@ == self.storage.policies()[i],
                None => r matches Err(ApiError::NotFound(m)) && m@ == no_policy(id),
            },
    {
        match self.storage.get_policy_by_id(id) {
            Ok(found) => require_policy(found, id),
            Err(e) => Err(ApiError::from(e)),
        }
    }

    /// All policies; over a consistent backend those stored, in order.
    pub fn list_policies(&self) -> (r: Result<Vec<Policy>, ApiError>)
        ensures
            r matches Err(e) ==> is_lookup_error(e),
            S::consistent() ==> (r matches Ok(all) && policy_views(all@)
                == self.storage.policies()),
    {
        match self.storage.list() {
            Ok(listed) => Ok(listed),
            Err(e) => Err(ApiError::from(e)),
        }
    }

    /// Executes a policy on the facts of a request against an artifact.
    ///
    /// A policy that is not stored is not found. Once the policy is found
    /// the request is answered with a verdict whatever the sandbox does: a
    /// fault of the sandbox is a failed verdict, with an error, no match
    /// and no output facts, not an error of the request.
    pub fn execute_policy(&self, req: &ExecutePolicyRequest, bundle: &[u8]) -> (r: Result<
        ExecutionResult,
        ApiError,
    >)
        ensures
            match r {
                Ok(v) => {
                    &&& is_unit_verdict(v@)
                    &&& v.success ==> v.error is None
                    &&& !v.success ==> !v.condition_met && v.output_facts@ == Json::Null
                        && v.error is Some
                    &&& !vstd::utf8::valid_utf8(bundle@) ==> !v.success
                },
                Err(e) => is_lookup_error(e),
            },
            S::consistent() ==> match first_index(
                policy_ids(self.storage.policies()),
                req.policy_id,
            ) {
                Some(_) => r is Ok,
                None => r matches Err(ApiError::NotFound(m)) && m@ == no_policy(req.policy_id),
            },
    {
        let found = match self.storage.get_policy_by_id(req.policy_id) {
            Ok(found) => found,
            Err(e) => {
                return Err(ApiError::from(e));
            },
        };
        match require_policy(found, req.policy_id) {
            Ok(_) => {},
            Err(e) => {
                return Err(e);
            },
        }
        Ok(run_policy(&self.executor, bundle, req.policy_id, &req.facts))
    }
}

} // verus!
