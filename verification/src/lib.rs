//! Versioned rule templates, policies bound to them, and the pipeline that
//! compiles, bundles and evaluates them.
//!
//! A rule template holds when/then rules as source text. [`compiler`] checks
//! the source and expands it into an executable unit; [`bundler`] links the
//! units of all policies into one artifact with a dispatch table;
//! [`wasm_executor`] runs a policy of the artifact in a fresh engine context
//! under resource limits, and [`aggregate`] turns what the rules report into
//! one verdict. [`state`] coordinates the parts over a [`storage`] backend,
//! such as the one in [`memory`], and keeps the current artifact, which
//! [`rebuild`] builds from what is stored; [`requests`] holds the decisions
//! behind the requests, and [`history`] what stays true of the versions of
//! a name.
//!
//! The executable code is verified against the contracts it carries. What
//! is taken on trust is marked as such where it stands: the calls into
//! `serde_json` ([`json`]), `uuid` ([`ident`]), `lru` ([`cache`]),
//! `rquickjs` and `wasmtime` ([`engine`]), `chrono` and the clock
//! ([`clock`]), and two functions of the standard library ([`text`]).

pub mod aggregate;
pub mod bundler;
pub mod cache;
pub mod clock;
pub mod compiler;
pub mod couchbase;
pub mod engine;
pub mod error;
pub mod executor;
pub mod history;
pub mod ident;
pub mod json;
pub mod memory;
pub mod models;
pub mod rebuild;
pub mod requests;
pub mod state;
pub mod storage;
pub mod text;
pub mod wasm_executor;

pub use aggregate::{aggregate, RuleResult};
pub use bundler::{Bundler, LinkError};
pub use compiler::{CompilerError, RuleCompiler};
pub use couchbase::CouchbaseConfig;
pub use error::{ApiError, CoreError};
pub use executor::{ExecutorError, RuleExecutor};
pub use json::JsonValue;
pub use models::{
    CreatePolicyRequest, CreateRuleTemplateRequest, ExecutePolicyRequest, ExecutionResult,
    InputFacts, Policy, RuleTemplate, RuleTemplateVersionInfo, RuleTemplateVersionsResponse,
};
pub use state::AppState;
pub use memory::InMemoryStorage;
pub use storage::{PolicyStorage, RuleTemplateStorage, Storage, StorageError, StorageModel};
pub use wasm_executor::{WasmExecutor, WasmLimits};
