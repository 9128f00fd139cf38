//! The script engine: `rquickjs` runtimes and contexts, one pair per call,
//! with a memory ceiling and a watchdog that spends a fuel and time budget.

use vstd::prelude::*;
use crate::clock::elapsed_millis;

verus! {

/// What is left of a call's budget: fuel, spent one unit at each poll of
/// the engine, and the wall-clock ceiling in milliseconds.
#[derive(Debug, Clone, Copy)]
pub struct Budget {
    pub fuel: u64,
    pub timeout_ms: u64,
}

impl Budget {
    /// Whether a poll at `elapsed_ms` finds the budget used up: the time
    /// ceiling reached, or no fuel left to spend.
    pub open spec fn exhausted(self, elapsed_ms: u64) -> bool {
        elapsed_ms >= self.timeout_ms || self.fuel == 0
    }

    /// Spends one unit of fuel for a poll at `elapsed_ms` and tells whether
    /// the call must be stopped. Fuel never runs below zero.
    pub fn spend(&mut self, elapsed_ms: u64) -> (stop: bool)
        ensures
            stop == old(self).exhausted(elapsed_ms),
            final(self).timeout_ms == old(self).timeout_ms,
            final(self).fuel == if old(self).fuel == 0 {
                0
            } else {
                (old(self).fuel - 1) as u64
            },
    {
        let stop = elapsed_ms >= self.timeout_ms || self.fuel == 0;
        if self.fuel > 0 {
            self.fuel = self.fuel - 1;
        }
        stop
    }
}

/// An engine instance with its own heap.
#[verifier::external_type_specification]
#[verifier::external_body]
pub struct ExRuntime(rquickjs::Runtime);

/// An execution context inside an engine instance.
#[verifier::external_type_specification]
#[verifier::external_body]
pub struct ExContext(rquickjs::Context);

/// A `wasmtime` engine.
#[verifier::external_type_specification]
#[verifier::external_body]
pub struct ExEngine(wasmtime::Engine);

/// `rquickjs::Runtime::new`: a fresh engine instance, or the engine's
/// message where it cannot be had.
#[verifier::external_body]
pub(crate) fn open_runtime() -> (r: Result<rquickjs::Runtime, String>) {
    rquickjs::Runtime::new().map_err(|e| e.to_string())
}

/// `rquickjs::Runtime::set_memory_limit`: caps the instance's heap. The
/// engine takes a limit of zero for no limit.
#[verifier::external_body]
pub(crate) fn cap_memory(runtime: &rquickjs::Runtime, limit: usize) {
    runtime.set_memory_limit(limit)
}

/// `rquickjs::Runtime::set_interrupt_handler`: at each poll the engine
/// asks the budget, with the time elapsed since `start`, whether to stop.
#[verifier::external_body]
pub(crate) fn arm_watchdog(runtime: &rquickjs::Runtime, budget: Budget, start: std::time::Instant) {
    let mut budget = budget;
    runtime.set_interrupt_handler(Some(Box::new(move || budget.spend(elapsed_millis(&start)))))
}

/// `rquickjs::Context::full`: a fresh context with the standard intrinsics,
/// or the engine's message.
#[verifier::external_body]
pub(crate) fn open_context(runtime: &rquickjs::Runtime) -> (r: Result<rquickjs::Context, String>) {
    rquickjs::Context::full(runtime).map_err(|e| e.to_string())
}

/// `rquickjs::Ctx::eval` for its effects: runs a script in the context's
/// global scope. Nothing is claimed of the outcome.
#[verifier::external_body]
pub(crate) fn load_script(context: &rquickjs::Context, source: &str) -> (r: Result<(), String>) {
    context.with(|ctx| ctx.eval::<(), _>(source).map_err(|e| e.to_string()))
}

/// `rquickjs::Ctx::eval` for a string: evaluates an expression in the
/// context's global scope. Nothing is claimed of the outcome.
#[verifier::external_body]
pub(crate) fn call_script(context: &rquickjs::Context, call: &str) -> (r: Result<String, String>) {
    context.with(|ctx| ctx.eval::<String, _>(call).map_err(|e| e.to_string()))
}

/// `wasmtime::Engine::new` with fuel metering and epoch interruption
/// switched on, or the engine's message.
#[verifier::external_body]
pub(crate) fn metered_engine() -> (r: Result<wasmtime::Engine, String>) {
    wasmtime::Engine::new(wasmtime::Config::new().consume_fuel(true).epoch_interruption(true))
        .map_err(|e| e.to_string())
}

/// `wasmtime::Store::set_fuel` on a fresh store of the engine, or the
/// engine's message.
#[verifier::external_body]
pub(crate) fn fuel_store(engine: &wasmtime::Engine, fuel: u64) -> (r: Result<(), String>) {
    wasmtime::Store::new(engine, ()).set_fuel(fuel).map_err(|e| e.to_string())
}

} // verus!
