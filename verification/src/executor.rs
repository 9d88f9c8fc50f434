//! The executor: a runtime with the built-in modules, ready to run scripts.
use std::collections::HashMap;

use vstd::prelude::*;

use crate::ast::DioscriptAst;
use crate::error::RuntimeError;
use crate::interp::MAX_DEPTH;
use crate::library::{built_in, built_in_entries};
use crate::host::{HostFunctions, NoHost};
use crate::runtime::{host_view, scope_view, Runtime, Scope};
use crate::semantics::{exec_block, HostModel, SpecRuntime, SpecScope};
use crate::value::{result_view, Value};

verus! {

broadcast use vstd::std_specs::hash::group_hash_axioms;

/// A runtime with no scope, no variable, no module and no output, with the
/// host functions `host`.
pub open spec fn empty_runtime(next_id: u128, host: HostModel) -> SpecRuntime {
    SpecRuntime {
        scopes: Seq::empty(),
        data: Map::empty(),
        next_id,
        modules: Seq::empty(),
        namespace_use: Seq::empty(),
        output: Seq::empty(),
        host,
    }
}

impl<H: HostFunctions> Runtime<H> {
    /// A runtime with nothing in it but the host functions `host`; its ids
    /// start at zero.
    pub fn with_host(host: H) -> (r: Self)
        ensures
            r@ == empty_runtime(0, host_view(host)),
            r.wf(),
    {
        let r = Runtime {
            scopes: Vec::new(),
            data: HashMap::new(),
            next_id: 0,
            modules: Vec::new(),
            namespace_use: Vec::new(),
            output: Vec::new(),
            host,
        };
        proof {
            assert(r@.scopes =~= Seq::<SpecScope>::empty());
            assert(r@.data =~= Map::<u128, crate::value::SpecValue>::empty());
            assert(r@.modules =~= Seq::<(Seq<char>, crate::semantics::SpecModuleItem)>::empty());
            assert(r@.namespace_use =~= Seq::<(Seq<char>, Seq<Seq<char>>)>::empty());
            assert(r@.output =~= Seq::<Seq<char>>::empty());
        }
        r
    }

    /// The text printed so far, which the output then no longer holds.
    pub fn take_output(&mut self) -> (r: Vec<String>)
        ensures
            r@.map_values(|s: String| s@) == old(self)@.output,
            final(self)@ == (SpecRuntime { output: Seq::empty(), ..old(self)@ }),
            old(self).wf() ==> final(self).wf(),
    {
        let mut r: Vec<String> = Vec::new();
        std::mem::swap(&mut r, &mut self.output);
        assert(r@.map_values(|s: String| s@) =~= old(self)@.output);
        assert(self@.output =~= Seq::<Seq<char>>::empty());
        r
    }
}

impl Default for Runtime<NoHost> {
    /// A runtime with nothing in it and no host functions; its ids start at
    /// zero.
    fn default() -> (r: Self)
        ensures
            r@ == empty_runtime(0, host_view(NoHost)),
            r.wf(),
    {
        Runtime::with_host(NoHost)
    }
}

/// A runtime with the built-in functions and modules, and one open scope.
pub struct Executor<H = NoHost> {
    pub runtime: Runtime<H>,
}

/// The state of a new executor whose ids start at `next_id`, with the host
/// functions `host`.
pub open spec fn initial_runtime(next_id: u128, host: HostModel) -> SpecRuntime {
    SpecRuntime {
        scopes: seq![SpecScope { isolate: false, vars: Seq::empty() }],
        data: Map::empty(),
        next_id,
        modules: built_in_entries(),
        namespace_use: Seq::empty(),
        output: Seq::empty(),
        host,
    }
}

impl Executor<NoHost> {
    /// A new executor without host functions; its variable ids start at
    /// zero.
    pub fn init() -> (r: Self)
        ensures
            r.runtime@ == initial_runtime(0, host_view(NoHost)),
            r.runtime.wf(),
    {
        Executor::with_host(NoHost, 0)
    }

    /// A new executor without host functions, whose variable ids start at
    /// `first_id` (a program may start them at a random point, as ids are
    /// only internal handles).
    pub fn with_first_id(first_id: u128) -> (r: Self)
        ensures
            r.runtime@ == initial_runtime(first_id, host_view(NoHost)),
            r.runtime.wf(),
    {
        Executor::with_host(NoHost, first_id)
    }
}

impl<H: HostFunctions> Executor<H> {
    /// A new executor with the host functions `host`, whose variable ids
    /// start at `first_id`.
    pub fn with_host(host: H, first_id: u128) -> (r: Self)
        ensures
            r.runtime@ == initial_runtime(first_id, host_view(host)),
            r.runtime.wf(),
    {
        let mut runtime = Runtime::with_host(host);
        runtime.next_id = first_id;
        let m = built_in();
        runtime.modules = m.0;
        runtime.enter_scope(false);
        proof {
            assert(runtime@.scopes =~= seq![SpecScope { isolate: false, vars: Seq::empty() }]);
        }
        Executor { runtime }
    }

    /// Runs a script in the executor's scope.
    pub fn execute(&mut self, ast: DioscriptAst) -> (r: Result<Value, RuntimeError>)
        ensures
            (final(self).runtime@, result_view(r)) == exec_block(
                old(self).runtime@,
                ast@,
                MAX_DEPTH as nat,
            ),
            old(self).runtime.wf() ==> final(self).runtime.wf(),
    {
        self.runtime.execute_scope_without_new_scope(&ast.stats)
    }

    /// A copy of the executor's scopes.
    pub fn debug_scopes_info(&self) -> (r: Vec<Scope>)
        ensures
            r@.len() == self.runtime.scopes@.len(),
            forall|i: int| 0 <= i < r@.len() ==> scope_view(#[trigger] r@[i]) == self.runtime@.scopes[i],
    {
        let mut out: Vec<Scope> = Vec::new();
        let mut i: usize = 0;
        while i < self.runtime.scopes.len()
            invariant
                i <= self.runtime.scopes@.len(),
                out@.len() == i,
                forall|k: int| 0 <= k < i ==> scope_view(#[trigger] out@[k]) == self.runtime@.scopes[k],
            decreases self.runtime.scopes@.len() - i,
        {
            let s = &self.runtime.scopes[i];
            let data = crate::value::copy_env(&s.data);
            out.push(Scope { isolate: s.isolate, data });
            i = i + 1;
        }
        out
    }
}

} // verus!
