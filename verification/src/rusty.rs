//! The view of a runtime that a function bound from the host works
//! through: running code, variables, references and output.
use vstd::prelude::*;

use crate::ast::DioscriptAst;
use crate::error::{ParseError, RuntimeError};
use crate::interp::MAX_DEPTH;
use crate::host::{HostFunctions, NoHost};
use crate::runtime::{id_result, unit_result, var_result, Runtime};
use crate::semantics::{
    create_var, exec_isolate_scope, exec_scope, get_ref, get_var, parse_outcome, set_ref, set_var,
    SpecRuntime,
};
use crate::value::{result_view, value_text, Value};

verus! {

/// The ways a runtime reports what a script prints.
#[derive(Debug, Clone, Copy, PartialEq, Eq, Structural)]
pub enum OutputType {
    Print,
}

/// A runtime lent to a function that works on it.
pub struct RustyExecutor<'rt, H = NoHost> {
    pub runtime: &'rt mut Runtime<H>,
}

impl<'rt, H: HostFunctions> RustyExecutor<'rt, H> {
    /// An executor working on `runtime`.
    pub fn bind(runtime: &'rt mut Runtime<H>) -> (r: Self)
        ensures
            *r.runtime == *old(runtime),
            *final(r.runtime) == *final(runtime),
    {
        RustyExecutor { runtime }
    }

    /// Runs a text as a script in a new scope, a function scope when
    /// `isolate` holds; a text that does not parse is refused with its
    /// message.
    pub fn execute(&mut self, code: &str, isolate: bool) -> (r: Result<Value, RuntimeError>)
        ensures
            match parse_outcome(code@) {
                Err(msg) => r matches Err(RuntimeError::DynamicParseFailed { err }) && err@ == msg
                    && final(self).runtime@ == old(self).runtime@,
                Ok(stmts) => (final(self).runtime@, result_view(r)) == if isolate {
                    exec_isolate_scope(old(self).runtime@, stmts, MAX_DEPTH as nat)
                } else {
                    exec_scope(old(self).runtime@, stmts, MAX_DEPTH as nat)
                },
            },
            old(self).runtime.wf() ==> final(self).runtime.wf(),
    {
        match DioscriptAst::from_string(code) {
            Ok(ast) => if isolate {
                self.runtime.execute_isolate_scope(&ast.stats)
            } else {
                self.runtime.execute_scope(&ast.stats)
            },
            Err(ParseError::ParseFailure { text }) => Err(RuntimeError::DynamicParseFailed { err: text }),
            Err(ParseError::UnMatchContent { content }) => Err(
                RuntimeError::DynamicParseFailed { err: content },
            ),
        }
    }

    /// Assigns to the variable `name`, or creates it in the innermost scope
    /// when no variable of that name is visible.
    pub fn set_var(&mut self, name: &str, value: Value) -> (r: Result<u128, RuntimeError>)
        ensures
            (final(self).runtime@, id_result(r)) == if get_var(old(self).runtime@, name@) is Err {
                create_var(old(self).runtime@, name@, value@)
            } else {
                set_var(old(self).runtime@, name@, value@)
            },
            old(self).runtime.wf() ==> final(self).runtime.wf(),
    {
        if self.runtime.get_var(name).is_err() {
            self.runtime.create_var(name, value)
        } else {
            self.runtime.set_var(name, value)
        }
    }

    /// The id and the value of the variable `name`.
    pub fn get_var(&mut self, name: &str) -> (r: Result<(u128, Value), RuntimeError>)
        ensures
            var_result(r) == get_var(old(self).runtime@, name@),
            *final(self).runtime == *old(self).runtime,
    {
        self.runtime.get_var(name)
    }

    /// The value stored under an id.
    pub fn get_reference(&mut self, id: &u128) -> (r: Result<Value, RuntimeError>)
        ensures
            result_view(r) == get_ref(old(self).runtime@, *id),
            *final(self).runtime == *old(self).runtime,
    {
        self.runtime.get_ref_value(*id)
    }

    /// Replaces the value stored under an id.
    pub fn set_reference(&mut self, id: &u128, value: Value) -> (r: Result<(), RuntimeError>)
        ensures
            (final(self).runtime@, unit_result(r)) == set_ref(old(self).runtime@, *id, value@),
            old(self).runtime.wf() ==> final(self).runtime.wf(),
    {
        self.runtime.set_ref_value(*id, value)
    }

    /// Sends a value to the output, as `print` writes it.
    pub fn output(&mut self, output_type: OutputType, content: Value)
        ensures
            final(self).runtime@ == (SpecRuntime {
                output: old(self).runtime@.output.push(value_text(content@)),
                ..old(self).runtime@
            }),
            old(self).runtime.wf() ==> final(self).runtime.wf(),
    {
        match output_type {
            OutputType::Print => {
                let t = content.to_string();
                self.runtime.output.push(t);
                assert(self.runtime@.output =~= old(self).runtime@.output.push(value_text(content@)));
            },
        }
    }
}

} // verus!
