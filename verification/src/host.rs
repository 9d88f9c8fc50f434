//! Functions of the host program that scripts can call.
use vstd::prelude::*;

use crate::error::{RuntimeError, SpecRuntimeError};
use crate::text::{int_numeral, push_numeral_u64};
use crate::ops::element_html;
use crate::value::{lemma_values_view, result_view, values_view, SpecValue, Value};

verus! {

/// The functions that the program embedding the runtime binds into it, for
/// scripts to call, each by a number of the program's choosing (a module
/// entry made with `ModuleGenerator::insert_host_function` names one, as
/// `html::to_html(e)` once bound into a module `html`).
///
/// An implementation states in `host_result` what each function returns for
/// each list of arguments, and `call` returns exactly that; the runtime's
/// contracts rest on this for every implementation, which its implementer
/// vouches for.
pub trait HostFunctions {
    /// What function `which` returns for its arguments.
    spec fn host_result(&self, which: usize, args: Seq<SpecValue>) -> Result<
        SpecValue,
        SpecRuntimeError,
    >;

    /// Calls function `which`.
    fn call(&self, which: usize, args: Vec<Value>) -> (r: Result<Value, RuntimeError>)
        ensures
            result_view(r) == self.host_result(which, values_view(args@)),
    ;
}

/// Host functions of an implementation that the verifier checks against
/// what it states, as a program embedding the runtime may write them.
/// Function 0, `to_html`, gives the HTML text of an element argument, and
/// `none` for any other argument; no other number names a function.
pub struct HtmlHost;

/// What `HtmlHost`'s functions return.
pub open spec fn html_host_result(which: usize, args: Seq<SpecValue>) -> Result<
    SpecValue,
    SpecRuntimeError,
> {
    if which == 0 {
        if args.len() > 0 && args[0] is Element {
            Ok(SpecValue::String(element_html(args[0]->Element_0)))
        } else {
            Ok(SpecValue::Null)
        }
    } else {
        Err(SpecRuntimeError::FunctionNotFound { name: int_numeral(which as int) })
    }
}

impl HostFunctions for HtmlHost {
    open spec fn host_result(&self, which: usize, args: Seq<SpecValue>) -> Result<
        SpecValue,
        SpecRuntimeError,
    > {
        html_host_result(which, args)
    }

    fn call(&self, which: usize, args: Vec<Value>) -> (r: Result<Value, RuntimeError>) {
        proof {
            lemma_values_view(args@);
        }
        if which == 0 {
            if args.len() > 0 {
                if let Value::Element(e) = &args[0] {
                    return Ok(Value::String(e.to_html()));
                }
            }
            Ok(Value::Null)
        } else {
            let mut name = String::new();
            push_numeral_u64(&mut name, which as u64);
            assert(name@ =~= int_numeral(which as int));
            Err(RuntimeError::FunctionNotFound { name })
        }
    }
}

/// No host functions: a call by any number finds no function.
pub struct NoHost;

impl HostFunctions for NoHost {
    open spec fn host_result(&self, which: usize, args: Seq<SpecValue>) -> Result<
        SpecValue,
        SpecRuntimeError,
    > {
        Err(SpecRuntimeError::FunctionNotFound { name: int_numeral(which as int) })
    }

    fn call(&self, which: usize, args: Vec<Value>) -> (r: Result<Value, RuntimeError>) {
        let mut name = String::new();
        push_numeral_u64(&mut name, which as u64);
        assert(name@ =~= int_numeral(which as int));
        Err(RuntimeError::FunctionNotFound { name })
    }
}

} // verus!
