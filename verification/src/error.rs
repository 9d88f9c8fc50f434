//! Errors of the parser and of the runtime, and their model.
use vstd::prelude::*;

verus! {

/// Why a source text was not accepted.
#[derive(Debug, PartialEq)]
pub enum ParseError {
    /// The text could not be parsed; `text` says where.
    ParseFailure { text: String },
    /// Text was left over after the last statement.
    UnMatchContent { content: String },
}

#[derive(Debug, PartialEq)]
pub enum RuntimeError {
    IllegalOperatorForType { operator: String, value_type: String },
    ScopeNotFound,
    CompareDiffType { a: String, b: String },
    VariableNotFound { name: String },
    VariableAlreadyDefined { name: String },
    UsingReservedKeyword { keyword: String },
    FunctionNotFound { name: String },
    IllegalTypeInConditional { value_type: String },
    IllegalIndexType { index_type: String, value_type: String },
    IndexNotFound { index: String, value: String },
    IllegalArgumentsNumber { need: i64, provided: i64 },
    AnonymousFunctionInRoot,
    UnknownAttribute { attr: String, value: String },
    ModuleNotFound { module: String },
    ModulePartNotFound { part: String, module: String },
    DynamicParseFailed { err: String },
    UnknownPointer { pointer: u128 },
    CircularReference,
    UnsupportDataType { expect_type: String, receive_type: String },
    /// Integer division or remainder by zero.
    DivisionByZero,
    /// An integer result does not fit in 64 bits.
    NumberOverflow,
    /// The evaluation went deeper than the depth it was allowed.
    DepthLimitExceeded,
    /// The next variable id is the last one, or already holds a value.
    IdSpaceExhausted,
}

/// Either kind of failure.
#[derive(Debug, PartialEq)]
pub enum Error {
    Runtime(RuntimeError),
    Parse(ParseError),
}

/// The model of a parse error.
pub enum SpecParseError {
    ParseFailure { text: Seq<char> },
    UnMatchContent { content: Seq<char> },
}

/// The model of a runtime error: the same variants, with character sequences.
pub enum SpecRuntimeError {
    IllegalOperatorForType { operator: Seq<char>, value_type: Seq<char> },
    ScopeNotFound,
    CompareDiffType { a: Seq<char>, b: Seq<char> },
    VariableNotFound { name: Seq<char> },
    VariableAlreadyDefined { name: Seq<char> },
    UsingReservedKeyword { keyword: Seq<char> },
    FunctionNotFound { name: Seq<char> },
    IllegalTypeInConditional { value_type: Seq<char> },
    IllegalIndexType { index_type: Seq<char>, value_type: Seq<char> },
    IndexNotFound { index: Seq<char>, value: Seq<char> },
    IllegalArgumentsNumber { need: i64, provided: i64 },
    AnonymousFunctionInRoot,
    UnknownAttribute { attr: Seq<char>, value: Seq<char> },
    ModuleNotFound { module: Seq<char> },
    ModulePartNotFound { part: Seq<char>, module: Seq<char> },
    DynamicParseFailed { err: Seq<char> },
    UnknownPointer { pointer: u128 },
    CircularReference,
    UnsupportDataType { expect_type: Seq<char>, receive_type: Seq<char> },
    DivisionByZero,
    NumberOverflow,
    DepthLimitExceeded,
    IdSpaceExhausted,
}

impl View for ParseError {
    type V = SpecParseError;

    open spec fn view(&self) -> SpecParseError {
        match self {
            ParseError::ParseFailure { text } => SpecParseError::ParseFailure { text: text@ },
            ParseError::UnMatchContent { content } => SpecParseError::UnMatchContent {
                content: content@,
            },
        }
    }
}

impl View for RuntimeError {
    type V = SpecRuntimeError;

    open spec fn view(&self) -> SpecRuntimeError {
        match self {
            RuntimeError::IllegalOperatorForType { operator, value_type } => {
                SpecRuntimeError::IllegalOperatorForType {
                    operator: operator@,
                    value_type: value_type@,
                }
            },
            RuntimeError::ScopeNotFound => SpecRuntimeError::ScopeNotFound,
            RuntimeError::CompareDiffType { a, b } => SpecRuntimeError::CompareDiffType {
                a: a@,
                b: b@,
            },
            RuntimeError::VariableNotFound { name } => SpecRuntimeError::VariableNotFound {
                name: name@,
            },
            RuntimeError::VariableAlreadyDefined { name } => {
                SpecRuntimeError::VariableAlreadyDefined { name: name@ }
            },
            RuntimeError::UsingReservedKeyword { keyword } => {
                SpecRuntimeError::UsingReservedKeyword { keyword: keyword@ }
            },
            RuntimeError::FunctionNotFound { name } => SpecRuntimeError::FunctionNotFound {
                name: name@,
            },
            RuntimeError::IllegalTypeInConditional { value_type } => {
                SpecRuntimeError::IllegalTypeInConditional { value_type: value_type@ }
            },
            RuntimeError::IllegalIndexType { index_type, value_type } => {
                SpecRuntimeError::IllegalIndexType {
                    index_type: index_type@,
                    value_type: value_type@,
                }
            },
            RuntimeError::IndexNotFound { index, value } => SpecRuntimeError::IndexNotFound {
                index: index@,
                value: value@,
            },
            RuntimeError::IllegalArgumentsNumber { need, provided } => {
                SpecRuntimeError::IllegalArgumentsNumber { need: *need, provided: *provided }
            },
            RuntimeError::AnonymousFunctionInRoot => SpecRuntimeError::AnonymousFunctionInRoot,
            RuntimeError::UnknownAttribute { attr, value } => SpecRuntimeError::UnknownAttribute {
                attr: attr@,
                value: value@,
            },
            RuntimeError::ModuleNotFound { module } => SpecRuntimeError::ModuleNotFound {
                module: module@,
            },
            RuntimeError::ModulePartNotFound { part, module } => {
                SpecRuntimeError::ModulePartNotFound { part: part@, module: module@ }
            },
            RuntimeError::DynamicParseFailed { err } => SpecRuntimeError::DynamicParseFailed {
                err: err@,
            },
            RuntimeError::UnknownPointer { pointer } => SpecRuntimeError::UnknownPointer {
                pointer: *pointer,
            },
            RuntimeError::CircularReference => SpecRuntimeError::CircularReference,
            RuntimeError::UnsupportDataType { expect_type, receive_type } => {
                SpecRuntimeError::UnsupportDataType {
                    expect_type: expect_type@,
                    receive_type: receive_type@,
                }
            },
            RuntimeError::DivisionByZero => SpecRuntimeError::DivisionByZero,
            RuntimeError::NumberOverflow => SpecRuntimeError::NumberOverflow,
            RuntimeError::DepthLimitExceeded => SpecRuntimeError::DepthLimitExceeded,
            RuntimeError::IdSpaceExhausted => SpecRuntimeError::IdSpaceExhausted,
        }
    }
}

} // verus!
