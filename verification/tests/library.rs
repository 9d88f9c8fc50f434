use dioscript::ast::{CalculateMark, DioscriptAst, FunctionName};
use dioscript::error::{ParseError, RuntimeError};
use dioscript::executor::Executor;
use dioscript::library::{auto_use, iterable_to_str, std_module, std_string_module};
use dioscript::runtime::DataType;
use dioscript::rusty::{OutputType, RustyExecutor};
use dioscript::shell::{repl_step, ReplAction, ReplState};
use dioscript::host::HtmlHost;
use dioscript::module::ModuleGenerator;
use dioscript::targets::MethodBinder;
use dioscript::targets::{BindTarget, BuildTarget};
use dioscript::value::{ElementContentType, Value};

fn run(code: &str) -> Result<Value, RuntimeError> {
    let ast = DioscriptAst::from_string(code).expect("Parse should succeed");
    let mut executor = Executor::init();
    executor.execute(ast)
}

fn run_with_std(code: &str) -> Result<Value, RuntimeError> {
    let ast = DioscriptAst::from_string(code).expect("Parse should succeed");
    let mut executor = Executor::init();
    executor.runtime.bind_module("std", std_module());
    executor.runtime.bind_module("string", std_string_module());
    executor.execute(ast)
}

fn s(text: &str) -> Value {
    Value::String(text.to_string())
}

// Store laws on concrete values.

#[test]
fn store_get_after_create() {
    let mut ex = Executor::init();
    let id = ex.runtime.create_var("a", Value::Number(7)).unwrap();
    assert_eq!(ex.runtime.get_var("a"), Ok((id, Value::Number(7))));
}

#[test]
fn store_create_uses_fresh_ids() {
    let mut ex = Executor::init();
    let a = ex.runtime.create_var("a", Value::Number(1)).unwrap();
    let b = ex.runtime.create_var("b", Value::Number(2)).unwrap();
    assert_ne!(a, b);
    assert_eq!(b, a + 1);
    assert_eq!(ex.runtime.get_ref_value(a), Ok(Value::Number(1)));
}

#[test]
fn store_create_twice_refused() {
    let mut ex = Executor::init();
    ex.runtime.create_var("a", Value::Number(1)).unwrap();
    assert_eq!(
        ex.runtime.create_var("a", Value::Number(2)),
        Err(RuntimeError::VariableAlreadyDefined { name: "a".to_string() })
    );
    assert_eq!(
        ex.runtime.create_var("let", Value::Number(2)),
        Err(RuntimeError::UsingReservedKeyword { keyword: "let".to_string() })
    );
}

#[test]
fn store_get_after_set() {
    let mut ex = Executor::init();
    let id = ex.runtime.create_var("a", Value::Number(1)).unwrap();
    assert_eq!(ex.runtime.set_var("a", s("x")), Ok(id));
    assert_eq!(ex.runtime.get_var("a"), Ok((id, s("x"))));
}

#[test]
fn store_get_ref_after_set_ref() {
    let mut ex = Executor::init();
    let id = ex.runtime.create_data(Value::Boolean(false)).unwrap();
    assert_eq!(ex.runtime.set_ref_value(id, Value::Boolean(true)), Ok(()));
    assert_eq!(ex.runtime.get_ref_value(id), Ok(Value::Boolean(true)));
    assert_eq!(
        ex.runtime.get_ref_value(id + 1000),
        Err(RuntimeError::UnknownPointer { pointer: id + 1000 })
    );
}

#[test]
fn store_leave_undoes_enter() {
    let mut ex = Executor::init();
    let before = ex.runtime.scopes.len();
    ex.runtime.enter_scope(true);
    assert_eq!(ex.runtime.scopes.len(), before + 1);
    ex.runtime.leave_scope();
    assert_eq!(ex.runtime.scopes.len(), before);
}

#[test]
fn store_inner_scope_hides_nothing_after_leave() {
    let mut ex = Executor::init();
    ex.runtime.enter_scope(false);
    ex.runtime.create_var("inner", Value::Number(3)).unwrap();
    ex.runtime.leave_scope();
    assert_eq!(
        ex.runtime.get_var("inner"),
        Err(RuntimeError::VariableNotFound { name: "inner".to_string() })
    );
}

#[test]
fn function_scope_stops_lookup() {
    let mut ex = Executor::init();
    ex.runtime.create_var("outer", Value::Number(3)).unwrap();
    ex.runtime.enter_scope(true);
    assert!(ex.runtime.get_var("outer").is_err());
    ex.runtime.leave_scope();
    assert!(ex.runtime.get_var("outer").is_ok());
}

#[test]
fn reference_follows_to_value() {
    let mut ex = Executor::init();
    let a = ex.runtime.create_var("a", Value::Number(1)).unwrap();
    let b = ex.runtime.create_var("b", Value::Reference(a)).unwrap();
    assert_eq!(ex.runtime.follow_ref(b), Ok(a));
    assert_eq!(ex.runtime.set_var("b", Value::Number(5)), Ok(a));
    assert_eq!(ex.runtime.get_var("a"), Ok((a, Value::Number(5))));
    assert_eq!(ex.runtime.get_var("b"), Ok((b, Value::Reference(a))));
}

// Scripts.

#[test]
fn block_variables_do_not_leak() {
    assert_eq!(
        run("if true { let inner = 1; } return inner;"),
        Err(RuntimeError::VariableNotFound { name: "inner".to_string() })
    );
}

#[test]
fn assignment_reaches_outer_scope() {
    assert_eq!(run("let x = 1; if true { x = 2; } return x;"), Ok(Value::Number(2)));
}

#[test]
fn truncating_division_and_remainder() {
    assert_eq!(run("return -7 / 2;"), Ok(Value::Number(-3)));
    assert_eq!(run("return -7 % 2;"), Ok(Value::Number(-1)));
}

#[test]
fn error_division_by_zero() {
    assert_eq!(run("return 1 / 0;"), Err(RuntimeError::DivisionByZero));
    assert_eq!(run("return 1 % 0;"), Err(RuntimeError::DivisionByZero));
}

#[test]
fn error_number_overflow() {
    assert_eq!(
        run("return 9223372036854775807 + 1;"),
        Err(RuntimeError::NumberOverflow)
    );
}

#[test]
fn error_function_not_found() {
    assert_eq!(
        run("return nothing(1);"),
        Err(RuntimeError::FunctionNotFound { name: "nothing".to_string() })
    );
}

#[test]
fn error_arguments_number() {
    assert_eq!(
        run("fn f(a) { return a; } return f(1, 2);"),
        Err(RuntimeError::IllegalArgumentsNumber { need: 1, provided: 2 })
    );
    assert_eq!(
        run("return type();"),
        Err(RuntimeError::IllegalArgumentsNumber { need: 1, provided: 0 })
    );
}

#[test]
fn error_index() {
    assert_eq!(
        run("let arr = [1, 2, 3]; return arr[5];"),
        Err(RuntimeError::IndexNotFound { index: "number".to_string(), value: "list".to_string() })
    );
}

#[test]
fn error_variable_already_defined() {
    assert_eq!(
        run("let x = 1; let x = 2;"),
        Err(RuntimeError::VariableAlreadyDefined { name: "x".to_string() })
    );
}

#[test]
fn error_dynamic_parse() {
    match run(r#"return execute("let x = ;");"#) {
        Err(RuntimeError::DynamicParseFailed { err }) => {
            assert!(err.starts_with("Parse Error At Line 1: syntax error"));
        }
        other => panic!("Expected DynamicParseFailed, got {:?}", other),
    }
}

#[test]
fn execute_runs_text() {
    assert_eq!(run(r#"return execute("return 1 + 1;");"#), Ok(Value::Number(2)));
}

#[test]
fn range_and_for() {
    assert_eq!(
        run("let sum = 0; for i in range(1, 5) { sum = sum + i; } return sum;"),
        Ok(Value::Number(10))
    );
}

#[test]
fn closure_captures_variable() {
    assert_eq!(
        run("let x = 3; let f = fn () { return x * 2; }; return f();"),
        Ok(Value::Number(6))
    );
}

#[test]
fn print_goes_to_output() {
    let ast = DioscriptAst::from_string(r#"print("a", 1); println("b");"#).unwrap();
    let mut ex = Executor::init();
    ex.execute(ast).unwrap();
    let out = ex.runtime.take_output();
    assert_eq!(out.concat(), "a, 1b\n");
    assert!(ex.runtime.take_output().is_empty());
}

#[test]
fn std_string_lowercase_uppercase() {
    assert_eq!(run_with_std(r#"return std::string::lowercase("AbC");"#), Ok(s("abc")));
    assert_eq!(run_with_std(r#"return std::string::uppercase("AbC");"#), Ok(s("ABC")));
}

#[test]
fn std_string_split() {
    assert_eq!(
        run_with_std(r#"return std::string::split("a,b,,c", ",");"#),
        Ok(Value::List(vec![s("a"), s("b"), s(""), s("c")]))
    );
}

#[test]
fn std_string_len_repeat() {
    assert_eq!(run_with_std(r#"return std::string::len("héllo");"#), Ok(Value::Number(6)));
    assert_eq!(run_with_std(r#"return std::string::repeat("ab", 3);"#), Ok(s("ababab")));
    assert_eq!(run_with_std(r#"return std::string::is_empty("");"#), Ok(Value::Boolean(true)));
}

#[test]
fn std_number_functions() {
    assert_eq!(run_with_std("return std::number::abs(-4);"), Ok(Value::Number(4)));
    assert_eq!(run_with_std("return std::number::max(3, 9, 2);"), Ok(Value::Number(9)));
    assert_eq!(run_with_std("return std::number::min(3, 9, 2);"), Ok(Value::Number(2)));
}

#[test]
fn method_call_on_string() {
    assert_eq!(run_with_std(r#"let t = "ABC"; return t.lowercase();"#), Ok(s("abc")));
}

#[test]
fn element_to_html() {
    match run(r#"return div { class: "a", p { "x" } };"#) {
        Ok(Value::Element(el)) => {
            assert_eq!(el.to_html(), r#"<div class="a"><p>x</p></div>"#);
        }
        other => panic!("Expected Element, got {:?}", other),
    }
}

#[test]
fn element_content_from_loop() {
    match run(r#"return ul { for i in [1, 2] { return li { i }; } };"#) {
        Ok(Value::Element(el)) => {
            assert_eq!(el.content.len(), 2);
            match &el.content[1] {
                ElementContentType::Children(c) => assert_eq!(c.name, "li"),
                other => panic!("Expected Children, got {:?}", other),
            }
        }
        other => panic!("Expected Element, got {:?}", other),
    }
}

// Parser.

#[test]
fn parse_failure_message() {
    match DioscriptAst::from_string("let x = 1;\nlet y = ;") {
        Err(ParseError::ParseFailure { text }) => {
            assert_eq!(
                text,
                "Parse Error At Line 2: syntax error\n\n[1] | let x = 1;\n[2] | let y = ;\n      ^\n"
            );
        }
        other => panic!("Expected ParseFailure, got {:?}", other),
    }
}

#[test]
fn parse_whitespace_only_refused() {
    assert!(DioscriptAst::from_string("   ").is_err());
}

// Small helpers.

#[test]
fn calculate_mark_from_string() {
    assert_eq!(CalculateMark::from_string("+".to_string()), CalculateMark::Plus);
    assert_eq!(CalculateMark::from_string("<=".to_string()), CalculateMark::SmallOrEqual);
    assert_eq!(CalculateMark::from_string("?".to_string()), CalculateMark::NoOp);
}

#[test]
fn function_name_as_single() {
    let n = FunctionName::Namespace(vec!["std".to_string(), "print".to_string()]);
    assert_eq!(n.as_single(), "std::print");
    assert_eq!(FunctionName::Single("f".to_string()).as_single(), "f");
}

#[test]
fn iterable_to_str_joins_with_spaces() {
    assert_eq!(iterable_to_str(&vec![s("a"), Value::Number(2), Value::Boolean(true)]), "a, 2, true");
}

#[test]
fn auto_use_names() {
    assert_eq!(auto_use(), vec!["std::print", "std::println", "std::type", "std::execute"]);
}

#[test]
fn data_type_as_variable() {
    assert_eq!(DataType::Variable(Value::Number(3)).as_variable(), Some(Value::Number(3)));
}

#[test]
fn bind_target_names() {
    assert_eq!(BindTarget::Root.to_string(), "");
    assert_eq!(BindTarget::Dict.to_string(), "dict");
    assert_eq!(BindTarget::Struct("MyType".to_string()).to_string(), "mytype");
}

#[test]
fn build_target_from_name() {
    assert_eq!(BuildTarget::from_str("Static"), BuildTarget::Static);
    assert_eq!(BuildTarget::from_str("pdf"), BuildTarget::Unknown);
}

#[test]
fn number_text_reads_back() {
    for n in [0i64, 7, -42, i64::MAX, i64::MIN] {
        let text = Value::Number(n).to_string();
        assert_eq!(run(&format!("return {};", text)), Ok(Value::Number(n)));
    }
}

#[test]
fn scopes_balanced_after_success() {
    let ast = DioscriptAst::from_string(
        "let s = 0; for i in [1, 2] { if i > 1 { s = s + i; } } fn f(a) { return a; } f(1); while s < 5 { s = s + 1; }",
    )
    .unwrap();
    let mut ex = Executor::init();
    let before = ex.runtime.scopes.len();
    assert_eq!(ex.execute(ast), Ok(Value::Null));
    assert_eq!(ex.runtime.scopes.len(), before);
}

#[test]
fn rusty_executor_variables_and_output() {
    let mut ex = Executor::init();
    {
        let mut rt = RustyExecutor::bind(&mut ex.runtime);
        let id = rt.set_var("count", Value::Number(0)).unwrap();
        assert_eq!(rt.set_var("count", Value::Number(3)), Ok(id));
        assert_eq!(rt.get_var("count"), Ok((id, Value::Number(3))));
        assert_eq!(rt.get_reference(&id), Ok(Value::Number(3)));
        assert_eq!(rt.set_reference(&id, Value::Number(4)), Ok(()));
        rt.output(OutputType::Print, Value::Number(4));
        assert_eq!(rt.execute("return count + 1;", false), Ok(Value::Number(5)));
        assert!(rt.execute("return count;", true).is_err());
        match rt.execute("let = ;", false) {
            Err(RuntimeError::DynamicParseFailed { err }) => {
                assert!(err.starts_with("Parse Error At Line 1"))
            }
            other => panic!("Expected DynamicParseFailed, got {:?}", other),
        }
    }
    assert_eq!(ex.runtime.take_output(), vec!["4".to_string()]);
}

#[test]
fn std_string_split_edges() {
    assert_eq!(
        run_with_std(r#"return std::string::split("aaa", "aa");"#),
        Ok(Value::List(vec![s(""), s("a")]))
    );
    assert_eq!(
        run_with_std(r#"return std::string::split("abc", "");"#),
        Ok(Value::List(vec![s(""), s("a"), s("b"), s("c"), s("")]))
    );
}

#[test]
fn comment_trims_whitespace() {
    let ast = DioscriptAst::from_string("//\t note \u{a0}\nreturn 1;").unwrap();
    match &ast.stats[0] {
        dioscript::ast::DioAstStatement::LineComment(c) => assert_eq!(c, "note"),
        other => panic!("Expected LineComment, got {:?}", other),
    }
}

#[test]
fn number_plus_string_refused() {
    assert_eq!(
        run(r#"return 1 + "a";"#),
        Err(RuntimeError::CompareDiffType { a: "number".to_string(), b: "string".to_string() })
    );
}

#[test]
fn create_var_refuses_taken_id() {
    let mut ex = Executor::init();
    let a = ex.runtime.create_var("a", Value::Number(1)).unwrap();
    ex.runtime.next_id = a;
    assert_eq!(ex.runtime.create_var("b", Value::Number(2)), Err(RuntimeError::IdSpaceExhausted));
    assert_eq!(ex.runtime.get_var("a"), Ok((a, Value::Number(1))));
}

#[test]
fn shell_steps() {
    let (st, a) = repl_step(ReplState::new(), "  .help ".to_string());
    assert!(!st.multiline);
    assert!(matches!(a, ReplAction::Command(c) if c == ".help"));
    let (st, a) = repl_step(ReplState::new(), "if true {".to_string());
    assert!(st.multiline && matches!(a, ReplAction::Wait));
    let (st, a) = repl_step(st, "  return 1;".to_string());
    assert!(matches!(a, ReplAction::Wait));
    let (st, a) = repl_step(st, "}".to_string());
    assert!(matches!(a, ReplAction::Wait));
    let (st, a) = repl_step(st, "   ".to_string());
    assert!(!st.multiline && st.current.is_empty());
    match a {
        ReplAction::Run { code, record_first } => {
            assert!(record_first);
            assert_eq!(code, vec!["if true {", "  return 1;", "}"]);
        }
        _ => panic!("Expected Run"),
    }
    let (_, a) = repl_step(ReplState::new(), "print(1);".to_string());
    match a {
        ReplAction::Run { code, record_first } => {
            assert!(!record_first);
            assert_eq!(code, vec!["print(1);"]);
        }
        _ => panic!("Expected Run"),
    }
}

fn run_with_html(code: &str) -> Result<Value, RuntimeError> {
    let ast = DioscriptAst::from_string(code).expect("Parse should succeed");
    let mut executor = Executor::with_host(HtmlHost, 0);
    let mut module = ModuleGenerator::new();
    module.insert_host_function("to_html", 0, 1);
    executor.runtime.bind_module("html", module);
    executor.execute(ast)
}

#[test]
fn host_function_bound_into_module() {
    assert_eq!(
        run_with_html(
            r#"let e = div { class: "main", p { "Hello Dioscript" } }; return html::to_html(e);"#
        ),
        Ok(s(r#"<div class="main"><p>Hello Dioscript</p></div>"#))
    );
}

#[test]
fn host_function_arity_checked() {
    assert_eq!(
        run_with_html("return html::to_html(1, 2);"),
        Err(RuntimeError::IllegalArgumentsNumber { need: 1, provided: 2 })
    );
}

#[test]
fn no_host_finds_no_function() {
    let ast = DioscriptAst::from_string("return h::f();").unwrap();
    let mut ex = Executor::init();
    let mut module = ModuleGenerator::new();
    module.insert_host_function("f", 3, -1);
    ex.runtime.bind_module("h", module);
    assert_eq!(ex.execute(ast), Err(RuntimeError::FunctionNotFound { name: "3".to_string() }));
}

#[test]
fn method_binder_collects() {
    let mut b = MethodBinder::new(BindTarget::Struct("Page".to_string()));
    b.insert("render", (0, 1));
    b.insert("title", (1, 0));
    b.insert("render", (2, 1));
    let (t, entries) = b.collect();
    assert_eq!(t.to_string(), "page");
    assert_eq!(entries.len(), 2);
    assert_eq!(entries[0].0, "render");
    assert_eq!(entries[1].0, "title");
}

#[test]
fn executor_with_first_id() {
    let mut ex = Executor::with_first_id(100);
    assert_eq!(ex.runtime.create_var("a", Value::Number(1)), Ok(100));
}

#[test]
fn value_and_list_parsers() {
    let text: Vec<char> = "[1, x] rest".chars().collect();
    let (items, q) = dioscript::parser::list_e(&text, 0).expect("a list");
    assert_eq!(items.len(), 2);
    assert_eq!(q, 6);
    let text: Vec<char> = "true".chars().collect();
    assert_eq!(dioscript::parser::value_e(&text, 0), Some((dioscript::ast::AstValue::Boolean(true), 4)));
}

#[test]
fn ast_value_accessors() {
    let v = dioscript::ast::AstValue::String("hi".to_string());
    assert_eq!(v.as_string(), Some("hi".to_string()));
    assert_eq!(v.value_name(), "string");
    assert!(v.as_number().is_none());
    assert!(dioscript::ast::AstValue::Null.as_none());
}

#[test]
fn value_accessors() {
    let v = Value::List(vec![Value::Number(1)]);
    assert_eq!(v.as_list(), Some(vec![Value::Number(1)]));
    assert_eq!(v.as_number(), None);
    assert_eq!(Value::Reference(9).as_reference(), Some(9));
}
