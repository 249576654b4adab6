use crisp::emit::{
    emit_binding, emit_block, emit_chain, emit_coerced, emit_conditional, emit_function,
    emit_grouped, emit_operand, emit_operator, emit_parameter, emit_statement, emit_type,
    emit_typed, emit_untyped,
};
use crisp::error::LowerError;
use crisp::tree::Rule;
use proc_macro2::TokenStream;

fn tokens(text: &str) -> TokenStream {
    text.parse::<TokenStream>().unwrap()
}

fn host(text: &str) -> String {
    tokens(text).to_string()
}

#[test]
fn chain_of_two_puts_the_operator_between() {
    let out = emit_chain(&tokens("+"), &vec![tokens("a"), tokens("b")]).unwrap();
    assert_eq!(out.to_string(), host("a + b"));
}

#[test]
fn chain_of_many_keeps_source_order() {
    let operands = vec![tokens("a"), tokens("b c"), tokens("(d)"), tokens("e")];
    let out = emit_chain(&tokens("-"), &operands).unwrap();
    assert_eq!(out.to_string(), host("a - b c - (d) - e"));
}

#[test]
fn chain_with_a_longer_operator() {
    let out = emit_chain(&tokens("=="), &vec![tokens("1"), tokens("1")]).unwrap();
    assert_eq!(out.to_string(), host("1 == 1"));
}

#[test]
fn chain_of_fewer_than_two_is_refused() {
    assert_eq!(
        emit_chain(&tokens("+"), &vec![]).unwrap_err(),
        LowerError::TooFewOperands
    );
    assert_eq!(
        emit_chain(&tokens("+"), &vec![tokens("a")]).unwrap_err(),
        LowerError::TooFewOperands
    );
}

#[test]
fn operator_rules_have_host_operators() {
    assert_eq!(emit_operator(Rule::Add).unwrap().to_string(), host("+"));
    assert_eq!(emit_operator(Rule::Sub).unwrap().to_string(), host("-"));
    assert_eq!(emit_operator(Rule::Mul).unwrap().to_string(), host("*"));
    assert_eq!(emit_operator(Rule::Div).unwrap().to_string(), host("/"));
    assert_eq!(emit_operator(Rule::Eq).unwrap().to_string(), host("=="));
    assert_eq!(emit_operator(Rule::Gt).unwrap().to_string(), host(">"));
    assert_eq!(emit_operator(Rule::Lt).unwrap().to_string(), host("<"));
}

#[test]
fn other_rules_have_no_operator() {
    assert!(emit_operator(Rule::Symbol).is_none());
    assert!(emit_operator(Rule::OpVar).is_none());
    assert!(emit_operator(Rule::EOI).is_none());
    assert!(emit_operator(Rule::Program).is_none());
}

#[test]
fn conditional_shape() {
    let out = emit_conditional(tokens("a > b"), tokens("a"), tokens("b"));
    assert_eq!(out.to_string(), host("if a > b { a } else { b }"));
    let empty = emit_conditional(tokens("c"), tokens(""), tokens(""));
    assert_eq!(empty.to_string(), host("if c {} else {}"));
}

#[test]
fn block_shape() {
    assert_eq!(emit_block(tokens("a; b")).to_string(), host("{ a; b }"));
    assert_eq!(emit_block(tokens("")).to_string(), host("{}"));
}

#[test]
fn name_with_and_without_type() {
    assert_eq!(emit_untyped(tokens("x")).to_string(), host("x: Value"));
    assert_eq!(
        emit_typed(tokens("x"), &tokens("Vec<Value>")).to_string(),
        host("x: Vec<Value>")
    );
}

#[test]
fn binding_shape() {
    assert_eq!(
        emit_binding(&tokens("x: Value"), &tokens("1 + 2")).to_string(),
        host("let x: Value = 1 + 2;")
    );
    assert_eq!(
        emit_binding(&tokens("f"), &tokens("g")).to_string(),
        host("let f = g;")
    );
}

#[test]
fn parameter_is_bound_to_its_position() {
    assert_eq!(
        emit_parameter(&tokens("x: f32"), 0).to_string(),
        host("let x: f32 = args[0usize].clone().into();")
    );
    assert_eq!(
        emit_parameter(&tokens("y: Value"), 7).to_string(),
        host("let y: Value = args[7usize].clone().into();")
    );
    assert_eq!(
        emit_parameter(&tokens("z: Value"), 123).to_string(),
        host("let z: Value = args[123usize].clone().into();")
    );
}

#[test]
fn coerced_body_shape() {
    assert_eq!(emit_coerced(tokens("x + y")).to_string(), host("(x + y).into()"));
}

#[test]
fn function_shape() {
    assert_eq!(
        emit_function(tokens("x")).to_string(),
        host("Value::Function(Arc::new(|args: &[Value]| { x }))")
    );
}

#[test]
fn type_table() {
    assert_eq!(emit_type("String").unwrap().to_string(), host("String"));
    assert_eq!(emit_type("Number").unwrap().to_string(), host("f32"));
    assert_eq!(emit_type("Bool").unwrap().to_string(), host("bool"));
    assert_eq!(emit_type("List").unwrap().to_string(), host("Vec<Value>"));
    assert_eq!(
        emit_type("Function").unwrap().to_string(),
        host("Box<dyn Fn(&[Value]) -> Value>")
    );
}

#[test]
fn type_outside_the_table_is_handed_through() {
    assert_eq!(emit_type("Point").unwrap().to_string(), host("Point"));
    assert_eq!(emit_type("string").unwrap().to_string(), host("string"));
    assert_eq!(emit_type("Self").unwrap().to_string(), host("Self"));
    assert_eq!(emit_type("Vec<Point>").unwrap().to_string(), host("Vec<Point>"));
    assert_eq!(emit_type("&str").unwrap().to_string(), host("&str"));
}

#[test]
fn text_that_is_no_host_type_stands_for_nothing() {
    assert!(emit_type("two words").is_none());
    assert!(emit_type("").is_none());
    assert!(emit_type("1").is_none());
    assert!(emit_type("let").is_none());
}

#[test]
fn grouped_shape() {
    assert_eq!(emit_grouped(tokens("2 - 3")).to_string(), host("(2 - 3)"));
    assert_eq!(emit_grouped(tokens("")).to_string(), host("()"));
}

#[test]
fn operator_form_as_operand_is_grouped() {
    assert_eq!(
        emit_operand(Rule::OpVar, tokens("2 - 3")).to_string(),
        host("(2 - 3)")
    );
    assert_eq!(emit_operand(Rule::Number, tokens("2")).to_string(), host("2"));
    assert_eq!(emit_operand(Rule::Symbol, tokens("x")).to_string(), host("x"));
    assert_eq!(
        emit_operand(Rule::IfB, tokens("if a { b } else { c }")).to_string(),
        host("if a { b } else { c }")
    );
    assert_eq!(emit_operand(Rule::List, tokens("{ a }")).to_string(), host("{ a }"));
}

#[test]
fn statement_ends_in_one_semicolon() {
    assert_eq!(emit_statement(Rule::Number, tokens("1")).to_string(), host("1;"));
    assert_eq!(emit_statement(Rule::OpVar, tokens("1 + 2")).to_string(), host("1 + 2;"));
    assert_eq!(emit_statement(Rule::SExpr, tokens("f")).to_string(), host("f;"));
    assert_eq!(emit_statement(Rule::Fun, tokens("g")).to_string(), host("g;"));
    assert_eq!(
        emit_statement(Rule::Def, tokens("let x: Value = 1;")).to_string(),
        host("let x: Value = 1;")
    );
    assert_eq!(
        emit_statement(Rule::TDef, tokens("let x: f32 = 1;")).to_string(),
        host("let x: f32 = 1;")
    );
    assert_eq!(emit_statement(Rule::Defn, tokens("let f = g;")).to_string(), host("let f = g;"));
    assert_eq!(emit_statement(Rule::TDefn, tokens("let f = g;")).to_string(), host("let f = g;"));
}
