use crisp::crisp;
use crisp::error::{CrispError, LowerError};
use crisp::lower::{parse_typed_identifier, transpile_node, transpile_parameter, transpile_to_rust};
use crisp::tree::{Node, Rule};
use proc_macro2::TokenStream;

/// The tokens of host source text, printed.
fn host(text: &str) -> String {
    text.parse::<TokenStream>().unwrap().to_string()
}

/// The host code that a source text is turned into, printed.
fn code(source: &str) -> String {
    crisp(source).unwrap().to_string()
}

fn number(text: &str) -> Node {
    Node::leaf(Rule::Number, text)
}

fn symbol(text: &str) -> Node {
    Node::leaf(Rule::Symbol, text)
}

fn typed(name: &str, ty: &str) -> Node {
    Node::branch(
        Rule::SymbolType,
        "",
        vec![symbol(name), Node::leaf(Rule::TypeName, ty)],
    )
}

#[test]
fn operator_form_folds_from_the_left() {
    assert_eq!(code("(+ 1 2 3)"), host("1 + 2 + 3"));
    assert_eq!(code("(- 1 2 3)"), host("1 - 2 - 3"));
    assert_eq!(code("(* 2 3)"), host("2 * 3"));
    assert_eq!(code("(/ 8 4 2)"), host("8 / 4 / 2"));
    assert_eq!(code("(- 10 1 2 3 4)"), host("10 - 1 - 2 - 3 - 4"));
}

#[test]
fn nested_operator_forms_stand_in_parentheses() {
    assert_eq!(code("(* 1 (- 2 3))"), host("1 * (2 - 3)"));
    assert_eq!(code("(* 2 (- 2 3))"), host("2 * (2 - 3)"));
    assert_eq!(code("(+ (* 2 3) (/ 8 4))"), host("(2 * 3) + (8 / 4)"));
    assert_eq!(code("(- 1 (- 2 (- 3 4)))"), host("1 - (2 - (3 - 4))"));
    assert_eq!(code("(+ 1 (= 2 3))"), host("1 + (2 == 3)"));
}

#[test]
fn other_operands_stand_as_they_are() {
    assert_eq!(code("(+ a 1 \"s\" true)"), host("a + 1 + \"s\" + true"));
    assert_eq!(code("(+ 1 [2 3])"), host("1 + { 2; 3 }"));
    assert_eq!(code("(+ 1 (if c 2 3))"), host("1 + if c { 2 } else { 3 }"));
    assert_eq!(code("(if (= 1 1) (+ 1 2) 0)"), host("if 1 == 1 { 1 + 2 } else { 0 }"));
}

#[test]
fn comparisons_become_host_comparisons() {
    assert_eq!(code("(= 1 1)"), host("1 == 1"));
    assert_eq!(code("(> a b)"), host("a > b"));
    assert_eq!(code("(< 3 10)"), host("3 < 10"));
}

#[test]
fn conditional_has_two_braced_branches() {
    assert_eq!(
        code("(if (= 1 1) true false)"),
        host("if 1 == 1 { true } else { false }")
    );
    assert_eq!(
        code("(if flag (+ 1 2) (- 3 4))"),
        host("if flag { 1 + 2 } else { 3 - 4 }")
    );
}

#[test]
fn block_keeps_source_order_and_ends_with_last_form() {
    assert_eq!(
        code("[(define x 1) (define y 2) (+ x y)]"),
        host("{ let x: Value = 1; let y: Value = 2; x + y }")
    );
    assert_eq!(code("[]"), host("{}"));
    assert_eq!(code("[a]"), host("{ a }"));
}

#[test]
fn block_separates_its_forms_as_statements() {
    assert_eq!(code("[1 2]"), host("{ 1; 2 }"));
    assert_eq!(code("[a b c]"), host("{ a; b; c }"));
    assert_eq!(code("[(+ 1 2) (f) x]"), host("{ 1 + 2; f; x }"));
    assert_eq!(
        code("[(f x) (define y 1) (if y 1 2) [a b] (fn [] 1) y]"),
        host(
            "{ f x; let y: Value = 1; if y { 1 } else { 2 }; { a; b }; \
             Value::Function(Arc::new(|args: &[Value]| { 1 })); y }"
        )
    );
    assert_eq!(
        code("[(define f [x] x) (define g Number 1) 2]"),
        host(
            "{ let f = Value::Function(Arc::new(|args: &[Value]| { \
             let x: Value = args[0usize].clone().into(); (x).into() })); \
             let g: f32 = 1; 2 }"
        )
    );
    assert_eq!(code("[(define x 1)]"), host("{ let x: Value = 1; }"));
}

#[test]
fn block_ends_at_the_end_of_input() {
    let block = Node::branch(
        Rule::List,
        "",
        vec![symbol("a"), symbol("b"), Node::leaf(Rule::EOI, ""), symbol("fn")],
    );
    assert_eq!(transpile_node(&block).unwrap().to_string(), host("{ a; b }"));
    let empty = Node::branch(Rule::List, "", vec![Node::leaf(Rule::EOI, ""), symbol("a")]);
    assert_eq!(transpile_node(&empty).unwrap().to_string(), host("{}"));
    let failing = Node::branch(Rule::List, "", vec![symbol("a"), symbol("fn"), number("x")]);
    assert_eq!(transpile_node(&failing).unwrap_err(), LowerError::InvalidSymbol);
    let failing_last = Node::branch(Rule::List, "", vec![symbol("a"), number("x")]);
    assert_eq!(transpile_node(&failing_last).unwrap_err(), LowerError::InvalidLiteral);
}

#[test]
fn untyped_binding_is_of_the_runtime_type() {
    assert_eq!(code("(define x 5)"), host("let x: Value = 5;"));
    assert_eq!(code("(define greeting \"hi\")"), host("let greeting: Value = \"hi\";"));
    assert_eq!(code("(define sum (+ 1 2))"), host("let sum: Value = 1 + 2;"));
}

#[test]
fn typed_binding_carries_its_type() {
    assert_eq!(code("(define x Number 5)"), host("let x: f32 = 5;"));
    assert_eq!(code("(define s String \"a\")"), host("let s: String = \"a\";"));
    assert_eq!(code("(define b Bool true)"), host("let b: bool = true;"));
    assert_eq!(code("(define l List items)"), host("let l: Vec<Value> = items;"));
    assert_eq!(
        code("(define f Function g)"),
        host("let f: Box<dyn Fn(&[Value]) -> Value> = g;")
    );
    assert_eq!(code("(define p Point q)"), host("let p: Point = q;"));
}

#[test]
fn anonymous_function_binds_arguments_by_position() {
    assert_eq!(
        code("(fn [x y] (+ x y))"),
        host(
            "Value::Function(Arc::new(|args: &[Value]| { \
             let x: Value = args[0usize].clone().into(); \
             let y: Value = args[1usize].clone().into(); \
             x + y }))"
        )
    );
    assert_eq!(
        code("(fn [] 1)"),
        host("Value::Function(Arc::new(|args: &[Value]| { 1 }))")
    );
    assert_eq!(code("(define [x y] (+ x y))"), code("(fn [x y] (+ x y))"));
}

#[test]
fn typed_anonymous_function_keeps_parameter_types() {
    assert_eq!(
        code("(fn [x Number s String] x)"),
        host(
            "Value::Function(Arc::new(|args: &[Value]| { \
             let x: f32 = args[0usize].clone().into(); \
             let s: String = args[1usize].clone().into(); \
             x }))"
        )
    );
}

#[test]
fn named_function_is_bound_and_coerces_its_body() {
    assert_eq!(
        code("(define f1 [x Number y Number] (+ x y))"),
        host(
            "let f1 = Value::Function(Arc::new(|args: &[Value]| { \
             let x: f32 = args[0usize].clone().into(); \
             let y: f32 = args[1usize].clone().into(); \
             (x + y).into() }));"
        )
    );
    assert_eq!(
        code("(define f2 [x Number y] (+ x y))"),
        host(
            "let f2 = Value::Function(Arc::new(|args: &[Value]| { \
             let x: f32 = args[0usize].clone().into(); \
             let y: Value = args[1usize].clone().into(); \
             (x + y).into() }));"
        )
    );
    assert_eq!(
        code("(define f3 [x y] (+ x y))"),
        host(
            "let f3 = Value::Function(Arc::new(|args: &[Value]| { \
             let x: Value = args[0usize].clone().into(); \
             let y: Value = args[1usize].clone().into(); \
             (x + y).into() }));"
        )
    );
}

#[test]
fn parameter_positions_count_in_decimal() {
    let out = code("(fn [a b c d e f g h i j k] k)");
    assert!(out.contains(&host("let j: Value = args[9usize].clone().into();")));
    assert!(out.contains(&host("let k: Value = args[10usize].clone().into();")));
}

#[test]
fn literals_are_spliced_verbatim() {
    assert_eq!(code("42"), host("42"));
    assert_eq!(code("1.5"), host("1.5"));
    assert_eq!(code("\"a b\""), host("\"a b\""));
    assert_eq!(code("\"quote \\\" inside\""), host("\"quote \\\" inside\""));
    assert_eq!(code("true"), host("true"));
    assert_eq!(code("false"), host("false"));
}

#[test]
fn symbol_is_emitted_as_identifier() {
    assert_eq!(code("total"), host("total"));
    assert_eq!(code("_x1"), host("_x1"));
}

#[test]
fn call_form_splices_its_children() {
    assert_eq!(code("(f a 1)"), host("f a 1"));
}

#[test]
fn top_level_forms_follow_each_other() {
    assert_eq!(
        code("(define x 1) (define y 2)"),
        host("let x: Value = 1; let y: Value = 2;")
    );
    assert_eq!(code(""), host(""));
}

#[test]
fn end_of_input_stops_a_sequence() {
    let nodes = vec![
        number("1"),
        Node::leaf(Rule::EOI, ""),
        Node::leaf(Rule::Symbol, "fn"),
    ];
    assert_eq!(transpile_to_rust(&nodes).unwrap().to_string(), host("1"));
    let only_end = vec![Node::leaf(Rule::EOI, "")];
    assert_eq!(transpile_to_rust(&only_end).unwrap().to_string(), host(""));
    assert_eq!(
        transpile_node(&Node::leaf(Rule::EOI, "")).unwrap().to_string(),
        host("")
    );
}

#[test]
fn lowering_twice_gives_the_same_tokens() {
    let nodes = crisp::parsing::CrispParser::parse(
        Rule::Program,
        "(define f [x Number] (if (> x 1) [(define y 2) (* x y)] 0))",
    )
    .unwrap();
    let first = transpile_to_rust(&nodes).unwrap().to_string();
    let second = transpile_to_rust(&nodes).unwrap().to_string();
    assert_eq!(first, second);
    let again = crisp::parsing::CrispParser::parse(
        Rule::Program,
        "(define f [x Number] (if (> x 1) [(define y 2) (* x y)] 0))",
    )
    .unwrap();
    assert_eq!(transpile_to_rust(&again).unwrap().to_string(), first);
}

#[test]
fn operator_form_with_one_operand_is_refused() {
    let one = Node::branch(
        Rule::OpVar,
        "(+ 1)",
        vec![Node::leaf(Rule::Add, "+"), number("1")],
    );
    assert_eq!(transpile_node(&one).unwrap_err(), LowerError::TooFewOperands);
    let none = Node::branch(Rule::OpVar, "(+)", vec![Node::leaf(Rule::Add, "+")]);
    assert_eq!(transpile_node(&none).unwrap_err(), LowerError::TooFewOperands);
    let empty = Node::branch(Rule::OpVar, "()", vec![]);
    assert_eq!(
        transpile_node(&empty).unwrap_err(),
        LowerError::MissingChild(Rule::OpVar)
    );
    let two = Node::branch(
        Rule::OpVar,
        "(+ 1 2)",
        vec![Node::leaf(Rule::Add, "+"), number("1"), number("2")],
    );
    assert_eq!(transpile_node(&two).unwrap().to_string(), host("1 + 2"));
}

#[test]
fn missing_children_are_refused() {
    let short_if = Node::branch(Rule::IfB, "", vec![symbol("a"), symbol("b")]);
    assert_eq!(
        transpile_node(&short_if).unwrap_err(),
        LowerError::MissingChild(Rule::IfB)
    );
    let short_def = Node::branch(Rule::Def, "", vec![symbol("a")]);
    assert_eq!(
        transpile_node(&short_def).unwrap_err(),
        LowerError::MissingChild(Rule::Def)
    );
    let short_tdef = Node::branch(Rule::TDef, "", vec![typed("a", "Number")]);
    assert_eq!(
        transpile_node(&short_tdef).unwrap_err(),
        LowerError::MissingChild(Rule::TDef)
    );
    let no_body = Node::branch(Rule::Fun, "", vec![]);
    assert_eq!(
        transpile_node(&no_body).unwrap_err(),
        LowerError::MissingChild(Rule::Fun)
    );
    let no_typed_body = Node::branch(Rule::TFun, "", vec![]);
    assert_eq!(
        transpile_node(&no_typed_body).unwrap_err(),
        LowerError::MissingChild(Rule::TFun)
    );
    let name_only = Node::branch(Rule::Defn, "", vec![symbol("f")]);
    assert_eq!(
        transpile_node(&name_only).unwrap_err(),
        LowerError::MissingChild(Rule::Defn)
    );
    let typed_name_only = Node::branch(Rule::TDefn, "", vec![symbol("f")]);
    assert_eq!(
        transpile_node(&typed_name_only).unwrap_err(),
        LowerError::MissingChild(Rule::TDefn)
    );
}

#[test]
fn extra_children_are_refused() {
    let long_if = Node::branch(
        Rule::IfB,
        "",
        vec![symbol("a"), symbol("b"), symbol("c"), symbol("d")],
    );
    assert_eq!(
        transpile_node(&long_if).unwrap_err(),
        LowerError::ExtraChild(Rule::IfB)
    );
    let long_def = Node::branch(Rule::Def, "", vec![symbol("a"), number("1"), number("2")]);
    assert_eq!(
        transpile_node(&long_def).unwrap_err(),
        LowerError::ExtraChild(Rule::Def)
    );
    let long_tdef = Node::branch(
        Rule::TDef,
        "",
        vec![typed("a", "Number"), number("1"), number("2")],
    );
    assert_eq!(
        transpile_node(&long_tdef).unwrap_err(),
        LowerError::ExtraChild(Rule::TDef)
    );
    let long_typed = Node::branch(
        Rule::SymbolType,
        "",
        vec![symbol("a"), Node::leaf(Rule::TypeName, "Number"), symbol("b")],
    );
    assert_eq!(
        parse_typed_identifier(&long_typed).unwrap_err(),
        LowerError::ExtraChild(Rule::SymbolType)
    );
    let exact_if = Node::branch(Rule::IfB, "", vec![symbol("a"), symbol("b"), symbol("c")]);
    assert_eq!(
        transpile_node(&exact_if).unwrap().to_string(),
        host("if a { b } else { c }")
    );
}

#[test]
fn host_keywords_are_no_symbols() {
    assert_eq!(
        crisp("(define let 5)").unwrap_err(),
        CrispError::Lower(LowerError::InvalidSymbol)
    );
    assert_eq!(
        crisp("(+ fn 1)").unwrap_err(),
        CrispError::Lower(LowerError::InvalidSymbol)
    );
    assert_eq!(
        transpile_node(&symbol("not a name")).unwrap_err(),
        LowerError::InvalidSymbol
    );
    assert_eq!(transpile_node(&symbol("")).unwrap_err(), LowerError::InvalidSymbol);
}

#[test]
fn unparsable_literal_is_refused() {
    assert_eq!(
        transpile_node(&number("12abc.")).unwrap_err(),
        LowerError::InvalidLiteral
    );
    assert_eq!(
        transpile_node(&Node::leaf(Rule::String, "\"open")).unwrap_err(),
        LowerError::InvalidLiteral
    );
    assert_eq!(
        transpile_node(&Node::leaf(Rule::Bool, "maybe")).unwrap_err(),
        LowerError::InvalidLiteral
    );
    assert_eq!(
        crisp("\"bad \\q escape\"").unwrap_err(),
        CrispError::Lower(LowerError::InvalidLiteral)
    );
}

#[test]
fn type_resolver_maps_the_fixed_names() {
    let show = |name: &str, ty: &str| parse_typed_identifier(&typed(name, ty)).unwrap().to_string();
    assert_eq!(show("a", "String"), host("a: String"));
    assert_eq!(show("a", "Number"), host("a: f32"));
    assert_eq!(show("a", "Bool"), host("a: bool"));
    assert_eq!(show("a", "List"), host("a: Vec<Value>"));
    assert_eq!(show("a", "Function"), host("a: Box<dyn Fn(&[Value]) -> Value>"));
    assert_eq!(show("a", "Point"), host("a: Point"));
    assert_eq!(show("a", "number"), host("a: number"));
}

#[test]
fn type_resolver_hands_every_other_host_type_through() {
    let show = |name: &str, ty: &str| parse_typed_identifier(&typed(name, ty)).unwrap().to_string();
    assert_eq!(show("a", "Self"), host("a: Self"));
    assert_eq!(show("a", "Vec<u8>"), host("a: Vec<u8>"));
    assert_eq!(show("a", "std::path::PathBuf"), host("a: std::path::PathBuf"));
    assert_eq!(code("(define x Self 5)"), host("let x: Self = 5;"));
    assert_eq!(code("(define x Point3 5)"), host("let x: Point3 = 5;"));
    assert_eq!(
        code("(fn [p Point] p)"),
        host("Value::Function(Arc::new(|args: &[Value]| { let p: Point = args[0usize].clone().into(); p }))")
    );
}

#[test]
fn type_resolver_refuses_malformed_nodes() {
    let nothing = Node::branch(Rule::SymbolType, "", vec![]);
    assert_eq!(
        parse_typed_identifier(&nothing).unwrap_err(),
        LowerError::MissingChild(Rule::SymbolType)
    );
    let no_type = Node::branch(Rule::SymbolType, "", vec![symbol("a")]);
    assert_eq!(
        parse_typed_identifier(&no_type).unwrap_err(),
        LowerError::MissingChild(Rule::SymbolType)
    );
    let bad_name_only = Node::branch(Rule::SymbolType, "", vec![symbol("fn")]);
    assert_eq!(
        parse_typed_identifier(&bad_name_only).unwrap_err(),
        LowerError::MissingChild(Rule::SymbolType)
    );
    assert_eq!(
        parse_typed_identifier(&typed("fn", "Number")).unwrap_err(),
        LowerError::InvalidSymbol
    );
    assert_eq!(
        parse_typed_identifier(&typed("a", "two words")).unwrap_err(),
        LowerError::InvalidType
    );
    assert_eq!(
        parse_typed_identifier(&typed("a", "")).unwrap_err(),
        LowerError::InvalidType
    );
    assert_eq!(
        parse_typed_identifier(&typed("fn", "two words")).unwrap_err(),
        LowerError::InvalidSymbol
    );
}

#[test]
fn parameter_is_a_name_or_a_typed_name() {
    assert_eq!(
        transpile_parameter(&symbol("x")).unwrap().to_string(),
        host("x: Value")
    );
    assert_eq!(
        transpile_parameter(&typed("x", "Bool")).unwrap().to_string(),
        host("x: bool")
    );
    assert_eq!(
        transpile_parameter(&number("1")).unwrap_err(),
        LowerError::InvalidParameter
    );
    let bad = Node::branch(Rule::Fun, "", vec![number("1"), symbol("x")]);
    assert_eq!(transpile_node(&bad).unwrap_err(), LowerError::InvalidParameter);
}

#[test]
fn first_error_in_source_order_wins() {
    let node = Node::branch(
        Rule::IfB,
        "",
        vec![number("x"), symbol("fn"), symbol("ok")],
    );
    assert_eq!(transpile_node(&node).unwrap_err(), LowerError::InvalidLiteral);
    let node = Node::branch(
        Rule::IfB,
        "",
        vec![symbol("ok"), symbol("fn"), number("x")],
    );
    assert_eq!(transpile_node(&node).unwrap_err(), LowerError::InvalidSymbol);
}

#[test]
fn operators_lower_to_host_operators() {
    let show = |rule: Rule| transpile_node(&Node::leaf(rule, "")).unwrap().to_string();
    assert_eq!(show(Rule::Add), host("+"));
    assert_eq!(show(Rule::Sub), host("-"));
    assert_eq!(show(Rule::Mul), host("*"));
    assert_eq!(show(Rule::Div), host("/"));
    assert_eq!(show(Rule::Eq), host("=="));
    assert_eq!(show(Rule::Gt), host(">"));
    assert_eq!(show(Rule::Lt), host("<"));
}
