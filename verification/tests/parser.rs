use crisp::crisp;
use crisp::error::{CrispError, ParseError};
use crisp::parsing::CrispParser;
use crisp::tree::{Node, Rule};

/// A tree as text: the rule, and the children in brackets or else the source
/// text in parentheses.
fn show(node: &Node) -> String {
    if node.children.is_empty() {
        format!("{:?}({})", node.rule, node.text)
    } else {
        let children: Vec<String> = node.children.iter().map(show).collect();
        format!("{:?}[{}]", node.rule, children.join(" "))
    }
}

fn program(source: &str) -> String {
    let nodes = CrispParser::parse(Rule::Program, source).unwrap();
    assert_eq!(nodes.len(), 1);
    show(&nodes[0])
}

fn failure(source: &str) -> ParseError {
    CrispParser::parse(Rule::Program, source).unwrap_err()
}

#[test]
fn empty_text_is_an_empty_program() {
    assert_eq!(program(""), "Program[EOI()]");
    assert_eq!(program("  \n\t "), "Program[EOI()]");
}

#[test]
fn program_text_is_the_whole_source() {
    let nodes = CrispParser::parse(Rule::Program, " (+ 1 2) ").unwrap();
    assert_eq!(nodes[0].text, " (+ 1 2) ");
    assert_eq!(nodes[0].children[0].text, "(+ 1 2)");
    assert_eq!(nodes[0].children[0].children[1].text, "1");
    assert_eq!(nodes[0].children[1].rule, Rule::EOI);
    assert_eq!(nodes[0].children[1].text, "");
}

#[test]
fn operator_form_holds_operator_and_operands() {
    assert_eq!(
        program("(+ 1 2 3)"),
        "Program[OpVar[Add(+) Number(1) Number(2) Number(3)] EOI()]"
    );
    assert_eq!(
        program("(* 1 (- 2 3))"),
        "Program[OpVar[Mul(*) Number(1) OpVar[Sub(-) Number(2) Number(3)]] EOI()]"
    );
    assert_eq!(program("(/ 4 2)"), "Program[OpVar[Div(/) Number(4) Number(2)] EOI()]");
    assert_eq!(program("(= a b)"), "Program[OpVar[Eq(=) Symbol(a) Symbol(b)] EOI()]");
    assert_eq!(program("(> a b)"), "Program[OpVar[Gt(>) Symbol(a) Symbol(b)] EOI()]");
    assert_eq!(program("(< a b)"), "Program[OpVar[Lt(<) Symbol(a) Symbol(b)] EOI()]");
}

#[test]
fn conditional_holds_three_forms() {
    assert_eq!(
        program("(if (= 1 1) true false)"),
        "Program[IfB[OpVar[Eq(=) Number(1) Number(1)] Bool(true) Bool(false)] EOI()]"
    );
}

#[test]
fn conditional_with_other_than_three_forms_is_a_call() {
    assert_eq!(
        program("(if a b)"),
        "Program[SExpr[Symbol(if) Symbol(a) Symbol(b)] EOI()]"
    );
    assert_eq!(
        program("(if a b c d)"),
        "Program[SExpr[Symbol(if) Symbol(a) Symbol(b) Symbol(c) Symbol(d)] EOI()]"
    );
}

#[test]
fn bindings_are_typed_or_untyped() {
    assert_eq!(program("(define x 5)"), "Program[Def[Symbol(x) Number(5)] EOI()]");
    assert_eq!(
        program("(define x Number 5)"),
        "Program[TDef[SymbolType[Symbol(x) TypeName(Number)] Number(5)] EOI()]"
    );
    assert_eq!(
        program("(define x Other)"),
        "Program[Def[Symbol(x) Symbol(Other)] EOI()]"
    );
    assert_eq!(
        program("(define x [a b])"),
        "Program[Def[Symbol(x) List[Symbol(a) Symbol(b)]] EOI()]"
    );
}

#[test]
fn functions_are_named_or_anonymous_typed_or_untyped() {
    assert_eq!(
        program("(fn [x y] (+ x y))"),
        "Program[Fun[Symbol(x) Symbol(y) OpVar[Add(+) Symbol(x) Symbol(y)]] EOI()]"
    );
    assert_eq!(
        program("(define [x y] (+ x y))"),
        "Program[Fun[Symbol(x) Symbol(y) OpVar[Add(+) Symbol(x) Symbol(y)]] EOI()]"
    );
    assert_eq!(
        program("(fn [x Number] x)"),
        "Program[TFun[SymbolType[Symbol(x) TypeName(Number)] Symbol(x)] EOI()]"
    );
    assert_eq!(program("(fn [] 1)"), "Program[Fun[Number(1)] EOI()]");
    assert_eq!(
        program("(define f1 [x Number y Number] (+ x y))"),
        "Program[TDefn[Symbol(f1) SymbolType[Symbol(x) TypeName(Number)] \
         SymbolType[Symbol(y) TypeName(Number)] OpVar[Add(+) Symbol(x) Symbol(y)]] EOI()]"
    );
    assert_eq!(
        program("(define f2 [x Number y] (+ x y))"),
        "Program[Defn[Symbol(f2) SymbolType[Symbol(x) TypeName(Number)] Symbol(y) \
         OpVar[Add(+) Symbol(x) Symbol(y)]] EOI()]"
    );
    assert_eq!(
        program("(define f3 [x y] (+ x y))"),
        "Program[Defn[Symbol(f3) Symbol(x) Symbol(y) OpVar[Add(+) Symbol(x) Symbol(y)]] EOI()]"
    );
    assert_eq!(
        program("(define f [] 1)"),
        "Program[Defn[Symbol(f) Number(1)] EOI()]"
    );
}

#[test]
fn call_and_list_hold_any_number_of_forms() {
    assert_eq!(program("(f)"), "Program[SExpr[Symbol(f)] EOI()]");
    assert_eq!(
        program("(f 1 \"two\" three)"),
        "Program[SExpr[Symbol(f) Number(1) String(\"two\") Symbol(three)] EOI()]"
    );
    assert_eq!(program("[]"), "Program[List([]) EOI()]");
    assert_eq!(
        program("[1 [2 3]]"),
        "Program[List[Number(1) List[Number(2) Number(3)]] EOI()]"
    );
}

#[test]
fn atoms_are_tried_in_order() {
    assert_eq!(program("12"), "Program[Number(12) EOI()]");
    assert_eq!(program("1.25"), "Program[Number(1.25) EOI()]");
    assert_eq!(program("true"), "Program[Bool(true) EOI()]");
    assert_eq!(program("false"), "Program[Bool(false) EOI()]");
    assert_eq!(program("truth"), "Program[Symbol(truth) EOI()]");
    assert_eq!(program("iffy"), "Program[Symbol(iffy) EOI()]");
    assert_eq!(program("\"a (b) ; c\""), "Program[String(\"a (b) ; c\") EOI()]");
    assert_eq!(program("\"a\\\"b\""), "Program[String(\"a\\\"b\") EOI()]");
    assert_eq!(program("\"\u{e9}t\u{e9}\""), "Program[String(\"\u{e9}t\u{e9}\") EOI()]");
    assert_eq!(program("x1 _y"), "Program[Symbol(x1) Symbol(_y) EOI()]");
}

#[test]
fn keywords_end_where_a_name_ends() {
    assert_eq!(
        program("(definex 5)"),
        "Program[SExpr[Symbol(definex) Number(5)] EOI()]"
    );
    assert_eq!(
        program("(fnx [a] b)"),
        "Program[SExpr[Symbol(fnx) List[Symbol(a)] Symbol(b)] EOI()]"
    );
}

#[test]
fn blank_space_and_comments_stand_between_tokens() {
    assert_eq!(
        program("( +\t1\n2 ; the rest of the line (is skipped\r\n 3 )"),
        "Program[OpVar[Add(+) Number(1) Number(2) Number(3)] EOI()]"
    );
    assert_eq!(program("; only a comment"), "Program[EOI()]");
    assert_eq!(program("a ; trailing"), "Program[Symbol(a) EOI()]");
    assert_eq!(
        program("(define f[x Number]x)"),
        "Program[TDefn[Symbol(f) SymbolType[Symbol(x) TypeName(Number)] Symbol(x)] EOI()]"
    );
}

#[test]
fn text_behind_the_last_form_is_refused() {
    assert_eq!(
        failure("(+ 1 2) )"),
        ParseError { rule: Rule::EOI, position: 8 }
    );
    assert_eq!(failure("(+ 1 2"), ParseError { rule: Rule::EOI, position: 0 });
    assert_eq!(failure("   (+ 1)"), ParseError { rule: Rule::EOI, position: 3 });
    assert_eq!(failure("()"), ParseError { rule: Rule::EOI, position: 0 });
    assert_eq!(failure("a b ]"), ParseError { rule: Rule::EOI, position: 4 });
    assert_eq!(failure("\"open"), ParseError { rule: Rule::EOI, position: 0 });
    assert_eq!(failure("1 + 2"), ParseError { rule: Rule::EOI, position: 2 });
    assert_eq!(
        crisp("(+ 1 2) )").unwrap_err(),
        CrispError::Parse(ParseError { rule: Rule::EOI, position: 8 })
    );
}

#[test]
fn position_counts_characters() {
    assert_eq!(
        failure("\"\u{e9}\u{e9}\" )"),
        ParseError { rule: Rule::EOI, position: 5 }
    );
}

#[test]
fn operator_form_needs_two_operands_to_parse() {
    assert_eq!(failure("(+ 1)"), ParseError { rule: Rule::EOI, position: 0 });
    assert_eq!(failure("(+)"), ParseError { rule: Rule::EOI, position: 0 });
}

#[test]
fn any_rule_can_be_the_entry() {
    let one = |rule: Rule, source: &str| {
        let nodes = CrispParser::parse(rule, source).unwrap();
        assert_eq!(nodes.len(), 1);
        show(&nodes[0])
    };
    assert_eq!(one(Rule::Symbol, "abc def"), "Symbol(abc)");
    assert_eq!(one(Rule::TypeName, "Abc"), "TypeName(Abc)");
    assert_eq!(one(Rule::Number, "12.5x"), "Number(12.5)");
    assert_eq!(one(Rule::Number, "12.x"), "Number(12)");
    assert_eq!(one(Rule::String, "\"s\" rest"), "String(\"s\")");
    assert_eq!(one(Rule::Bool, "true)"), "Bool(true)");
    assert_eq!(
        one(Rule::SymbolType, "x  Number"),
        "SymbolType[Symbol(x) TypeName(Number)]"
    );
    assert_eq!(one(Rule::Add, "+"), "Add(+)");
    assert_eq!(one(Rule::Lt, "<="), "Lt(<)");
    assert_eq!(one(Rule::EOI, ""), "EOI()");
    assert_eq!(one(Rule::IfB, "(if a b c) rest"), "IfB[Symbol(a) Symbol(b) Symbol(c)]");
    assert_eq!(one(Rule::List, "[a]"), "List[Symbol(a)]");
    assert_eq!(one(Rule::SExpr, "(define x 1)"), "SExpr[Symbol(define) Symbol(x) Number(1)]");
}

#[test]
fn entry_rule_that_does_not_match_is_reported_at_the_start() {
    let fail = |rule: Rule, source: &str| CrispParser::parse(rule, source).unwrap_err();
    assert_eq!(fail(Rule::Symbol, "1a"), ParseError { rule: Rule::Symbol, position: 0 });
    assert_eq!(fail(Rule::TypeName, "abc"), ParseError { rule: Rule::TypeName, position: 0 });
    assert_eq!(fail(Rule::Number, ".5"), ParseError { rule: Rule::Number, position: 0 });
    assert_eq!(fail(Rule::String, "\"open"), ParseError { rule: Rule::String, position: 0 });
    assert_eq!(fail(Rule::Bool, "truely"), ParseError { rule: Rule::Bool, position: 0 });
    assert_eq!(fail(Rule::Add, "-"), ParseError { rule: Rule::Add, position: 0 });
    assert_eq!(fail(Rule::EOI, "x"), ParseError { rule: Rule::EOI, position: 0 });
    assert_eq!(fail(Rule::IfB, " (if a b c)"), ParseError { rule: Rule::IfB, position: 0 });
    assert_eq!(fail(Rule::OpVar, "(+ 1)"), ParseError { rule: Rule::OpVar, position: 0 });
    assert_eq!(fail(Rule::TDefn, "(define f [x] x)"), ParseError { rule: Rule::TDefn, position: 0 });
    assert_eq!(fail(Rule::SymbolType, "x y"), ParseError { rule: Rule::SymbolType, position: 0 });
}

#[test]
fn deep_nesting_parses() {
    let mut source = String::new();
    for _ in 0..40 {
        source.push_str("(+ 1 ");
    }
    source.push('2');
    for _ in 0..40 {
        source.push(')');
    }
    let nodes = CrispParser::parse(Rule::Program, &source).unwrap();
    assert_eq!(nodes[0].children.len(), 2);
}

#[test]
fn long_programs_parse() {
    let mut source = String::new();
    for i in 0..2000 {
        source.push_str(&format!("(define v{} (+ {} 1 2)) ; number {}\n", i, i, i));
    }
    let nodes = CrispParser::parse(Rule::Program, &source).unwrap();
    assert_eq!(nodes[0].children.len(), 2001);
    assert_eq!(nodes[0].children[1999].children[0].text, "v1999");
    let out = crisp(&source).unwrap().to_string();
    assert!(out.ends_with(&"let v1999: Value = 1999 + 1 + 2;".parse::<proc_macro2::TokenStream>().unwrap().to_string()));
}
