//! The shape of parse trees: what the grammar promises of every tree that
//! the parser builds, and what the lowering pass gains from it.

use crate::crisp_outcome;
use crate::error::{CrispError, LowerError};
use crate::grammar::{
    atom, compound, form, forms, head, is_compound, left, parameter, parameter_list, parameters,
    parse_outcome, program, skip_blank, symbol_type,
};
use crate::lower::{
    lower_block, lower_from, lower_node, lower_operands, lower_parameters, lower_statements,
    sequence_end,
    typed_identifier,
};
use crate::tree::{Rule, Tree};
use vstd::prelude::*;

verus! {

/// The rules of forms: what can stand wherever the grammar asks for a form.
pub open spec fn is_form(rule: Rule) -> bool {
    is_compound(rule) || rule is String || rule is Number || rule is Bool || rule is Symbol
}

/// A parameter that is a name or a typed name; with `typed_only`, a typed
/// name.
pub open spec fn is_parameter(rule: Rule, typed_only: bool) -> bool {
    rule is SymbolType || (!typed_only && rule is Symbol)
}

/// Whether the children `from..until` are all parameters.
pub open spec fn parameters_between(node: Tree, from: int, until: int, typed_only: bool) -> bool {
    forall|i: int| from <= i < until ==> is_parameter(#[trigger] node.children[i].rule, typed_only)
}

/// Whether the children `from..until` are all forms.
pub open spec fn forms_between(node: Tree, from: int, until: int) -> bool {
    forall|i: int| from <= i < until ==> is_form(#[trigger] node.children[i].rule)
}

/// What a node's rule asks of the node's own children:
///
/// - a conditional holds exactly three forms;
/// - an operator form holds one operator, then at least two forms;
/// - a call holds one symbol, then any number of forms;
/// - a binding holds its name, typed or not, then one form;
/// - a function holds its name if it has one, then its parameters, all of
///   them typed and at least one where the rule says so, then one form;
/// - a typed name holds one symbol and one type name;
/// - a program holds forms, then the end of input;
/// - a list holds forms; and any other node holds nothing.
pub open spec fn shape_ok(node: Tree) -> bool {
    let n = node.children.len() as int;
    match node.rule {
        Rule::Program => n >= 1 && node.children[n - 1].rule is EOI && forms_between(
            node,
            0,
            n - 1,
        ),
        Rule::IfB => n == 3 && forms_between(node, 0, n),
        Rule::OpVar => n >= 3 && node.children[0].rule.is_operator() && forms_between(node, 1, n),
        Rule::SExpr => n >= 1 && node.children[0].rule is Symbol && forms_between(node, 1, n),
        Rule::List => forms_between(node, 0, n),
        Rule::Def => n == 2 && node.children[0].rule is Symbol && forms_between(node, 1, n),
        Rule::TDef => n == 2 && node.children[0].rule is SymbolType && forms_between(node, 1, n),
        Rule::Fun => n >= 1 && parameters_between(node, 0, n - 1, false) && forms_between(
            node,
            n - 1,
            n,
        ),
        Rule::TFun => n >= 2 && parameters_between(node, 0, n - 1, true) && forms_between(
            node,
            n - 1,
            n,
        ),
        Rule::Defn => n >= 2 && node.children[0].rule is Symbol && parameters_between(
            node,
            1,
            n - 1,
            false,
        ) && forms_between(node, n - 1, n),
        Rule::TDefn => n >= 3 && node.children[0].rule is Symbol && parameters_between(
            node,
            1,
            n - 1,
            true,
        ) && forms_between(node, n - 1, n),
        Rule::SymbolType => n == 2 && node.children[0].rule is Symbol && node.children[1].rule
            is TypeName,
        _ => n == 0,
    }
}

/// Whether a tree keeps the promises of the grammar at every node.
pub open spec fn well_formed(node: Tree) -> bool
    decreases node,
{
    &&& shape_ok(node)
    &&& forall|i: int| 0 <= i < node.children.len() ==> well_formed(#[trigger] node.children[i])
}

/// Whether every tree of a sequence is well formed and of one of the rules
/// asked for.
spec fn all_well_formed(nodes: Seq<Tree>, wanted: spec_fn(Rule) -> bool) -> bool {
    forall|i: int|
        0 <= i < nodes.len() ==> well_formed(#[trigger] nodes[i]) && wanted(nodes[i].rule)
}

/// The errors that say that the host language refuses a text, not that a
/// tree is out of shape.
pub open spec fn is_host_refusal(e: LowerError) -> bool {
    e is InvalidSymbol || e is InvalidLiteral || e is InvalidType
}

proof fn lemma_symbol_type(s: Seq<char>, at: int)
    ensures
        symbol_type(s, at) matches Some((node, n)) ==> well_formed(node) && node.rule
            is SymbolType && n >= 1,
{
    match symbol_type(s, at) {
        Some((node, n)) => {
            assert(well_formed(node.children[0]));
            assert(well_formed(node.children[1]));
        },
        None => {},
    }
}

proof fn lemma_parameters(
    s: Seq<char>,
    at: int,
    typed_only: bool,
    found: Seq<Tree>,
    end: int,
)
    requires
        all_well_formed(found, |rule: Rule| is_parameter(rule, typed_only)),
    ensures
        all_well_formed(
            parameters(s, at, typed_only, found, end).0,
            |rule: Rule| is_parameter(rule, typed_only),
        ),
    decreases left(s, at),
{
    match parameter(s, at, typed_only) {
        Some((node, n)) => {
            if n > 0 && 0 <= at < s.len() {
                lemma_symbol_type(s, at);
                let more = found.push(node);
                assert forall|i: int| 0 <= i < more.len() implies well_formed(#[trigger] more[i])
                    && is_parameter(more[i].rule, typed_only) by {
                    if i < found.len() {
                        assert(more[i] == found[i]);
                    }
                }
                lemma_parameters(s, skip_blank(s, at + n), typed_only, more, at + n);
            }
        },
        None => {},
    }
}

proof fn lemma_parameter_list(s: Seq<char>, at: int, typed_only: bool)
    ensures
        parameter_list(s, at, typed_only) matches Some((found, _)) ==> all_well_formed(
            found,
            |rule: Rule| is_parameter(rule, typed_only),
        ) && (typed_only ==> found.len() >= 1),
{
    lemma_parameters(s, skip_blank(s, at + 1), typed_only, Seq::empty(), at + 1);
}

/// What the head of a compound form holds, by rule.
spec fn head_ok(rule: Rule, heads: Seq<Tree>) -> bool {
    let n = heads.len() as int;
    &&& forall|i: int| 0 <= i < n ==> well_formed(#[trigger] heads[i])
    &&& match rule {
        Rule::IfB | Rule::List => n == 0,
        Rule::OpVar => n == 1 && heads[0].rule.is_operator(),
        Rule::SExpr | Rule::Def => n == 1 && heads[0].rule is Symbol,
        Rule::TDef => n == 1 && heads[0].rule is SymbolType,
        Rule::Fun => forall|i: int| 0 <= i < n ==> is_parameter(#[trigger] heads[i].rule, false),
        Rule::TFun => n >= 1 && forall|i: int|
            0 <= i < n ==> is_parameter(#[trigger] heads[i].rule, true),
        Rule::Defn => n >= 1 && heads[0].rule is Symbol && forall|i: int|
            1 <= i < n ==> is_parameter(#[trigger] heads[i].rule, false),
        Rule::TDefn => n >= 2 && heads[0].rule is Symbol && forall|i: int|
            1 <= i < n ==> is_parameter(#[trigger] heads[i].rule, true),
        _ => false,
    }
}

proof fn lemma_head(s: Seq<char>, at: int, rule: Rule)
    ensures
        head(s, at, rule) matches Some((heads, _)) ==> head_ok(rule, heads),
{
    let p = skip_blank(s, at + 1);
    match head(s, at, rule) {
        Some((heads, behind)) => {
            match rule {
                Rule::TDef => {
                    lemma_symbol_type(s, skip_blank(s, p + 6));
                },
                Rule::Defn | Rule::TDefn => {
                    let (name, end) = crate::grammar::define_name(s, p).unwrap();
                    lemma_parameter_list(s, skip_blank(s, end), rule is TDefn);
                    let found = parameter_list(s, skip_blank(s, end), rule is TDefn).unwrap().0;
                    assert(heads == seq![name] + found);
                    assert forall|i: int| 0 <= i < heads.len() implies well_formed(
                        #[trigger] heads[i],
                    ) by {
                        if i >= 1 {
                            assert(heads[i] == found[i - 1]);
                        }
                    }
                    assert forall|i: int| 1 <= i < heads.len() implies is_parameter(
                        #[trigger] heads[i].rule,
                        rule is TDefn,
                    ) by {
                        assert(heads[i] == found[i - 1]);
                    }
                },
                Rule::Fun | Rule::TFun => {
                    let end = crate::grammar::function_word(s, p).unwrap();
                    lemma_parameter_list(s, skip_blank(s, end), rule is TFun);
                },
                _ => {},
            }
        },
        None => {},
    }
}

proof fn lemma_atom(s: Seq<char>, at: int)
    ensures
        atom(s, at) matches Some((node, n)) ==> well_formed(node) && is_form(node.rule),
{
}

proof fn lemma_compound(s: Seq<char>, at: int, rule: Rule)
    requires
        is_compound(rule),
    ensures
        compound(s, at, rule) matches Some((node, n)) ==> well_formed(node) && node.rule == rule,
    decreases left(s, at), 1int,
{
    match head(s, at, rule) {
        Some((heads, behind)) => {
            if !(behind <= at || at < 0 || at >= s.len()) {
                lemma_head(s, at, rule);
                lemma_forms(s, skip_blank(s, behind), Seq::empty(), behind);
                let (items, end) = forms(s, skip_blank(s, behind), Seq::empty(), behind);
                match compound(s, at, rule) {
                    Some((node, n)) => {
                        let h = heads.len() as int;
                        assert(node.children == heads + items);
                        assert forall|i: int| 0 <= i < node.children.len() implies well_formed(
                            #[trigger] node.children[i],
                        ) by {
                            if i < h {
                                assert(node.children[i] == heads[i]);
                            } else {
                                assert(node.children[i] == items[i - h]);
                            }
                        }
                        assert forall|i: int| h <= i < node.children.len() implies is_form(
                            #[trigger] node.children[i].rule,
                        ) by {
                            assert(node.children[i] == items[i - h]);
                        }
                        assert forall|i: int| 0 <= i < h implies node.children[i] == heads[i] by {}
                        assert(shape_ok(node));
                    },
                    None => {},
                }
            }
        },
        None => {},
    }
}

proof fn lemma_form(s: Seq<char>, at: int)
    ensures
        form(s, at) matches Some((node, n)) ==> well_formed(node) && is_form(node.rule),
    decreases left(s, at), 2int,
{
    lemma_compound(s, at, Rule::IfB);
    lemma_compound(s, at, Rule::TDefn);
    lemma_compound(s, at, Rule::Defn);
    lemma_compound(s, at, Rule::TDef);
    lemma_compound(s, at, Rule::Def);
    lemma_compound(s, at, Rule::TFun);
    lemma_compound(s, at, Rule::Fun);
    lemma_compound(s, at, Rule::OpVar);
    lemma_compound(s, at, Rule::SExpr);
    lemma_compound(s, at, Rule::List);
    lemma_atom(s, at);
}

proof fn lemma_forms(s: Seq<char>, at: int, found: Seq<Tree>, end: int)
    requires
        all_well_formed(found, |rule: Rule| is_form(rule)),
    ensures
        all_well_formed(forms(s, at, found, end).0, |rule: Rule| is_form(rule)),
    decreases left(s, at), 3int,
{
    if !(at < 0 || at >= s.len()) {
        match form(s, at) {
            Some((node, n)) => {
                if n > 0 {
                    lemma_form(s, at);
                    let more = found.push(node);
                    assert forall|i: int| 0 <= i < more.len() implies well_formed(
                        #[trigger] more[i],
                    ) && is_form(more[i].rule) by {
                        if i < found.len() {
                            assert(more[i] == found[i]);
                        }
                    }
                    lemma_forms(s, skip_blank(s, at + n), more, at + n);
                }
            },
            None => {},
        }
    }
}

/// Every program that the grammar accepts is well formed: it covers the
/// whole text, holds forms and then the end of input, and every node in it
/// has the children that its rule asks for.
pub proof fn parsed_program_is_well_formed(s: Seq<char>)
    requires
        program(s) is Ok,
    ensures
        well_formed(program(s).unwrap()),
        program(s).unwrap().rule is Program,
        program(s).unwrap().text == s,
{
    lemma_forms(s, skip_blank(s, 0), Seq::empty(), 0);
    let tree = program(s).unwrap();
    let (items, end) = forms(s, skip_blank(s, 0), Seq::empty(), 0);
    let n = tree.children.len() as int;
    assert forall|i: int| 0 <= i < n implies well_formed(#[trigger] tree.children[i]) by {
        if i < n - 1 {
            assert(tree.children[i] == items[i]);
        }
    }
    assert forall|i: int| 0 <= i < n - 1 implies is_form(#[trigger] tree.children[i].rule) by {
        assert(tree.children[i] == items[i]);
    }
}

/// Whatever rule a text is parsed by, the node that comes out is of that
/// rule and well formed.
pub proof fn parsed_tree_is_well_formed(s: Seq<char>, rule: Rule)
    requires
        parse_outcome(s, rule) is Ok,
    ensures
        well_formed(parse_outcome(s, rule).unwrap()),
        parse_outcome(s, rule).unwrap().rule == rule,
{
    if rule is Program {
        parsed_program_is_well_formed(s);
    } else if rule is SymbolType {
        lemma_symbol_type(s, 0);
    } else if is_compound(rule) {
        lemma_compound(s, 0, rule);
    }
}

/// Every form that the grammar matches is well formed and of a rule of
/// forms.
pub proof fn parsed_form_is_well_formed(s: Seq<char>, at: int)
    requires
        form(s, at) is Some,
    ensures
        well_formed(form(s, at).unwrap().0),
        is_form(form(s, at).unwrap().0.rule),
{
    lemma_form(s, at);
}

proof fn lemma_typed_identifier(node: Tree)
    requires
        well_formed(node),
        node.rule is SymbolType,
    ensures
        typed_identifier(node) matches Err(e) ==> is_host_refusal(e),
{
}

proof fn lemma_lower_parameters(parameters: Seq<Tree>, from: int)
    requires
        0 <= from,
        all_well_formed(parameters, |rule: Rule| is_parameter(rule, false)),
    ensures
        lower_parameters(parameters, from) matches Err(e) ==> is_host_refusal(e),
    decreases parameters.len() - from,
{
    if from < parameters.len() {
        assert(well_formed(parameters[from]) && is_parameter(parameters[from].rule, false));
        if parameters[from].rule is SymbolType {
            lemma_typed_identifier(parameters[from]);
        }
        lemma_lower_parameters(parameters, from + 1);
    }
}

proof fn lemma_lower_node(node: Tree)
    requires
        well_formed(node),
    ensures
        lower_node(node) matches Err(e) ==> is_host_refusal(e),
    decreases node, 0int,
{
    let n = node.children.len() as int;
    assert forall|i: int| 0 <= i < n implies (lower_node(#[trigger] node.children[i]) matches Err(
        e,
    ) ==> is_host_refusal(e)) by {
        assert(well_formed(node.children[i]));
        lemma_lower_node(node.children[i]);
    }
    match node.rule {
        Rule::IfB => {
            assert(well_formed(node.children[0]));
            assert(well_formed(node.children[1]));
            assert(well_formed(node.children[2]));
        },
        Rule::OpVar => {
            assert(well_formed(node.children[0]));
            lemma_lower_operands(node.children, 1);
        },
        Rule::List => {
            let end = sequence_end(node.children, 0);
            lemma_sequence_end(node.children, 0);
            if end > 0 {
                lemma_lower_statements(node.children, 0, end - 1);
                assert(well_formed(node.children[end - 1]));
                lemma_lower_node(node.children[end - 1]);
            }
            assert(lower_block(node.children) matches Err(e) ==> is_host_refusal(e));
        },
        Rule::Def => {
            assert(well_formed(node.children[1]));
        },
        Rule::TDef => {
            assert(well_formed(node.children[0]));
            assert(well_formed(node.children[1]));
            lemma_typed_identifier(node.children[0]);
        },
        Rule::Fun | Rule::TFun => {
            let parameters = node.children.subrange(0, n - 1);
            assert forall|i: int| 0 <= i < parameters.len() implies well_formed(
                #[trigger] parameters[i],
            ) && is_parameter(parameters[i].rule, false) by {
                assert(parameters[i] == node.children[i]);
                assert(well_formed(node.children[i]));
            }
            lemma_lower_parameters(parameters, 0);
            assert(well_formed(node.children[n - 1]));
        },
        Rule::Defn | Rule::TDefn => {
            let parameters = node.children.subrange(1, n - 1);
            assert forall|i: int| 0 <= i < parameters.len() implies well_formed(
                #[trigger] parameters[i],
            ) && is_parameter(parameters[i].rule, false) by {
                assert(parameters[i] == node.children[i + 1]);
                assert(well_formed(node.children[i + 1]));
            }
            lemma_lower_parameters(parameters, 0);
            assert(well_formed(node.children[n - 1]));
        },
        Rule::EOI | Rule::Symbol | Rule::Number | Rule::String | Rule::Bool | Rule::Add
        | Rule::Sub | Rule::Mul | Rule::Div | Rule::Eq | Rule::Gt | Rule::Lt => {},
        _ => {
            lemma_lower_from(node.children, 0);
        },
    }
}

proof fn lemma_lower_from(nodes: Seq<Tree>, from: int)
    requires
        0 <= from,
        forall|i: int| 0 <= i < nodes.len() ==> well_formed(#[trigger] nodes[i]),
    ensures
        lower_from(nodes, from) matches Err(e) ==> is_host_refusal(e),
    decreases nodes, nodes.len() - from,
{
    if from < nodes.len() && !(nodes[from].rule is EOI) {
        assert(well_formed(nodes[from]));
        lemma_lower_node(nodes[from]);
        lemma_lower_from(nodes, from + 1);
    }
}

proof fn lemma_lower_operands(nodes: Seq<Tree>, from: int)
    requires
        0 <= from <= nodes.len(),
        forall|i: int| 0 <= i < nodes.len() ==> well_formed(#[trigger] nodes[i]),
    ensures
        lower_operands(nodes, from) matches Err(e) ==> is_host_refusal(e),
        lower_operands(nodes, from) matches Ok(parts) ==> parts.len() == nodes.len() - from,
    decreases nodes, nodes.len() - from,
{
    if from < nodes.len() {
        assert(well_formed(nodes[from]));
        lemma_lower_node(nodes[from]);
        lemma_lower_operands(nodes, from + 1);
    }
}

proof fn lemma_lower_statements(nodes: Seq<Tree>, from: int, until: int)
    requires
        0 <= from,
        forall|i: int| 0 <= i < nodes.len() ==> well_formed(#[trigger] nodes[i]),
    ensures
        lower_statements(nodes, from, until) matches Err(e) ==> is_host_refusal(e),
    decreases nodes, until - from,
{
    if from < until && from < nodes.len() {
        assert(well_formed(nodes[from]));
        lemma_lower_node(nodes[from]);
        lemma_lower_statements(nodes, from + 1, until);
    }
}

proof fn lemma_sequence_end(nodes: Seq<Tree>, from: int)
    requires
        0 <= from <= nodes.len(),
    ensures
        from <= sequence_end(nodes, from) <= nodes.len(),
    decreases nodes.len() - from,
{
    if from < nodes.len() && !(nodes[from].rule is EOI) {
        lemma_sequence_end(nodes, from + 1);
    }
}

/// A well-formed tree is never refused for its shape: where its lowering
/// fails, the host language has refused the text of a name, a literal or a
/// type.
pub proof fn well_formed_tree_lowers(node: Tree)
    requires
        well_formed(node),
    ensures
        lower_node(node) matches Err(e) ==> is_host_refusal(e),
{
    lemma_lower_node(node);
}

/// What the parser accepts, the lowering pass does not refuse for its
/// shape: a source text is turned into host code unless the parser refuses
/// it, or the host language refuses the text of a name, a literal or a type
/// in it.
pub proof fn parsed_program_lowers(s: Seq<char>)
    ensures
        crisp_outcome(s) matches Err(CrispError::Lower(e)) ==> is_host_refusal(e),
{
    if program(s) is Ok {
        parsed_program_is_well_formed(s);
        let tree = program(s).unwrap();
        let nodes = seq![tree];
        assert forall|i: int| 0 <= i < nodes.len() implies well_formed(#[trigger] nodes[i]) by {}
        lemma_lower_from(nodes, 0);
    }
}

proof fn lemma_name_len(s: Seq<char>, at: int)
    requires
        0 <= at <= s.len(),
    ensures
        at + crate::grammar::name_len(s, at) <= s.len(),
    decreases s.len() - at,
{
    if at < s.len() && crate::grammar::is_name_char(s[at]) {
        lemma_name_len(s, at + 1);
    }
}

proof fn lemma_digit_len(s: Seq<char>, at: int)
    requires
        0 <= at,
    ensures
        at + crate::grammar::digit_len(s, at) <= s.len() || crate::grammar::digit_len(s, at) == 0,
    decreases s.len() - at,
{
    if at < s.len() && crate::tokens::is_ascii_digit(s[at]) {
        lemma_digit_len(s, at + 1);
    }
}

proof fn lemma_string_rest(s: Seq<char>, at: int)
    requires
        0 <= at,
    ensures
        crate::grammar::string_rest(s, at) matches Some(n) ==> at + n <= s.len(),
    decreases s.len() - at,
{
    if at < s.len() && s[at] != '"' {
        if s[at] == '\\' {
            if at + 1 < s.len() {
                lemma_string_rest(s, at + 2);
            }
        } else {
            lemma_string_rest(s, at + 1);
        }
    }
}

proof fn lemma_forms_end(s: Seq<char>, at: int, found: Seq<Tree>, end: int)
    requires
        end <= at,
    ensures
        end <= forms(s, at, found, end).1,
    decreases left(s, at), 3int,
{
    if !(at < 0 || at >= s.len()) {
        match form(s, at) {
            Some((node, n)) => {
                if n > 0 {
                    lemma_forms_end(s, skip_blank(s, at + n), found.push(node), at + n);
                }
            },
            None => {},
        }
    }
}

/// A form that matches covers at least one character, lies inside the text,
/// and the text of its node is exactly what it covers.
pub proof fn form_covers_its_text(s: Seq<char>, at: int)
    requires
        form(s, at) is Some,
    ensures
        form(s, at).unwrap().1 >= 1,
        0 <= at,
        at + form(s, at).unwrap().1 <= s.len(),
        form(s, at).unwrap().0.text == s.subrange(at, at + form(s, at).unwrap().1),
{
    lemma_compound_span(s, at, Rule::IfB);
    lemma_compound_span(s, at, Rule::TDefn);
    lemma_compound_span(s, at, Rule::Defn);
    lemma_compound_span(s, at, Rule::TDef);
    lemma_compound_span(s, at, Rule::Def);
    lemma_compound_span(s, at, Rule::TFun);
    lemma_compound_span(s, at, Rule::Fun);
    lemma_compound_span(s, at, Rule::OpVar);
    lemma_compound_span(s, at, Rule::SExpr);
    lemma_compound_span(s, at, Rule::List);
    reveal_strlit("true");
    reveal_strlit("false");
    if 0 <= at < s.len() {
        lemma_name_len(s, at + 1);
        lemma_string_rest(s, at + 1);
        lemma_digit_len(s, at);
        lemma_digit_len(s, at + crate::grammar::digit_len(s, at) + 1);
    }
}

proof fn lemma_compound_span(s: Seq<char>, at: int, rule: Rule)
    ensures
        compound(s, at, rule) matches Some((node, n)) ==> n >= 1 && 0 <= at && at + n <= s.len()
            && node.text == s.subrange(at, at + n),
{
    match head(s, at, rule) {
        Some((heads, behind)) => {
            if !(behind <= at || at < 0 || at >= s.len()) {
                lemma_forms_end(s, skip_blank(s, behind), Seq::empty(), behind);
            }
        },
        None => {},
    }
}

} // verus!
