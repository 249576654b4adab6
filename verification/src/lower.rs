//! Lowering: from a parse tree to the tokens of host code.
//!
//! [`lower_node`] says, as a function of the tree alone, which tokens a node
//! is lowered to or which error stops the lowering. The executable functions
//! [`transpile_to_rust`] and [`transpile_node`] compute exactly that.

use crate::emit::{
    binding_tokens, block_tokens, chain_tokens, coerced_tokens, conditional_tokens, each_tokens,
    emit_binding, emit_block, emit_chain, emit_coerced, emit_conditional, emit_function,
    emit_operand, emit_operator, emit_parameter, emit_statement, emit_type, emit_typed,
    emit_untyped, function_tokens, operand_tokens, operator_tokens, parameter_tokens,
    statement_tokens, type_tokens, typed_tokens, untyped_tokens,
};
use crate::error::LowerError;
use crate::tokens::{
    append_stream, host_identifier, host_literal, parse_identifier, parse_literal, stream_new,
    stream_tokens, Tok,
};
use crate::tree::{lemma_child, lemma_children, trees, Node, Rule, Tree};
use proc_macro2::TokenStream;
use vstd::prelude::*;

verus! {

/// What a lowering gives: the tokens, or the error that stopped it.
pub type Lowered = Result<Seq<Tok>, LowerError>;

/// Whether an executable result is the outcome that `expected` names: the
/// same error, or a stream that holds exactly the expected tokens.
pub open spec fn lowered(expected: Lowered, got: Result<TokenStream, LowerError>) -> bool {
    match got {
        Ok(ts) => expected == Ok::<Seq<Tok>, LowerError>(stream_tokens(ts)),
        Err(e) => expected == Err::<Seq<Tok>, LowerError>(e),
    }
}

/// `head` in front of what follows, unless what follows is an error.
pub open spec fn prepend(head: Seq<Tok>, rest: Lowered) -> Lowered {
    match rest {
        Ok(tail) => Ok(head + tail),
        Err(e) => Err(e),
    }
}

/// One more lowered part in front of those that follow, unless they are an
/// error.
pub open spec fn prepend_part(
    head: Seq<Tok>,
    rest: Result<Seq<Seq<Tok>>, LowerError>,
) -> Result<Seq<Seq<Tok>>, LowerError> {
    match rest {
        Ok(tail) => Ok(seq![head] + tail),
        Err(e) => Err(e),
    }
}

/// A name as an identifier of the host language.
pub open spec fn lower_name(text: Seq<char>) -> Lowered {
    match host_identifier(text) {
        Some(name) => Ok(name),
        None => Err(LowerError::InvalidSymbol),
    }
}

/// A typed name, `name : type`: a node of exactly two children, of which the
/// first gives the name by its text and the second the type by
/// [`type_tokens`].
pub open spec fn typed_identifier(node: Tree) -> Lowered {
    if node.children.len() < 2 {
        Err(LowerError::MissingChild(Rule::SymbolType))
    } else if node.children.len() > 2 {
        Err(LowerError::ExtraChild(Rule::SymbolType))
    } else {
        match host_identifier(node.children[0].text) {
            None => Err(LowerError::InvalidSymbol),
            Some(name) => match type_tokens(node.children[1].text) {
                None => Err(LowerError::InvalidType),
                Some(ty) => Ok(typed_tokens(name, ty)),
            },
        }
    }
}

/// One parameter of a function: a typed name keeps its type, a plain name is
/// of the general runtime type, and no other node is a parameter.
pub open spec fn lower_parameter(node: Tree) -> Lowered {
    match node.rule {
        Rule::SymbolType => typed_identifier(node),
        Rule::Symbol => match host_identifier(node.text) {
            Some(name) => Ok(untyped_tokens(name)),
            None => Err(LowerError::InvalidSymbol),
        },
        _ => Err(LowerError::InvalidParameter),
    }
}

/// The bindings of the parameters from position `from` on: each parameter is
/// bound to the argument at its own position in `parameters`.
pub open spec fn lower_parameters(parameters: Seq<Tree>, from: int) -> Lowered
    decreases parameters.len() - from,
{
    if from < 0 || from >= parameters.len() {
        Ok(Seq::empty())
    } else {
        match lower_parameter(parameters[from]) {
            Err(e) => Err(e),
            Ok(parameter) => prepend(
                parameter_tokens(parameter, from as usize),
                lower_parameters(parameters, from + 1),
            ),
        }
    }
}

/// The tokens that one node is lowered to.
///
/// - End of input gives no tokens.
/// - A symbol is the host identifier of its text; a number, string or
///   boolean is the host literal of its text.
/// - An operator is its host operator.
/// - A conditional holds exactly three children and lowers them into
///   `if c { t } else { e }`.
/// - An operator form lowers its first child, then every other child as an
///   operand, and chains the operands from the left; an operand that is an
///   operator form itself stands in parentheses; fewer than two operands are
///   an error.
/// - A list is a block `{ a ; b ; c }`: every child but the last stands as a
///   statement, the last gives the value.
/// - A binding holds exactly two children and is `let name : Value = value ;`,
///   or `let name : type = value ;` where the name is typed.
/// - A function lowers all children but the last as parameters and the last
///   as body; a named function is bound to its name and its body is coerced
///   to a runtime value.
/// - Any other node gives what its children give, in order.
pub open spec fn lower_node(node: Tree) -> Lowered
    decreases node, 0int,
{
    let n = node.children.len() as int;
    match node.rule {
        Rule::EOI => Ok(Seq::empty()),
        Rule::Symbol => lower_name(node.text),
        Rule::Number | Rule::String | Rule::Bool => match host_literal(node.text) {
            Some(literal) => Ok(literal),
            None => Err(LowerError::InvalidLiteral),
        },
        Rule::Add | Rule::Sub | Rule::Mul | Rule::Div | Rule::Eq | Rule::Gt | Rule::Lt => Ok(
            operator_tokens(node.rule).unwrap(),
        ),
        Rule::IfB => if n < 3 {
            Err(LowerError::MissingChild(Rule::IfB))
        } else if n > 3 {
            Err(LowerError::ExtraChild(Rule::IfB))
        } else {
            match lower_node(node.children[0]) {
                Err(e) => Err(e),
                Ok(condition) => match lower_node(node.children[1]) {
                    Err(e) => Err(e),
                    Ok(then) => match lower_node(node.children[2]) {
                        Err(e) => Err(e),
                        Ok(otherwise) => Ok(conditional_tokens(condition, then, otherwise)),
                    },
                },
            }
        },
        Rule::OpVar => if n < 1 {
            Err(LowerError::MissingChild(Rule::OpVar))
        } else {
            match lower_node(node.children[0]) {
                Err(e) => Err(e),
                Ok(operator) => match lower_operands(node.children, 1) {
                    Err(e) => Err(e),
                    Ok(operands) => if operands.len() < 2 {
                        Err(LowerError::TooFewOperands)
                    } else {
                        Ok(chain_tokens(operator, operands))
                    },
                },
            }
        },
        Rule::List => match lower_block(node.children) {
            Err(e) => Err(e),
            Ok(items) => Ok(block_tokens(items)),
        },
        Rule::Def => if n < 2 {
            Err(LowerError::MissingChild(Rule::Def))
        } else if n > 2 {
            Err(LowerError::ExtraChild(Rule::Def))
        } else {
            match lower_name(node.children[0].text) {
                Err(e) => Err(e),
                Ok(name) => match lower_node(node.children[1]) {
                    Err(e) => Err(e),
                    Ok(value) => Ok(binding_tokens(untyped_tokens(name), value)),
                },
            }
        },
        Rule::TDef => if n < 2 {
            Err(LowerError::MissingChild(Rule::TDef))
        } else if n > 2 {
            Err(LowerError::ExtraChild(Rule::TDef))
        } else {
            match typed_identifier(node.children[0]) {
                Err(e) => Err(e),
                Ok(pattern) => match lower_node(node.children[1]) {
                    Err(e) => Err(e),
                    Ok(value) => Ok(binding_tokens(pattern, value)),
                },
            }
        },
        Rule::Fun | Rule::TFun => if n < 1 {
            Err(LowerError::MissingChild(node.rule))
        } else {
            match lower_parameters(node.children.subrange(0, n - 1), 0) {
                Err(e) => Err(e),
                Ok(bindings) => match lower_node(node.children[n - 1]) {
                    Err(e) => Err(e),
                    Ok(body) => Ok(function_tokens(bindings + body)),
                },
            }
        },
        Rule::Defn | Rule::TDefn => if n < 2 {
            Err(LowerError::MissingChild(node.rule))
        } else {
            match lower_name(node.children[0].text) {
                Err(e) => Err(e),
                Ok(name) => match lower_parameters(node.children.subrange(1, n - 1), 0) {
                    Err(e) => Err(e),
                    Ok(bindings) => match lower_node(node.children[n - 1]) {
                        Err(e) => Err(e),
                        Ok(body) => Ok(
                            binding_tokens(name, function_tokens(bindings + coerced_tokens(body))),
                        ),
                    },
                },
            }
        },
        _ => lower_from(node.children, 0),
    }
}

/// The tokens of the nodes from position `from` on, in order, up to the
/// first end-of-input node: that node and all behind it give nothing.
pub open spec fn lower_from(nodes: Seq<Tree>, from: int) -> Lowered
    decreases nodes, nodes.len() - from,
{
    if from < 0 || from >= nodes.len() || nodes[from].rule is EOI {
        Ok(Seq::empty())
    } else {
        match lower_node(nodes[from]) {
            Err(e) => Err(e),
            Ok(head) => prepend(head, lower_from(nodes, from + 1)),
        }
    }
}

/// The tokens of each node from position `from` on as an operand, kept
/// apart: what the node is lowered to, in parentheses where the node is an
/// operator form.
pub open spec fn lower_operands(nodes: Seq<Tree>, from: int) -> Result<Seq<Seq<Tok>>, LowerError>
    decreases nodes, nodes.len() - from,
{
    if from < 0 || from >= nodes.len() {
        Ok(Seq::empty())
    } else {
        match lower_node(nodes[from]) {
            Err(e) => Err(e),
            Ok(head) => prepend_part(
                operand_tokens(nodes[from].rule, head),
                lower_operands(nodes, from + 1),
            ),
        }
    }
}

/// The tokens of the nodes `from..until` as statements, in order: what each
/// node is lowered to, followed by `;` unless it ends in one already.
pub open spec fn lower_statements(nodes: Seq<Tree>, from: int, until: int) -> Lowered
    decreases nodes, until - from,
{
    if from < 0 || from >= until || from >= nodes.len() {
        Ok(Seq::empty())
    } else {
        match lower_node(nodes[from]) {
            Err(e) => Err(e),
            Ok(head) => prepend(
                statement_tokens(nodes[from].rule, head),
                lower_statements(nodes, from + 1, until),
            ),
        }
    }
}

/// What stands inside a block: the nodes up to the first end-of-input node,
/// every one but the last as a statement and the last as it is, in order.
pub open spec fn lower_block(nodes: Seq<Tree>) -> Lowered
    decreases nodes, nodes.len() + 1,
{
    let end = sequence_end(nodes, 0);
    if end <= 0 || end > nodes.len() {
        Ok(Seq::empty())
    } else {
        match lower_statements(nodes, 0, end - 1) {
            Err(e) => Err(e),
            Ok(statements) => match lower_node(nodes[end - 1]) {
                Err(e) => Err(e),
                Ok(last) => Ok(statements + last),
            },
        }
    }
}

/// Where a sequence of sibling nodes ends when read from `from` on: at the
/// first end-of-input node, or behind the last node.
pub open spec fn sequence_end(nodes: Seq<Tree>, from: int) -> int
    decreases nodes.len() - from,
{
    if from < 0 || from >= nodes.len() || nodes[from].rule is EOI {
        from
    } else {
        sequence_end(nodes, from + 1)
    }
}

/// The tokens of a sequence of sibling nodes: those of each node in order,
/// up to the first end-of-input node.
pub open spec fn lower_all(nodes: Seq<Tree>) -> Lowered {
    lower_from(nodes, 0)
}

/// The parts lowered so far in front of those that follow, unless they are
/// an error.
spec fn prepend_parts(
    heads: Seq<Seq<Tok>>,
    rest: Result<Seq<Seq<Tok>>, LowerError>,
) -> Result<Seq<Seq<Tok>>, LowerError> {
    match rest {
        Ok(tail) => Ok(heads + tail),
        Err(e) => Err(e),
    }
}

proof fn lemma_parts_nothing(rest: Result<Seq<Seq<Tok>>, LowerError>)
    ensures
        prepend_parts(Seq::empty(), rest) == rest,
{
    match rest {
        Ok(tail) => {
            assert(Seq::<Seq<Tok>>::empty() + tail =~= tail);
        },
        Err(_) => {},
    }
}

proof fn lemma_parts_twice(
    heads: Seq<Seq<Tok>>,
    next: Seq<Tok>,
    rest: Result<Seq<Seq<Tok>>, LowerError>,
)
    ensures
        prepend_parts(heads, prepend_part(next, rest)) == prepend_parts(heads.push(next), rest),
{
    match rest {
        Ok(tail) => {
            assert(heads + (seq![next] + tail) =~= heads.push(next) + tail);
        },
        Err(_) => {},
    }
}

proof fn lemma_prepend_twice(first: Seq<Tok>, second: Seq<Tok>, rest: Lowered)
    ensures
        prepend(first, prepend(second, rest)) == prepend(first + second, rest),
{
    match rest {
        Ok(tail) => {
            assert(first + (second + tail) =~= (first + second) + tail);
        },
        Err(_) => {},
    }
}

proof fn lemma_prepend_nothing(first: Seq<Tok>)
    ensures
        prepend(first, Ok(Seq::empty())) == Ok::<Seq<Tok>, LowerError>(first),
{
    assert(first + Seq::<Tok>::empty() =~= first);
}

/// A name as an identifier of the host language.
fn transpile_name(text: &str) -> (r: Result<TokenStream, LowerError>)
    ensures
        lowered(lower_name(text@), r),
{
    match parse_identifier(text) {
        Some(name) => Ok(name),
        None => Err(LowerError::InvalidSymbol),
    }
}

/// The type-annotation resolver: lowers a typed name to `name : type`, with
/// the host type that the type name stands for.
pub fn parse_typed_identifier(node: &Node) -> (r: Result<TokenStream, LowerError>)
    ensures
        lowered(typed_identifier(node@), r),
{
    if node.children.len() < 2 {
        return Err(LowerError::MissingChild(Rule::SymbolType));
    }
    if node.children.len() > 2 {
        return Err(LowerError::ExtraChild(Rule::SymbolType));
    }
    proof {
        lemma_child(node, 0);
        lemma_child(node, 1);
    }
    let name = match parse_identifier(node.children[0].text.as_str()) {
        Some(name) => name,
        None => {
            return Err(LowerError::InvalidSymbol);
        },
    };
    match emit_type(node.children[1].text.as_str()) {
        Some(ty) => Ok(emit_typed(name, &ty)),
        None => Err(LowerError::InvalidType),
    }
}

/// One parameter of a function as `name : type`.
pub fn transpile_parameter(node: &Node) -> (r: Result<TokenStream, LowerError>)
    ensures
        lowered(lower_parameter(node@), r),
{
    match node.rule {
        Rule::SymbolType => parse_typed_identifier(node),
        Rule::Symbol => match parse_identifier(node.text.as_str()) {
            Some(name) => Ok(emit_untyped(name)),
            None => Err(LowerError::InvalidSymbol),
        },
        _ => Err(LowerError::InvalidParameter),
    }
}

/// The bindings of the parameters `nodes[first..last]` to the arguments at
/// their positions.
fn transpile_parameters(nodes: &Vec<Node>, first: usize, last: usize) -> (r: Result<
    TokenStream,
    LowerError,
>)
    requires
        first <= last <= nodes.len(),
    ensures
        lowered(lower_parameters(trees(nodes@).subrange(first as int, last as int), 0), r),
{
    let ghost parameters = trees(nodes@).subrange(first as int, last as int);
    let mut out = stream_new();
    let mut i: usize = first;
    proof {
        lemma_prepend_nothing(Seq::empty());
        assert(prepend(stream_tokens(out), lower_parameters(parameters, 0)) == lower_parameters(
            parameters,
            0,
        )) by {
            match lower_parameters(parameters, 0) {
                Ok(tail) => {
                    assert(Seq::<Tok>::empty() + tail =~= tail);
                },
                Err(_) => {},
            }
        }
    }
    while i < last
        invariant
            first <= i <= last <= nodes.len(),
            parameters == trees(nodes@).subrange(first as int, last as int),
            lower_parameters(parameters, 0) == prepend(
                stream_tokens(out),
                lower_parameters(parameters, i - first),
            ),
        decreases last - i,
    {
        assert(parameters[i - first] == nodes@[i as int]@);
        let parameter = transpile_parameter(&nodes[i])?;
        let binding = emit_parameter(&parameter, i - first);
        proof {
            lemma_prepend_twice(
                stream_tokens(out),
                stream_tokens(binding),
                lower_parameters(parameters, i - first + 1),
            );
        }
        append_stream(&mut out, &binding);
        i += 1;
    }
    proof {
        lemma_prepend_nothing(stream_tokens(out));
    }
    Ok(out)
}

/// Lowers one node to host code, as [`lower_node`] says.
///
/// The result is `Ok` exactly where the node and all that it holds keep the
/// promises of the grammar and every name and literal in it is accepted by
/// the host language; else it is the first error in source order.
pub fn transpile_node(node: &Node) -> (r: Result<TokenStream, LowerError>)
    ensures
        lowered(lower_node(node@), r),
    decreases node, 0int,
{
    let n = node.children.len();
    proof {
        lemma_children(node);
    }
    match node.rule {
        Rule::EOI => Ok(stream_new()),
        Rule::Symbol => transpile_name(node.text.as_str()),
        Rule::Number | Rule::String | Rule::Bool => match parse_literal(node.text.as_str()) {
            Some(literal) => Ok(literal),
            None => Err(LowerError::InvalidLiteral),
        },
        Rule::IfB => {
            if n < 3 {
                return Err(LowerError::MissingChild(Rule::IfB));
            }
            if n > 3 {
                return Err(LowerError::ExtraChild(Rule::IfB));
            }
            let condition = transpile_node(&node.children[0])?;
            let then = transpile_node(&node.children[1])?;
            let otherwise = transpile_node(&node.children[2])?;
            Ok(emit_conditional(condition, then, otherwise))
        },
        Rule::OpVar => {
            if n < 1 {
                return Err(LowerError::MissingChild(Rule::OpVar));
            }
            let operator = transpile_node(&node.children[0])?;
            let operands = transpile_operands(&node.children, 1)?;
            emit_chain(&operator, &operands)
        },
        Rule::List => {
            let items = transpile_block(&node.children)?;
            Ok(emit_block(items))
        },
        Rule::Def => {
            if n < 2 {
                return Err(LowerError::MissingChild(Rule::Def));
            }
            if n > 2 {
                return Err(LowerError::ExtraChild(Rule::Def));
            }
            proof {
                lemma_child(node, 0);
            }
            let name = transpile_name(node.children[0].text.as_str())?;
            let value = transpile_node(&node.children[1])?;
            let pattern = emit_untyped(name);
            Ok(emit_binding(&pattern, &value))
        },
        Rule::TDef => {
            if n < 2 {
                return Err(LowerError::MissingChild(Rule::TDef));
            }
            if n > 2 {
                return Err(LowerError::ExtraChild(Rule::TDef));
            }
            let pattern = parse_typed_identifier(&node.children[0])?;
            let value = transpile_node(&node.children[1])?;
            Ok(emit_binding(&pattern, &value))
        },
        Rule::Fun | Rule::TFun => {
            if n < 1 {
                return Err(LowerError::MissingChild(node.rule));
            }
            let mut body = transpile_parameters(&node.children, 0, n - 1)?;
            let value = transpile_node(&node.children[n - 1])?;
            append_stream(&mut body, &value);
            Ok(emit_function(body))
        },
        Rule::Defn | Rule::TDefn => {
            if n < 2 {
                return Err(LowerError::MissingChild(node.rule));
            }
            proof {
                lemma_child(node, 0);
            }
            let name = transpile_name(node.children[0].text.as_str())?;
            let mut body = transpile_parameters(&node.children, 1, n - 1)?;
            let value = transpile_node(&node.children[n - 1])?;
            let coerced = emit_coerced(value);
            append_stream(&mut body, &coerced);
            let function = emit_function(body);
            Ok(emit_binding(&name, &function))
        },
        _ => match emit_operator(node.rule) {
            Some(operator) => Ok(operator),
            None => transpile_to_rust(&node.children),
        },
    }
}

/// Lowers each node from position `from` on as an operand, and keeps the
/// results apart.
fn transpile_operands(nodes: &Vec<Node>, from: usize) -> (r: Result<Vec<TokenStream>, LowerError>)
    requires
        from <= nodes.len(),
    ensures
        match r {
            Ok(parts) => lower_operands(trees(nodes@), from as int) == Ok::<
                Seq<Seq<Tok>>,
                LowerError,
            >(each_tokens(parts@)),
            Err(e) => lower_operands(trees(nodes@), from as int) == Err::<
                Seq<Seq<Tok>>,
                LowerError,
            >(e),
        },
    decreases nodes, nodes.len() + 1,
{
    let ghost all = trees(nodes@);
    let mut parts: Vec<TokenStream> = Vec::new();
    let mut i: usize = from;
    proof {
        assert(each_tokens(parts@) =~= Seq::empty());
        lemma_parts_nothing(lower_operands(all, from as int));
    }
    while i < nodes.len()
        invariant
            from <= i <= nodes.len(),
            all == trees(nodes@),
            lower_operands(all, from as int) == prepend_parts(
                each_tokens(parts@),
                lower_operands(all, i as int),
            ),
        decreases nodes.len() - i,
    {
        let lowered = transpile_node(&nodes[i])?;
        let head = emit_operand(nodes[i].rule, lowered);
        proof {
            lemma_parts_twice(each_tokens(parts@), stream_tokens(head), lower_operands(all, i + 1));
            assert(each_tokens(parts@.push(head)) =~= each_tokens(parts@).push(
                stream_tokens(head),
            ));
        }
        parts.push(head);
        i += 1;
    }
    assert(each_tokens(parts@) + Seq::<Seq<Tok>>::empty() =~= each_tokens(parts@));
    Ok(parts)
}

/// Where a sequence of sibling nodes ends: at the first end-of-input node,
/// or behind the last node.
fn end_of_sequence(nodes: &Vec<Node>) -> (end: usize)
    ensures
        end == sequence_end(trees(nodes@), 0),
        end <= nodes.len(),
{
    let mut i: usize = 0;
    while i < nodes.len() && nodes[i].rule != Rule::EOI
        invariant
            i <= nodes.len(),
            sequence_end(trees(nodes@), 0) == sequence_end(trees(nodes@), i as int),
        decreases nodes.len() - i,
    {
        i += 1;
    }
    i
}

/// Lowers the children of a block: every node before the last as a
/// statement, the last as it is, up to the first end-of-input node.
fn transpile_block(nodes: &Vec<Node>) -> (r: Result<TokenStream, LowerError>)
    ensures
        lowered(lower_block(trees(nodes@)), r),
    decreases nodes, nodes.len() + 1,
{
    let ghost all = trees(nodes@);
    let end = end_of_sequence(nodes);
    let mut out = stream_new();
    if end == 0 {
        return Ok(out);
    }
    let mut i: usize = 0;
    proof {
        match lower_statements(all, 0, end - 1) {
            Ok(tail) => {
                assert(Seq::<Tok>::empty() + tail =~= tail);
            },
            Err(_) => {},
        }
    }
    while i < end - 1
        invariant
            i <= end - 1,
            1 <= end <= nodes.len(),
            end == sequence_end(all, 0),
            all == trees(nodes@),
            lower_statements(all, 0, end - 1) == prepend(
                stream_tokens(out),
                lower_statements(all, i as int, end - 1),
            ),
        decreases end - i,
    {
        let lowered = transpile_node(&nodes[i])?;
        let head = emit_statement(nodes[i].rule, lowered);
        proof {
            lemma_prepend_twice(
                stream_tokens(out),
                stream_tokens(head),
                lower_statements(all, i + 1, end - 1),
            );
        }
        append_stream(&mut out, &head);
        i += 1;
    }
    proof {
        lemma_prepend_nothing(stream_tokens(out));
    }
    let last = transpile_node(&nodes[end - 1])?;
    append_stream(&mut out, &last);
    Ok(out)
}

/// Lowers a sequence of sibling nodes to host code: the tokens of each node
/// in order, up to the first end-of-input node, which ends the sequence
/// whatever stands behind it.
///
/// The result is `Ok` exactly where every node before that point can be
/// lowered; else it is the first error in source order.
pub fn transpile_to_rust(nodes: &Vec<Node>) -> (r: Result<TokenStream, LowerError>)
    ensures
        lowered(lower_all(trees(nodes@)), r),
    decreases nodes, nodes.len() + 1,
{
    let ghost all = trees(nodes@);
    let mut out = stream_new();
    let mut i: usize = 0;
    proof {
        match lower_from(all, 0) {
            Ok(tail) => {
                assert(Seq::<Tok>::empty() + tail =~= tail);
            },
            Err(_) => {},
        }
    }
    while i < nodes.len()
        invariant
            i <= nodes.len(),
            all == trees(nodes@),
            lower_from(all, 0) == prepend(stream_tokens(out), lower_from(all, i as int)),
        decreases nodes.len() - i,
    {
        if nodes[i].rule == Rule::EOI {
            proof {
                lemma_prepend_nothing(stream_tokens(out));
            }
            return Ok(out);
        }
        let head = transpile_node(&nodes[i])?;
        proof {
            lemma_prepend_twice(stream_tokens(out), stream_tokens(head), lower_from(all, i + 1));
        }
        append_stream(&mut out, &head);
        i += 1;
    }
    proof {
        lemma_prepend_nothing(stream_tokens(out));
    }
    Ok(out)
}

} // verus!
