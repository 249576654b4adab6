//! What holds of every lowering.

use crate::emit::{
    alone, block_tokens, chain_step, chain_tokens, operand_tokens, operator_tokens,
    statement_tokens,
};
use crate::error::LowerError;
use crate::lower::{
    lower_all, lower_block, lower_from, lower_node, lower_operands, lower_statements, lowered,
    sequence_end,
};
use crate::tokens::{stream_tokens, Delim, Tok};
use crate::tree::{Rule, Tree};
use proc_macro2::TokenStream;
use vstd::prelude::*;

verus! {

/// A chain of one operand is that operand.
pub proof fn chain_of_one(operator: Seq<Tok>, operand: Seq<Tok>)
    ensures
        chain_tokens(operator, seq![operand]) == operand,
{
    assert(seq![operand].drop_first() =~= Seq::<Seq<Tok>>::empty());
}

/// Chains grow from the left: the chain of some operands and one more is
/// the chain of those operands, then the operator, then the last operand.
/// So `a op b op c` is built as `(a op b) op c`, never as `a op (b op c)`.
pub proof fn chain_grows_from_the_left(
    operator: Seq<Tok>,
    operands: Seq<Seq<Tok>>,
    last: Seq<Tok>,
)
    requires
        operands.len() >= 1,
    ensures
        chain_tokens(operator, operands.push(last)) == chain_tokens(operator, operands) + operator
            + last,
{
    let longer = operands.push(last).drop_first();
    assert(longer.drop_last() =~= operands.drop_first());
    assert(longer.last() == last);
    assert(operands.push(last)[0] == operands[0]);
}

/// An operator form that stands as an operand is one unit: a single group in
/// parentheses that holds what the form is lowered to. Any other node stands
/// as an operand as it is.
pub proof fn nested_operator_form_is_one_unit(rule: Rule, tokens: Seq<Tok>)
    ensures
        rule is OpVar ==> operand_tokens(rule, tokens) == seq![
            Tok::Group(Delim::Parenthesis, tokens),
        ],
        !(rule is OpVar) ==> operand_tokens(rule, tokens) == tokens,
{
}

/// The operands that the nodes from `from` on are lowered to are as many as
/// the nodes, and each is what its node is lowered to, taken as an operand.
pub proof fn each_operand_is_its_node(nodes: Seq<Tree>, from: int)
    requires
        0 <= from <= nodes.len(),
        lower_operands(nodes, from) is Ok,
    ensures
        lower_operands(nodes, from).unwrap().len() == nodes.len() - from,
        forall|i: int|
            from <= i < nodes.len() ==> lower_node(#[trigger] nodes[i]) is Ok && lower_operands(
                nodes,
                from,
            ).unwrap()[i - from] == operand_tokens(nodes[i].rule, lower_node(nodes[i]).unwrap()),
    decreases nodes.len() - from,
{
    if from < nodes.len() {
        each_operand_is_its_node(nodes, from + 1);
        let head = operand_tokens(nodes[from].rule, lower_node(nodes[from]).unwrap());
        let tail = lower_operands(nodes, from + 1).unwrap();
        assert(lower_operands(nodes, from).unwrap() =~= seq![head] + tail);
        assert forall|i: int| from <= i < nodes.len() implies lower_node(#[trigger] nodes[i])
            is Ok && lower_operands(nodes, from).unwrap()[i - from] == operand_tokens(
            nodes[i].rule,
            lower_node(nodes[i]).unwrap(),
        ) by {
            if i > from {
                assert((seq![head] + tail)[i - from] == tail[i - from - 1]);
            }
        }
    }
}

/// An operator form with two or more operands, all of which can be lowered,
/// is lowered to the left fold of its operator over its operands in source
/// order: the first operand, then for each further operand the operator and
/// that operand. Every operand stands there once and as one unit: an operand
/// that is an operator form itself stands in parentheses.
pub proof fn operator_form_is_left_fold(node: Tree)
    requires
        node.rule is OpVar,
        node.children.len() >= 3,
        node.children[0].rule.is_operator(),
        forall|i: int| 1 <= i < node.children.len() ==> lower_node(#[trigger] node.children[i]) is Ok,
    ensures
        lower_operands(node.children, 1) is Ok,
        lower_operands(node.children, 1).unwrap().len() == node.children.len() - 1,
        forall|i: int|
            1 <= i < node.children.len() ==> lower_operands(node.children, 1).unwrap()[i - 1]
                == operand_tokens(
                (#[trigger] node.children[i]).rule,
                lower_node(node.children[i]).unwrap(),
            ),
        lower_node(node) == Ok::<Seq<Tok>, LowerError>(
            lower_operands(node.children, 1).unwrap().drop_first().fold_left(
                lower_operands(node.children, 1).unwrap()[0],
                chain_step(operator_tokens(node.children[0].rule).unwrap()),
            ),
        ),
{
    operands_lower(node.children, 1);
    each_operand_is_its_node(node.children, 1);
    assert(lower_node(node.children[0]) == Ok::<Seq<Tok>, LowerError>(
        operator_tokens(node.children[0].rule).unwrap(),
    ));
}

/// Where every node from `from` on can be lowered, so can they all as
/// operands.
pub proof fn operands_lower(nodes: Seq<Tree>, from: int)
    requires
        0 <= from <= nodes.len(),
        forall|i: int| from <= i < nodes.len() ==> lower_node(#[trigger] nodes[i]) is Ok,
    ensures
        lower_operands(nodes, from) is Ok,
    decreases nodes.len() - from,
{
    if from < nodes.len() {
        operands_lower(nodes, from + 1);
        assert(lower_node(nodes[from]) is Ok);
    }
}

/// An operator form with fewer than two operands is never lowered to code:
/// the lowering ends in an error, and where the operator and the operand can
/// be lowered the error says that operands are missing.
pub proof fn operator_form_needs_two_operands(node: Tree)
    requires
        node.rule is OpVar,
        node.children.len() < 3,
    ensures
        lower_node(node) is Err,
        node.children.len() >= 1 && (forall|i: int|
            0 <= i < node.children.len() ==> lower_node(#[trigger] node.children[i]) is Ok)
            ==> lower_node(node) == Err::<Seq<Tok>, LowerError>(LowerError::TooFewOperands),
{
    if node.children.len() >= 1 && lower_node(node.children[0]) is Ok && lower_operands(
        node.children,
        1,
    ) is Ok {
        each_operand_is_its_node(node.children, 1);
    }
    if node.children.len() >= 1 && (forall|i: int|
        0 <= i < node.children.len() ==> lower_node(#[trigger] node.children[i]) is Ok) {
        operands_lower(node.children, 1);
        each_operand_is_its_node(node.children, 1);
        assert(lower_node(node.children[0]) is Ok);
    }
}

/// A conditional or a binding that holds more children than its rule allows
/// is refused: nothing is lowered and nothing is left out in silence.
pub proof fn extra_children_are_refused(node: Tree)
    ensures
        node.rule is IfB && node.children.len() > 3 ==> lower_node(node) == Err::<
            Seq<Tok>,
            LowerError,
        >(LowerError::ExtraChild(Rule::IfB)),
        node.rule is Def && node.children.len() > 2 ==> lower_node(node) == Err::<
            Seq<Tok>,
            LowerError,
        >(LowerError::ExtraChild(Rule::Def)),
        node.rule is TDef && node.children.len() > 2 ==> lower_node(node) == Err::<
            Seq<Tok>,
            LowerError,
        >(LowerError::ExtraChild(Rule::TDef)),
{
}

/// The nodes before the first end-of-input node decide what a sequence is
/// lowered to: a sequence followed by one more node that is no end of input
/// is lowered to the tokens of the sequence followed by those of that node.
pub proof fn sequence_ends_with_last(nodes: Seq<Tree>, last: Tree, from: int)
    requires
        0 <= from <= nodes.len(),
        forall|i: int| from <= i < nodes.len() ==> !(#[trigger] nodes[i].rule is EOI),
        !(last.rule is EOI),
        lower_from(nodes, from) is Ok,
        lower_node(last) is Ok,
    ensures
        lower_from(nodes.push(last), from) == Ok::<Seq<Tok>, LowerError>(
            lower_from(nodes, from).unwrap() + lower_node(last).unwrap(),
        ),
    decreases nodes.len() - from,
{
    let longer = nodes.push(last);
    if from < nodes.len() {
        assert(!(nodes[from].rule is EOI));
        assert(longer[from] == nodes[from]);
        sequence_ends_with_last(nodes, last, from + 1);
        let head = lower_node(nodes[from]).unwrap();
        let rest = lower_from(nodes, from + 1).unwrap();
        assert(head + (rest + lower_node(last).unwrap()) =~= (head + rest) + lower_node(
            last,
        ).unwrap());
    } else {
        assert(longer[from] == last);
        assert(lower_from(longer, from + 1) == Ok::<Seq<Tok>, LowerError>(Seq::empty()));
        assert(lower_node(last).unwrap() + Seq::<Tok>::empty() =~= lower_node(last).unwrap());
        assert(Seq::<Tok>::empty() + lower_node(last).unwrap() =~= lower_node(last).unwrap());
    }
}

/// What stands as a statement ends in `;`: the host takes it for its effect
/// and drops its value.
pub proof fn statement_ends_in_semicolon(node: Tree)
    requires
        lower_node(node) is Ok,
    ensures
        statement_tokens(node.rule, lower_node(node).unwrap()).len() >= 1,
        statement_tokens(node.rule, lower_node(node).unwrap()).last() == alone(';'),
{
}

/// Statements keep source order: the statements of some nodes and one more
/// are the statements of those nodes followed by that of the last.
pub proof fn statements_end_with_last(nodes: Seq<Tree>, from: int, until: int)
    requires
        0 <= from <= until < nodes.len(),
        lower_statements(nodes, from, until) is Ok,
        lower_node(nodes[until]) is Ok,
    ensures
        lower_statements(nodes, from, until + 1) == Ok::<Seq<Tok>, LowerError>(
            lower_statements(nodes, from, until).unwrap() + statement_tokens(
                nodes[until].rule,
                lower_node(nodes[until]).unwrap(),
            ),
        ),
    decreases until - from,
{
    let last = statement_tokens(nodes[until].rule, lower_node(nodes[until]).unwrap());
    if from < until {
        statements_end_with_last(nodes, from + 1, until);
        let head = statement_tokens(nodes[from].rule, lower_node(nodes[from]).unwrap());
        let rest = lower_statements(nodes, from + 1, until).unwrap();
        assert(head + (rest + last) =~= (head + rest) + last);
    } else {
        assert(lower_statements(nodes, until + 1, until + 1) == Ok::<Seq<Tok>, LowerError>(
            Seq::empty(),
        ));
        assert(last + Seq::<Tok>::empty() =~= last);
        assert(Seq::<Tok>::empty() + last =~= last);
    }
}

/// Where every node in `from..until` can be lowered, so can they all as
/// statements.
pub proof fn statements_lower(nodes: Seq<Tree>, from: int, until: int)
    requires
        0 <= from,
        until <= nodes.len(),
        forall|i: int| from <= i < until ==> lower_node(#[trigger] nodes[i]) is Ok,
    ensures
        lower_statements(nodes, from, until) is Ok,
    decreases until - from,
{
    if from < until {
        statements_lower(nodes, from + 1, until);
        assert(lower_node(nodes[from]) is Ok);
    }
}

/// A sequence without an end-of-input node ends behind its last node.
pub proof fn sequence_ends_behind_last(nodes: Seq<Tree>, from: int)
    requires
        0 <= from <= nodes.len(),
        forall|i: int| from <= i < nodes.len() ==> !(#[trigger] nodes[i].rule is EOI),
    ensures
        sequence_end(nodes, from) == nodes.len(),
    decreases nodes.len() - from,
{
    if from < nodes.len() {
        assert(!(nodes[from].rule is EOI));
        sequence_ends_behind_last(nodes, from + 1);
    }
}

/// A block is one brace group `{ a ; b ; c }`: every form but the last
/// stands there as a statement, in source order, so that its value is
/// dropped, and the tokens of the last form stand last, where the host takes
/// the value of a block from. No form is left out, repeated or moved.
pub proof fn block_is_statements_then_value(node: Tree)
    requires
        node.rule is List,
        node.children.len() >= 1,
        forall|i: int|
            0 <= i < node.children.len() ==> !(#[trigger] node.children[i].rule is EOI)
                && lower_node(node.children[i]) is Ok,
    ensures
        lower_statements(node.children, 0, node.children.len() - 1) is Ok,
        lower_node(node) == Ok::<Seq<Tok>, LowerError>(
            block_tokens(
                lower_statements(node.children, 0, node.children.len() - 1).unwrap() + lower_node(
                    node.children.last(),
                ).unwrap(),
            ),
        ),
{
    sequence_ends_behind_last(node.children, 0);
    statements_lower(node.children, 0, node.children.len() - 1);
    assert(lower_node(node.children[node.children.len() - 1]) is Ok);
    assert(lower_block(node.children) == Ok::<Seq<Tok>, LowerError>(
        lower_statements(node.children, 0, node.children.len() - 1).unwrap() + lower_node(
            node.children.last(),
        ).unwrap(),
    ));
}

/// Where every node from `from` on can be lowered, so can the sequence.
pub proof fn all_lower(nodes: Seq<Tree>, from: int)
    requires
        0 <= from <= nodes.len(),
        forall|i: int| from <= i < nodes.len() ==> lower_node(#[trigger] nodes[i]) is Ok,
    ensures
        lower_from(nodes, from) is Ok,
    decreases nodes.len() - from,
{
    if from < nodes.len() {
        all_lower(nodes, from + 1);
        assert(lower_node(nodes[from]) is Ok);
    }
}

/// An end-of-input node ends a sequence: whatever stands behind it changes
/// nothing.
pub proof fn end_of_input_cuts(nodes: Seq<Tree>, more: Seq<Tree>, from: int)
    requires
        0 <= from < nodes.len(),
        nodes.last().rule is EOI,
    ensures
        lower_from(nodes + more, from) == lower_from(nodes, from),
    decreases nodes.len() - from,
{
    assert((nodes + more)[from] == nodes[from]);
    if !(nodes[from].rule is EOI) {
        end_of_input_cuts(nodes, more, from + 1);
    }
}

/// Lowering is a function of the tree: two runs on trees of the same value
/// end alike, token for token, or in the same error.
pub proof fn lowering_is_deterministic(
    nodes: Seq<Tree>,
    first: Result<TokenStream, LowerError>,
    second: Result<TokenStream, LowerError>,
)
    requires
        lowered(lower_all(nodes), first),
        lowered(lower_all(nodes), second),
    ensures
        match (first, second) {
            (Ok(a), Ok(b)) => stream_tokens(a) == stream_tokens(b),
            (Err(a), Err(b)) => a == b,
            _ => false,
        },
{
}

} // verus!
