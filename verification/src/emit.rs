//! The shapes of host code that forms are lowered to.
//!
//! Each shape is a spec function from the tokens of its parts to the tokens
//! of the whole, and an executable function that builds a stream holding
//! exactly those tokens.

use crate::error::LowerError;
use crate::text::same_text;
use crate::tokens::{
    append_stream, group_stream, host_type, ident_stream, index_literal, index_stream,
    is_punct_char, is_word, parse_type, punct_stream, stream_new, stream_tokens, Delim, Spacing,
    Tok,
};
use crate::tree::Rule;
use proc_macro2::TokenStream;
use vstd::prelude::*;

verus! {

/// The tokens of each stream, one for one.
pub open spec fn each_tokens(streams: Seq<TokenStream>) -> Seq<Seq<Tok>> {
    streams.map_values(|ts: TokenStream| stream_tokens(ts))
}

/// The word `name` as a token.
pub open spec fn word(name: Seq<char>) -> Tok {
    Tok::Ident(name)
}

/// A punctuation character that stands alone.
pub open spec fn alone(ch: char) -> Tok {
    Tok::Punct(ch, Spacing::Alone)
}

/// A punctuation character joined to the next one.
pub open spec fn joint(ch: char) -> Tok {
    Tok::Punct(ch, Spacing::Joint)
}

/// A group without tokens inside.
pub open spec fn empty_group(delim: Delim) -> Tok {
    Tok::Group(delim, Seq::empty())
}

/// `first :: second`
pub open spec fn path_tokens(first: Seq<char>, second: Seq<char>) -> Seq<Tok> {
    seq![word(first), joint(':'), alone(':'), word(second)]
}

/// `& [Value]`: a slice of runtime values.
pub open spec fn value_slice_tokens() -> Seq<Tok> {
    seq![alone('&'), Tok::Group(Delim::Bracket, seq![word("Value"@)])]
}

/// The host operator that a rule stands for, if it is an operator: `+`, `-`,
/// `*`, `/`, `==`, `>` or `<`.
pub open spec fn operator_tokens(rule: Rule) -> Option<Seq<Tok>> {
    match rule {
        Rule::Add => Some(seq![alone('+')]),
        Rule::Sub => Some(seq![alone('-')]),
        Rule::Mul => Some(seq![alone('*')]),
        Rule::Div => Some(seq![alone('/')]),
        Rule::Eq => Some(seq![joint('='), alone('=')]),
        Rule::Gt => Some(seq![alone('>')]),
        Rule::Lt => Some(seq![alone('<')]),
        _ => None,
    }
}

/// `(inner)`: tokens held together as one unit.
pub open spec fn grouped_tokens(inner: Seq<Tok>) -> Seq<Tok> {
    seq![Tok::Group(Delim::Parenthesis, inner)]
}

/// The tokens of a node of the given rule where they stand as an operand: an
/// operator form is put into parentheses, so that the host reads it as one
/// value whatever operators stand around it; any other node stands as it is.
pub open spec fn operand_tokens(rule: Rule, tokens: Seq<Tok>) -> Seq<Tok> {
    if rule is OpVar {
        grouped_tokens(tokens)
    } else {
        tokens
    }
}

/// Whether the tokens of a node of this rule end in `;` by themselves: the
/// bindings of names and of named functions do.
pub open spec fn ends_in_semicolon(rule: Rule) -> bool {
    rule is Def || rule is TDef || rule is Defn || rule is TDefn
}

/// The tokens of a node of the given rule where they stand as a statement,
/// whose value is dropped: `tokens ;`, with the `;` left out where the
/// tokens end in one already.
pub open spec fn statement_tokens(rule: Rule, tokens: Seq<Tok>) -> Seq<Tok> {
    if ends_in_semicolon(rule) {
        tokens
    } else {
        tokens.push(alone(';'))
    }
}

/// One more operand on a chain: `chain operator operand`.
pub open spec fn chain_step(operator: Seq<Tok>) -> spec_fn(Seq<Tok>, Seq<Tok>) -> Seq<Tok> {
    |chain: Seq<Tok>, operand: Seq<Tok>| chain + operator + operand
}

/// `a op b op c ...`: the operands in order with the operator between
/// neighbours, built up from the left. Meant for at least one operand.
pub open spec fn chain_tokens(operator: Seq<Tok>, operands: Seq<Seq<Tok>>) -> Seq<Tok> {
    operands.drop_first().fold_left(operands[0], chain_step(operator))
}

/// `if condition { then } else { otherwise }`
pub open spec fn conditional_tokens(
    condition: Seq<Tok>,
    then: Seq<Tok>,
    otherwise: Seq<Tok>,
) -> Seq<Tok> {
    seq![word("if"@)] + condition + seq![
        Tok::Group(Delim::Brace, then),
        word("else"@),
        Tok::Group(Delim::Brace, otherwise),
    ]
}

/// `{ items }`
pub open spec fn block_tokens(items: Seq<Tok>) -> Seq<Tok> {
    seq![Tok::Group(Delim::Brace, items)]
}

/// `name : Value`: a name of the general runtime type.
pub open spec fn untyped_tokens(name: Seq<Tok>) -> Seq<Tok> {
    name + seq![alone(':'), word("Value"@)]
}

/// `name : type`
pub open spec fn typed_tokens(name: Seq<Tok>, ty: Seq<Tok>) -> Seq<Tok> {
    name + seq![alone(':')] + ty
}

/// `let pattern = value ;`
pub open spec fn binding_tokens(pattern: Seq<Tok>, value: Seq<Tok>) -> Seq<Tok> {
    seq![word("let"@)] + pattern + seq![alone('=')] + value + seq![alone(';')]
}

/// `args [index] . clone () . into ()`: the argument at a position, coerced
/// to whatever type it is bound to.
pub open spec fn argument_tokens(index: usize) -> Seq<Tok> {
    seq![
        word("args"@),
        Tok::Group(Delim::Bracket, seq![index_literal(index)]),
        alone('.'),
        word("clone"@),
        empty_group(Delim::Parenthesis),
        alone('.'),
        word("into"@),
        empty_group(Delim::Parenthesis),
    ]
}

/// `let parameter = args [index] . clone () . into () ;`
pub open spec fn parameter_tokens(parameter: Seq<Tok>, index: usize) -> Seq<Tok> {
    binding_tokens(parameter, argument_tokens(index))
}

/// `(body) . into ()`: the value of a body as a runtime value.
pub open spec fn coerced_tokens(body: Seq<Tok>) -> Seq<Tok> {
    seq![
        Tok::Group(Delim::Parenthesis, body),
        alone('.'),
        word("into"@),
        empty_group(Delim::Parenthesis),
    ]
}

/// `| args : & [Value] | { body }`
pub open spec fn closure_tokens(body: Seq<Tok>) -> Seq<Tok> {
    seq![alone('|'), word("args"@), alone(':')] + value_slice_tokens() + seq![
        alone('|'),
        Tok::Group(Delim::Brace, body),
    ]
}

/// `Value :: Function (Arc :: new (| args : & [Value] | { body }))`: a
/// function value, shared by reference count, that takes its arguments as
/// one slice of runtime values.
pub open spec fn function_tokens(body: Seq<Tok>) -> Seq<Tok> {
    path_tokens("Value"@, "Function"@).push(
        Tok::Group(
            Delim::Parenthesis,
            path_tokens("Arc"@, "new"@).push(
                Tok::Group(Delim::Parenthesis, closure_tokens(body)),
            ),
        ),
    )
}

/// `Vec < Value >`
pub open spec fn list_type_tokens() -> Seq<Tok> {
    seq![word("Vec"@), alone('<'), word("Value"@), alone('>')]
}

/// `Box < dyn Fn (& [Value]) -> Value >`
pub open spec fn function_type_tokens() -> Seq<Tok> {
    seq![
        word("Box"@),
        alone('<'),
        word("dyn"@),
        word("Fn"@),
        Tok::Group(Delim::Parenthesis, value_slice_tokens()),
        joint('-'),
        alone('>'),
        word("Value"@),
        alone('>'),
    ]
}

/// The host type that a type name stands for. Five names are fixed: `String`
/// is the host's text type, `Number` its 32-bit float, `Bool` its boolean,
/// `List` a vector of runtime values and `Function` a boxed callable from a
/// slice of runtime values to a runtime value. Any other name is handed
/// through as the host type that it is, and stands for nothing only where
/// the host language knows no type of that text.
pub open spec fn type_tokens(name: Seq<char>) -> Option<Seq<Tok>> {
    if name == "String"@ {
        Some(seq![word("String"@)])
    } else if name == "Number"@ {
        Some(seq![word("f32"@)])
    } else if name == "Bool"@ {
        Some(seq![word("bool"@)])
    } else if name == "List"@ {
        Some(list_type_tokens())
    } else if name == "Function"@ {
        Some(function_type_tokens())
    } else {
        host_type(name)
    }
}

/// Appends the word `name`.
fn append_ident(ts: &mut TokenStream, name: &str)
    requires
        is_word(name@),
    ensures
        stream_tokens(*final(ts)) == stream_tokens(*old(ts)).push(Tok::Ident(name@)),
{
    let token = ident_stream(name);
    append_stream(ts, &token);
    assert(stream_tokens(*ts) =~= stream_tokens(*old(ts)).push(Tok::Ident(name@)));
}

/// Appends one punctuation character.
fn append_punct(ts: &mut TokenStream, ch: char, spacing: Spacing)
    requires
        is_punct_char(ch),
    ensures
        stream_tokens(*final(ts)) == stream_tokens(*old(ts)).push(Tok::Punct(ch, spacing)),
{
    let token = punct_stream(ch, spacing);
    append_stream(ts, &token);
    assert(stream_tokens(*ts) =~= stream_tokens(*old(ts)).push(Tok::Punct(ch, spacing)));
}

/// Appends one group that holds the tokens of `inner`.
fn append_group(ts: &mut TokenStream, delim: Delim, inner: TokenStream)
    ensures
        stream_tokens(*final(ts)) == stream_tokens(*old(ts)).push(
            Tok::Group(delim, stream_tokens(inner)),
        ),
{
    let token = group_stream(delim, inner);
    append_stream(ts, &token);
    assert(stream_tokens(*ts) =~= stream_tokens(*old(ts)).push(
        Tok::Group(delim, stream_tokens(inner)),
    ));
}

/// Appends the literal of a position.
fn append_index(ts: &mut TokenStream, index: usize)
    ensures
        stream_tokens(*final(ts)) == stream_tokens(*old(ts)).push(index_literal(index)),
{
    let token = index_stream(index);
    append_stream(ts, &token);
    assert(stream_tokens(*ts) =~= stream_tokens(*old(ts)).push(index_literal(index)));
}

/// Appends `first :: second`.
fn append_path(ts: &mut TokenStream, first: &str, second: &str)
    requires
        is_word(first@),
        is_word(second@),
    ensures
        stream_tokens(*final(ts)) == stream_tokens(*old(ts)) + path_tokens(first@, second@),
{
    append_ident(ts, first);
    append_punct(ts, ':', Spacing::Joint);
    append_punct(ts, ':', Spacing::Alone);
    append_ident(ts, second);
    assert(stream_tokens(*ts) =~= stream_tokens(*old(ts)) + path_tokens(first@, second@));
}

/// Appends `& [Value]`.
fn append_value_slice(ts: &mut TokenStream)
    ensures
        stream_tokens(*final(ts)) == stream_tokens(*old(ts)) + value_slice_tokens(),
{
    let mut inner = stream_new();
    proof {
        reveal_strlit("Value");
    }
    append_ident(&mut inner, "Value");
    assert(stream_tokens(inner) =~= seq![word("Value"@)]);
    append_punct(ts, '&', Spacing::Alone);
    append_group(ts, Delim::Bracket, inner);
    assert(stream_tokens(*ts) =~= stream_tokens(*old(ts)) + value_slice_tokens());
}

/// Appends `()`.
fn append_unit(ts: &mut TokenStream)
    ensures
        stream_tokens(*final(ts)) == stream_tokens(*old(ts)).push(
            empty_group(Delim::Parenthesis),
        ),
{
    let inner = stream_new();
    append_group(ts, Delim::Parenthesis, inner);
}

/// The host operator of an operator rule; `None` for any other rule.
pub fn emit_operator(rule: Rule) -> (out: Option<TokenStream>)
    ensures
        match out {
            Some(ts) => operator_tokens(rule) == Some(stream_tokens(ts)),
            None => operator_tokens(rule) is None,
        },
{
    let mut ts = stream_new();
    match rule {
        Rule::Add => {
            append_punct(&mut ts, '+', Spacing::Alone);
        },
        Rule::Sub => {
            append_punct(&mut ts, '-', Spacing::Alone);
        },
        Rule::Mul => {
            append_punct(&mut ts, '*', Spacing::Alone);
        },
        Rule::Div => {
            append_punct(&mut ts, '/', Spacing::Alone);
        },
        Rule::Eq => {
            append_punct(&mut ts, '=', Spacing::Joint);
            append_punct(&mut ts, '=', Spacing::Alone);
        },
        Rule::Gt => {
            append_punct(&mut ts, '>', Spacing::Alone);
        },
        Rule::Lt => {
            append_punct(&mut ts, '<', Spacing::Alone);
        },
        _ => {
            return None;
        },
    }
    assert(operator_tokens(rule) is Some);
    assert(stream_tokens(ts) =~= operator_tokens(rule).unwrap());
    Some(ts)
}

/// The operands in order with the operator between neighbours: the chain
/// grows from the left, one operand at a time. Fewer than two operands are
/// refused.
pub fn emit_chain(operator: &TokenStream, operands: &Vec<TokenStream>) -> (out: Result<
    TokenStream,
    LowerError,
>)
    ensures
        operands.len() < 2 ==> out == Err::<TokenStream, LowerError>(LowerError::TooFewOperands),
        operands.len() >= 2 ==> out is Ok && stream_tokens(out.unwrap()) == chain_tokens(
            stream_tokens(*operator),
            each_tokens(operands@),
        ),
{
    if operands.len() < 2 {
        return Err(LowerError::TooFewOperands);
    }
    let ghost parts = each_tokens(operands@);
    let ghost step = chain_step(stream_tokens(*operator));
    let mut out = stream_new();
    append_stream(&mut out, &operands[0]);
    assert(stream_tokens(out) =~= parts[0]);
    let mut i: usize = 1;
    while i < operands.len()
        invariant
            1 <= i <= operands.len(),
            parts == each_tokens(operands@),
            step == chain_step(stream_tokens(*operator)),
            stream_tokens(out) == parts.subrange(1, i as int).fold_left(parts[0], step),
        decreases operands.len() - i,
    {
        append_stream(&mut out, operator);
        append_stream(&mut out, &operands[i]);
        proof {
            let next = parts.subrange(1, i + 1);
            assert(next.drop_last() =~= parts.subrange(1, i as int));
            assert(next.last() == parts[i as int]);
        }
        i += 1;
    }
    assert(parts.subrange(1, i as int) =~= parts.drop_first());
    Ok(out)
}

/// `(inner)`
pub fn emit_grouped(inner: TokenStream) -> (out: TokenStream)
    ensures
        stream_tokens(out) == grouped_tokens(stream_tokens(inner)),
{
    let mut out = stream_new();
    append_group(&mut out, Delim::Parenthesis, inner);
    assert(stream_tokens(out) =~= grouped_tokens(stream_tokens(inner)));
    out
}

/// The tokens of a node of the given rule as an operand: an operator form in
/// parentheses, any other node as it is.
pub fn emit_operand(rule: Rule, tokens: TokenStream) -> (out: TokenStream)
    ensures
        stream_tokens(out) == operand_tokens(rule, stream_tokens(tokens)),
{
    match rule {
        Rule::OpVar => emit_grouped(tokens),
        _ => tokens,
    }
}

/// The tokens of a node of the given rule as a statement: followed by `;`
/// unless they end in one already.
pub fn emit_statement(rule: Rule, tokens: TokenStream) -> (out: TokenStream)
    ensures
        stream_tokens(out) == statement_tokens(rule, stream_tokens(tokens)),
{
    let mut out = tokens;
    match rule {
        Rule::Def | Rule::TDef | Rule::Defn | Rule::TDefn => {},
        _ => {
            append_punct(&mut out, ';', Spacing::Alone);
        },
    }
    out
}

/// `if condition { then } else { otherwise }`
pub fn emit_conditional(condition: TokenStream, then: TokenStream, otherwise: TokenStream) -> (out:
    TokenStream)
    ensures
        stream_tokens(out) == conditional_tokens(
            stream_tokens(condition),
            stream_tokens(then),
            stream_tokens(otherwise),
        ),
{
    let mut out = stream_new();
    proof {
        reveal_strlit("if");
        reveal_strlit("else");
    }
    append_ident(&mut out, "if");
    append_stream(&mut out, &condition);
    append_group(&mut out, Delim::Brace, then);
    append_ident(&mut out, "else");
    append_group(&mut out, Delim::Brace, otherwise);
    assert(stream_tokens(out) =~= conditional_tokens(
        stream_tokens(condition),
        stream_tokens(then),
        stream_tokens(otherwise),
    ));
    out
}

/// `{ items }`
pub fn emit_block(items: TokenStream) -> (out: TokenStream)
    ensures
        stream_tokens(out) == block_tokens(stream_tokens(items)),
{
    let mut out = stream_new();
    append_group(&mut out, Delim::Brace, items);
    assert(stream_tokens(out) =~= block_tokens(stream_tokens(items)));
    out
}

/// `name : Value`
pub fn emit_untyped(name: TokenStream) -> (out: TokenStream)
    ensures
        stream_tokens(out) == untyped_tokens(stream_tokens(name)),
{
    let mut out = name;
    proof {
        reveal_strlit("Value");
    }
    append_punct(&mut out, ':', Spacing::Alone);
    append_ident(&mut out, "Value");
    assert(stream_tokens(out) =~= untyped_tokens(stream_tokens(name)));
    out
}

/// `name : type`
pub fn emit_typed(name: TokenStream, ty: &TokenStream) -> (out: TokenStream)
    ensures
        stream_tokens(out) == typed_tokens(stream_tokens(name), stream_tokens(*ty)),
{
    let mut out = name;
    append_punct(&mut out, ':', Spacing::Alone);
    append_stream(&mut out, ty);
    assert(stream_tokens(out) =~= typed_tokens(stream_tokens(name), stream_tokens(*ty)));
    out
}

/// `let pattern = value ;`
pub fn emit_binding(pattern: &TokenStream, value: &TokenStream) -> (out: TokenStream)
    ensures
        stream_tokens(out) == binding_tokens(stream_tokens(*pattern), stream_tokens(*value)),
{
    let mut out = stream_new();
    proof {
        reveal_strlit("let");
    }
    append_ident(&mut out, "let");
    append_stream(&mut out, pattern);
    append_punct(&mut out, '=', Spacing::Alone);
    append_stream(&mut out, value);
    append_punct(&mut out, ';', Spacing::Alone);
    assert(stream_tokens(out) =~= binding_tokens(
        stream_tokens(*pattern),
        stream_tokens(*value),
    ));
    out
}

/// `args [index] . clone () . into ()`
fn emit_argument(index: usize) -> (out: TokenStream)
    ensures
        stream_tokens(out) == argument_tokens(index),
{
    let mut at = stream_new();
    append_index(&mut at, index);
    assert(stream_tokens(at) =~= seq![index_literal(index)]);
    let mut out = stream_new();
    proof {
        reveal_strlit("args");
        reveal_strlit("clone");
        reveal_strlit("into");
    }
    append_ident(&mut out, "args");
    append_group(&mut out, Delim::Bracket, at);
    append_punct(&mut out, '.', Spacing::Alone);
    append_ident(&mut out, "clone");
    append_unit(&mut out);
    append_punct(&mut out, '.', Spacing::Alone);
    append_ident(&mut out, "into");
    append_unit(&mut out);
    assert(stream_tokens(out) =~= argument_tokens(index));
    out
}

/// `let parameter = args [index] . clone () . into () ;`: binds a parameter
/// to the argument at its position.
pub fn emit_parameter(parameter: &TokenStream, index: usize) -> (out: TokenStream)
    ensures
        stream_tokens(out) == parameter_tokens(stream_tokens(*parameter), index),
{
    let argument = emit_argument(index);
    emit_binding(parameter, &argument)
}

/// `(body) . into ()`
pub fn emit_coerced(body: TokenStream) -> (out: TokenStream)
    ensures
        stream_tokens(out) == coerced_tokens(stream_tokens(body)),
{
    let mut out = stream_new();
    proof {
        reveal_strlit("into");
    }
    append_group(&mut out, Delim::Parenthesis, body);
    append_punct(&mut out, '.', Spacing::Alone);
    append_ident(&mut out, "into");
    append_unit(&mut out);
    assert(stream_tokens(out) =~= coerced_tokens(stream_tokens(body)));
    out
}

/// `Value :: Function (Arc :: new (| args : & [Value] | { body }))`
pub fn emit_function(body: TokenStream) -> (out: TokenStream)
    ensures
        stream_tokens(out) == function_tokens(stream_tokens(body)),
{
    proof {
        reveal_strlit("args");
        reveal_strlit("Arc");
        reveal_strlit("new");
        reveal_strlit("Value");
        reveal_strlit("Function");
    }
    let mut closure = stream_new();
    append_punct(&mut closure, '|', Spacing::Alone);
    append_ident(&mut closure, "args");
    append_punct(&mut closure, ':', Spacing::Alone);
    append_value_slice(&mut closure);
    append_punct(&mut closure, '|', Spacing::Alone);
    append_group(&mut closure, Delim::Brace, body);
    assert(stream_tokens(closure) =~= closure_tokens(stream_tokens(body)));
    let mut shared = stream_new();
    append_path(&mut shared, "Arc", "new");
    append_group(&mut shared, Delim::Parenthesis, closure);
    assert(stream_tokens(shared) =~= path_tokens("Arc"@, "new"@).push(
        Tok::Group(Delim::Parenthesis, closure_tokens(stream_tokens(body))),
    ));
    let mut out = stream_new();
    append_path(&mut out, "Value", "Function");
    append_group(&mut out, Delim::Parenthesis, shared);
    assert(stream_tokens(out) =~= function_tokens(stream_tokens(body)));
    out
}

/// The host type that a type name stands for, by the fixed table of
/// [`type_tokens`]; a name outside the table is handed through as the host
/// type of that name.
pub fn emit_type(name: &str) -> (out: Option<TokenStream>)
    ensures
        match out {
            Some(ts) => type_tokens(name@) == Some(stream_tokens(ts)),
            None => type_tokens(name@) is None,
        },
{
    let mut out = stream_new();
    if same_text(name, "String") {
        proof {
            reveal_strlit("String");
        }
        append_ident(&mut out, "String");
        assert(stream_tokens(out) =~= seq![word("String"@)]);
        Some(out)
    } else if same_text(name, "Number") {
        proof {
            reveal_strlit("f32");
        }
        append_ident(&mut out, "f32");
        assert(stream_tokens(out) =~= seq![word("f32"@)]);
        Some(out)
    } else if same_text(name, "Bool") {
        proof {
            reveal_strlit("bool");
        }
        append_ident(&mut out, "bool");
        assert(stream_tokens(out) =~= seq![word("bool"@)]);
        Some(out)
    } else if same_text(name, "List") {
        proof {
            reveal_strlit("Vec");
            reveal_strlit("Value");
        }
        append_ident(&mut out, "Vec");
        append_punct(&mut out, '<', Spacing::Alone);
        append_ident(&mut out, "Value");
        append_punct(&mut out, '>', Spacing::Alone);
        assert(stream_tokens(out) =~= list_type_tokens());
        Some(out)
    } else if same_text(name, "Function") {
        proof {
            reveal_strlit("Box");
            reveal_strlit("dyn");
            reveal_strlit("Fn");
            reveal_strlit("Value");
        }
        let mut takes = stream_new();
        append_value_slice(&mut takes);
        assert(stream_tokens(takes) =~= value_slice_tokens());
        append_ident(&mut out, "Box");
        append_punct(&mut out, '<', Spacing::Alone);
        append_ident(&mut out, "dyn");
        append_ident(&mut out, "Fn");
        append_group(&mut out, Delim::Parenthesis, takes);
        append_punct(&mut out, '-', Spacing::Joint);
        append_punct(&mut out, '>', Spacing::Alone);
        append_ident(&mut out, "Value");
        append_punct(&mut out, '>', Spacing::Alone);
        assert(stream_tokens(out) =~= function_type_tokens());
        Some(out)
    } else {
        parse_type(name)
    }
}

} // verus!
