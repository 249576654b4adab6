//! The parser: from source text to a parse tree, by the grammar of
//! [`crate::grammar`].

use crate::error::ParseError;
use crate::grammar::{
    atom, blank_len, bool_len, compound, define_name, digit_len, form, forms, head, is_at,
    is_name_char, is_name_start, is_space, is_upper, leaf, left, name_len, number_len,
    operator_at, parameter, parameter_list, parameters, parse_outcome, program, skip_blank,
    string_len, string_rest, symbol_len, symbol_type, type_name_len, word_at, Match,
};
use crate::shape::{parsed_tree_is_well_formed, well_formed};
use crate::text::chars_of;
use crate::tokens::is_ascii_digit;
use crate::tree::{lemma_trees_push, trees, Node, Rule, Tree};
use vstd::prelude::*;
use vstd::string::StrSliceExecFns;

verus! {

/// Whether an executable result is what the grammar says of the rule tried
/// at `at`: the same node and the position behind the match, or no match.
spec fn matched(expected: Match, at: usize, limit: nat, got: Option<(Node, usize)>) -> bool {
    match got {
        Some((node, next)) => at <= next <= limit && expected == Some(
            (node@, (next - at) as nat),
        ),
        None => expected is None,
    }
}

/// Whether an executable result is the length that the grammar gives at
/// `at`, as the position behind the match.
spec fn measured(expected: Option<nat>, at: usize, limit: nat, got: Option<usize>) -> bool {
    match got {
        Some(next) => at <= next <= limit && expected == Some((next - at) as nat),
        None => expected is None,
    }
}

fn space_char(c: char) -> (r: bool)
    ensures
        r == is_space(c),
{
    c == ' ' || c == '\t' || c == '\n' || c == '\r'
}

fn digit_char(c: char) -> (r: bool)
    ensures
        r == is_ascii_digit(c),
{
    '0' <= c && c <= '9'
}

fn upper_char(c: char) -> (r: bool)
    ensures
        r == is_upper(c),
{
    'A' <= c && c <= 'Z'
}

fn name_start_char(c: char) -> (r: bool)
    ensures
        r == is_name_start(c),
{
    ('a' <= c && c <= 'z') || ('A' <= c && c <= 'Z') || c == '_'
}

fn name_char(c: char) -> (r: bool)
    ensures
        r == is_name_char(c),
{
    name_start_char(c) || digit_char(c)
}

/// The first position from `at` on that is not blank space.
fn skip_blank_from(chars: &Vec<char>, at: usize) -> (next: usize)
    requires
        at <= chars.len(),
    ensures
        next == skip_blank(chars@, at as int),
        at <= next <= chars.len(),
{
    let mut i = at;
    let mut in_comment = false;
    while i < chars.len()
        invariant
            at <= i <= chars.len(),
            skip_blank(chars@, at as int) == i + blank_len(chars@, i as int, in_comment),
        decreases chars.len() - i,
    {
        let c = chars[i];
        if in_comment {
            in_comment = c != '\n';
        } else if space_char(c) {
        } else if c == ';' {
            in_comment = true;
        } else {
            return i;
        }
        i += 1;
    }
    i
}

/// The position behind the run of name characters that starts at `at`.
fn name_end(chars: &Vec<char>, at: usize) -> (next: usize)
    requires
        at <= chars.len(),
    ensures
        next == at + name_len(chars@, at as int),
        at <= next <= chars.len(),
{
    let mut i = at;
    while i < chars.len() && name_char(chars[i])
        invariant
            at <= i <= chars.len(),
            at + name_len(chars@, at as int) == i + name_len(chars@, i as int),
        decreases chars.len() - i,
    {
        i += 1;
    }
    i
}

/// The position behind the run of digits that starts at `at`.
fn digit_end(chars: &Vec<char>, at: usize) -> (next: usize)
    requires
        at <= chars.len(),
    ensures
        next == at + digit_len(chars@, at as int),
        at <= next <= chars.len(),
{
    let mut i = at;
    while i < chars.len() && digit_char(chars[i])
        invariant
            at <= i <= chars.len(),
            at + digit_len(chars@, at as int) == i + digit_len(chars@, i as int),
        decreases chars.len() - i,
    {
        i += 1;
    }
    i
}

/// Whether the word `w` stands at `at` and ends there as a name would.
fn at_word(chars: &Vec<char>, at: usize, w: &str) -> (r: bool)
    requires
        at <= chars.len(),
    ensures
        r == word_at(chars@, at as int, w@),
{
    let n = w.unicode_len();
    if n > chars.len() - at {
        return false;
    }
    let mut j: usize = 0;
    while j < n
        invariant
            j <= n,
            n == w@.len(),
            at + n <= chars.len(),
            forall|k: int| 0 <= k < j ==> chars@[at + k] == w@[k],
        decreases n - j,
    {
        if chars[at + j] != w.get_char(j) {
            assert(chars@.subrange(at as int, at + n)[j as int] != w@[j as int]);
            return false;
        }
        j += 1;
    }
    assert(chars@.subrange(at as int, at + n) =~= w@);
    !(at + n < chars.len() && name_char(chars[at + n]))
}

/// `symbol`: the position behind the name that starts at `at`.
fn symbol_end(chars: &Vec<char>, at: usize) -> (r: Option<usize>)
    requires
        at <= chars.len(),
    ensures
        measured(symbol_len(chars@, at as int), at, chars@.len(), r),
        r is Some ==> r.unwrap() > at,
{
    if at < chars.len() && name_start_char(chars[at]) {
        Some(name_end(chars, at + 1))
    } else {
        None
    }
}

/// `type_name`: the position behind the capitalised name that starts at `at`.
fn type_name_end(chars: &Vec<char>, at: usize) -> (r: Option<usize>)
    requires
        at <= chars.len(),
    ensures
        measured(type_name_len(chars@, at as int), at, chars@.len(), r),
        r is Some ==> r.unwrap() > at,
{
    if at < chars.len() && upper_char(chars[at]) {
        Some(name_end(chars, at + 1))
    } else {
        None
    }
}

/// `number`: the position behind the number that starts at `at`.
fn number_end(chars: &Vec<char>, at: usize) -> (r: Option<usize>)
    requires
        at <= chars.len(),
    ensures
        measured(number_len(chars@, at as int), at, chars@.len(), r),
        r is Some ==> r.unwrap() > at,
{
    let whole = digit_end(chars, at);
    if whole == at {
        return None;
    }
    if whole < chars.len() && chars[whole] == '.' {
        let fraction = digit_end(chars, whole + 1);
        if fraction > whole + 1 {
            return Some(fraction);
        }
    }
    Some(whole)
}

/// `string`: the position behind the string literal that starts at `at`.
fn string_end(chars: &Vec<char>, at: usize) -> (r: Option<usize>)
    requires
        at <= chars.len(),
    ensures
        measured(string_len(chars@, at as int), at, chars@.len(), r),
        r is Some ==> r.unwrap() > at,
{
    if !(at < chars.len() && chars[at] == '"') {
        return None;
    }
    let mut i = at + 1;
    while i < chars.len()
        invariant
            at < i <= chars.len(),
            is_at(chars@, at as int, '"'),
            string_rest(chars@, at + 1) == match string_rest(chars@, i as int) {
                Some(n) => Some((i - at - 1 + n) as nat),
                None => None,
            },
        decreases chars.len() - i,
    {
        let c = chars[i];
        if c == '"' {
            return Some(i + 1);
        } else if c == '\\' {
            if i + 1 < chars.len() {
                i += 2;
            } else {
                return None;
            }
        } else {
            i += 1;
        }
    }
    None
}

/// `bool`: the position behind `true` or `false` at `at`.
fn bool_end(chars: &Vec<char>, at: usize) -> (r: Option<usize>)
    requires
        at <= chars.len(),
    ensures
        measured(bool_len(chars@, at as int), at, chars@.len(), r),
        r is Some ==> r.unwrap() > at,
{
    proof {
        reveal_strlit("true");
        reveal_strlit("false");
    }
    if at_word(chars, at, "true") {
        Some(at + 4)
    } else if at_word(chars, at, "false") {
        Some(at + 5)
    } else {
        None
    }
}

/// `operator`: the rule of the operator character at `at`.
fn operator_rule(chars: &Vec<char>, at: usize) -> (r: Option<Rule>)
    requires
        at <= chars.len(),
    ensures
        r == operator_at(chars@, at as int),
        r is Some ==> at < chars.len(),
{
    if at >= chars.len() {
        return None;
    }
    let c = chars[at];
    if c == '+' {
        Some(Rule::Add)
    } else if c == '-' {
        Some(Rule::Sub)
    } else if c == '*' {
        Some(Rule::Mul)
    } else if c == '/' {
        Some(Rule::Div)
    } else if c == '=' {
        Some(Rule::Eq)
    } else if c == '>' {
        Some(Rule::Gt)
    } else if c == '<' {
        Some(Rule::Lt)
    } else {
        None
    }
}

/// A node without children for the text from `at` to `next`.
fn leaf_node(src: &str, rule: Rule, at: usize, next: usize) -> (node: Node)
    requires
        at <= next <= src@.len(),
    ensures
        node@ == leaf(rule, src@, at as int, (next - at) as nat),
{
    Node::leaf(rule, src.substring_char(at, next))
}

/// A rule without children, where the position behind its match is known.
fn leaf_found(src: &str, rule: Rule, at: usize, end: Option<usize>) -> (r: Option<(Node, usize)>)
    requires
        end matches Some(next) ==> at <= next <= src@.len(),
    ensures
        end matches Some(next) ==> r matches Some((node, behind)) && behind == next && node@
            == leaf(rule, src@, at as int, (next - at) as nat),
        end is None ==> r is None,
{
    match end {
        Some(next) => Some((leaf_node(src, rule, at, next), next)),
        None => None,
    }
}

/// The heads or items found so far, with the position behind them, are what
/// the grammar gives.
spec fn found_all(expected: (Seq<Tree>, int), got: (Vec<Node>, usize)) -> bool {
    expected == (trees(got.0@), got.1 as int)
}

/// The nodes and the position behind them are what the grammar gives, or
/// there is no match.
spec fn found_some(
    expected: Option<(Seq<Tree>, int)>,
    limit: nat,
    got: Option<(Vec<Node>, usize)>,
) -> bool {
    match got {
        Some((nodes, behind)) => behind <= limit && expected == Some(
            (trees(nodes@), behind as int),
        ),
        None => expected is None,
    }
}

/// `string | number | bool | symbol` at `at`.
fn parse_atom(src: &str, chars: &Vec<char>, at: usize) -> (r: Option<(Node, usize)>)
    requires
        chars@ == src@,
        at <= chars.len(),
    ensures
        matched(atom(src@, at as int), at, src@.len(), r),
{
    match string_end(chars, at) {
        Some(next) => {
            return Some((leaf_node(src, Rule::String, at, next), next));
        },
        None => {},
    }
    match number_end(chars, at) {
        Some(next) => {
            return Some((leaf_node(src, Rule::Number, at, next), next));
        },
        None => {},
    }
    match bool_end(chars, at) {
        Some(next) => {
            return Some((leaf_node(src, Rule::Bool, at, next), next));
        },
        None => {},
    }
    match symbol_end(chars, at) {
        Some(next) => Some((leaf_node(src, Rule::Symbol, at, next), next)),
        None => None,
    }
}

/// `symbol_type` at `at`.
fn parse_symbol_type(src: &str, chars: &Vec<char>, at: usize) -> (r: Option<(Node, usize)>)
    requires
        chars@ == src@,
        at <= chars.len(),
    ensures
        matched(symbol_type(src@, at as int), at, src@.len(), r),
        r matches Some((_, next)) ==> next > at,
{
    let name_end = match symbol_end(chars, at) {
        Some(next) => next,
        None => {
            return None;
        },
    };
    let type_start = skip_blank_from(chars, name_end);
    let type_end = match type_name_end(chars, type_start) {
        Some(next) => next,
        None => {
            return None;
        },
    };
    let mut children: Vec<Node> = Vec::new();
    children.push(leaf_node(src, Rule::Symbol, at, name_end));
    children.push(leaf_node(src, Rule::TypeName, type_start, type_end));
    let node = Node::branch(Rule::SymbolType, src.substring_char(at, type_end), children);
    assert(node@.children =~= seq![
        leaf(Rule::Symbol, src@, at as int, (name_end - at) as nat),
        leaf(Rule::TypeName, src@, type_start as int, (type_end - type_start) as nat),
    ]);
    Some((node, type_end))
}

/// One parameter at `at`.
fn parse_parameter(src: &str, chars: &Vec<char>, at: usize, typed_only: bool) -> (r: Option<
    (Node, usize),
>)
    requires
        chars@ == src@,
        at <= chars.len(),
    ensures
        matched(parameter(src@, at as int, typed_only), at, src@.len(), r),
{
    match parse_symbol_type(src, chars, at) {
        Some(found) => Some(found),
        None => if typed_only {
            None
        } else {
            match symbol_end(chars, at) {
                Some(next) => Some((leaf_node(src, Rule::Symbol, at, next), next)),
                None => None,
            }
        },
    }
}

/// As many parameters as match from `start` on.
fn parse_parameters(
    src: &str,
    chars: &Vec<char>,
    start: usize,
    typed_only: bool,
    before: usize,
) -> (r: (Vec<Node>, usize))
    requires
        chars@ == src@,
        start <= chars.len(),
        before <= chars.len(),
    ensures
        found_all(parameters(src@, start as int, typed_only, Seq::empty(), before as int), r),
        r.1 <= chars.len(),
{
    let mut found: Vec<Node> = Vec::new();
    let mut at = start;
    let mut end = before;
    assert(trees(found@) =~= Seq::empty());
    loop
        invariant
            chars@ == src@,
            at <= chars.len(),
            end <= chars.len(),
            parameters(src@, start as int, typed_only, Seq::empty(), before as int) == parameters(
                src@,
                at as int,
                typed_only,
                trees(found@),
                end as int,
            ),
        decreases chars.len() - at,
    {
        match parse_parameter(src, chars, at, typed_only) {
            Some((node, next)) => {
                if next > at {
                    proof {
                        lemma_trees_push(found@, node);
                    }
                    found.push(node);
                    end = next;
                    at = skip_blank_from(chars, next);
                } else {
                    return (found, end);
                }
            },
            None => {
                return (found, end);
            },
        }
    }
}

/// `[ parameter* ]` at `at`.
fn parse_parameter_list(src: &str, chars: &Vec<char>, at: usize, typed_only: bool) -> (r: Option<
    (Vec<Node>, usize),
>)
    requires
        chars@ == src@,
        at <= chars.len(),
    ensures
        found_some(parameter_list(src@, at as int, typed_only), src@.len(), r),
{
    if !(at < chars.len() && chars[at] == '[') {
        return None;
    }
    let first = skip_blank_from(chars, at + 1);
    let (found, end) = parse_parameters(src, chars, first, typed_only, at + 1);
    let close = skip_blank_from(chars, end);
    if close < chars.len() && chars[close] == ']' && (!typed_only || found.len() >= 1) {
        Some((found, close + 1))
    } else {
        None
    }
}

/// `define name` at `at`.
fn parse_define_name(src: &str, chars: &Vec<char>, at: usize) -> (r: Option<(Node, usize)>)
    requires
        chars@ == src@,
        at <= chars.len(),
    ensures
        match r {
            Some((node, behind)) => behind <= chars.len() && define_name(src@, at as int) == Some(
                (node@, behind as int),
            ),
            None => define_name(src@, at as int) is None,
        },
{
    proof {
        reveal_strlit("define");
    }
    if !at_word(chars, at, "define") {
        return None;
    }
    let name_start = skip_blank_from(chars, at + 6);
    match symbol_end(chars, name_start) {
        Some(next) => Some((leaf_node(src, Rule::Symbol, name_start, next), next)),
        None => None,
    }
}

/// The head of a compound form that opens at `at`.
fn parse_head(src: &str, chars: &Vec<char>, at: usize, rule: Rule) -> (r: Option<
    (Vec<Node>, usize),
>)
    requires
        chars@ == src@,
        at <= chars.len(),
    ensures
        found_some(head(src@, at as int, rule), src@.len(), r),
{
    let open = match rule {
        Rule::List => '[',
        _ => '(',
    };
    if !(at < chars.len() && chars[at] == open) {
        return None;
    }
    let p = skip_blank_from(chars, at + 1);
    let mut heads: Vec<Node> = Vec::new();
    assert(trees(heads@) =~= Seq::empty());
    proof {
        reveal_strlit("if");
        reveal_strlit("fn");
        reveal_strlit("define");
    }
    match rule {
        Rule::List => Some((heads, at + 1)),
        Rule::IfB => if at_word(chars, p, "if") {
            Some((heads, p + 2))
        } else {
            None
        },
        Rule::OpVar => match operator_rule(chars, p) {
            Some(operator) => {
                heads.push(leaf_node(src, operator, p, p + 1));
                assert(trees(heads@) =~= seq![leaf(operator, src@, p as int, 1)]);
                Some((heads, p + 1))
            },
            None => None,
        },
        Rule::SExpr => match symbol_end(chars, p) {
            Some(next) => {
                heads.push(leaf_node(src, Rule::Symbol, p, next));
                assert(trees(heads@) =~= seq![
                    leaf(Rule::Symbol, src@, p as int, (next - p) as nat),
                ]);
                Some((heads, next))
            },
            None => None,
        },
        Rule::Def => match parse_define_name(src, chars, p) {
            Some((name, behind)) => {
                heads.push(name);
                assert(trees(heads@) =~= seq![name@]);
                Some((heads, behind))
            },
            None => None,
        },
        Rule::TDef => if at_word(chars, p, "define") {
            let q = skip_blank_from(chars, p + 6);
            match parse_symbol_type(src, chars, q) {
                Some((typed, next)) => {
                    heads.push(typed);
                    assert(trees(heads@) =~= seq![typed@]);
                    Some((heads, next))
                },
                None => None,
            }
        } else {
            None
        },
        Rule::Defn | Rule::TDefn => match parse_define_name(src, chars, p) {
            Some((name, behind)) => {
                let list_start = skip_blank_from(chars, behind);
                let typed_only = match rule {
                    Rule::TDefn => true,
                    _ => false,
                };
                match parse_parameter_list(src, chars, list_start, typed_only) {
                    Some((mut found, end)) => {
                        let ghost parameters = trees(found@);
                        found.insert(0, name);
                        assert(trees(found@) =~= seq![name@] + parameters);
                        Some((found, end))
                    },
                    None => None,
                }
            },
            None => None,
        },
        Rule::Fun | Rule::TFun => {
            let word_end = if at_word(chars, p, "fn") {
                p + 2
            } else if at_word(chars, p, "define") {
                p + 6
            } else {
                return None;
            };
            let list_start = skip_blank_from(chars, word_end);
            let typed_only = match rule {
                Rule::TFun => true,
                _ => false,
            };
            parse_parameter_list(src, chars, list_start, typed_only)
        },
        _ => None,
    }
}

/// A compound form of the given rule that opens at `at`.
fn parse_compound(src: &str, chars: &Vec<char>, at: usize, rule: Rule) -> (r: Option<
    (Node, usize),
>)
    requires
        chars@ == src@,
        at <= chars.len(),
    ensures
        matched(compound(src@, at as int, rule), at, src@.len(), r),
    decreases left(src@, at as int), 1int,
{
    let (heads, behind) = match parse_head(src, chars, at, rule) {
        Some(found) => found,
        None => {
            return None;
        },
    };
    if behind <= at || at >= chars.len() {
        return None;
    }
    let first = skip_blank_from(chars, behind);
    let (items, end) = parse_forms(src, chars, first, behind);
    let close = skip_blank_from(chars, end);
    let shut = match rule {
        Rule::List => ']',
        _ => ')',
    };
    let count = items.len();
    let enough = match rule {
        Rule::IfB => count == 3,
        Rule::OpVar => count >= 2,
        Rule::SExpr | Rule::List => true,
        _ => count == 1,
    };
    if close < chars.len() && chars[close] == shut && enough {
        let mut children = heads;
        let mut items = items;
        let ghost head_trees = trees(children@);
        let ghost item_trees = trees(items@);
        children.append(&mut items);
        assert(trees(children@) =~= head_trees + item_trees);
        let node = Node::branch(rule, src.substring_char(at, close + 1), children);
        Some((node, close + 1))
    } else {
        None
    }
}

/// `form` at `at`: the alternatives in the order of the grammar.
fn parse_form(src: &str, chars: &Vec<char>, at: usize) -> (r: Option<(Node, usize)>)
    requires
        chars@ == src@,
        at <= chars.len(),
    ensures
        matched(form(src@, at as int), at, src@.len(), r),
    decreases left(src@, at as int), 2int,
{
    match parse_compound(src, chars, at, Rule::IfB) {
        Some(found) => {
            return Some(found);
        },
        None => {},
    }
    match parse_compound(src, chars, at, Rule::TDefn) {
        Some(found) => {
            return Some(found);
        },
        None => {},
    }
    match parse_compound(src, chars, at, Rule::Defn) {
        Some(found) => {
            return Some(found);
        },
        None => {},
    }
    match parse_compound(src, chars, at, Rule::TDef) {
        Some(found) => {
            return Some(found);
        },
        None => {},
    }
    match parse_compound(src, chars, at, Rule::Def) {
        Some(found) => {
            return Some(found);
        },
        None => {},
    }
    match parse_compound(src, chars, at, Rule::TFun) {
        Some(found) => {
            return Some(found);
        },
        None => {},
    }
    match parse_compound(src, chars, at, Rule::Fun) {
        Some(found) => {
            return Some(found);
        },
        None => {},
    }
    match parse_compound(src, chars, at, Rule::OpVar) {
        Some(found) => {
            return Some(found);
        },
        None => {},
    }
    match parse_compound(src, chars, at, Rule::SExpr) {
        Some(found) => {
            return Some(found);
        },
        None => {},
    }
    match parse_compound(src, chars, at, Rule::List) {
        Some(found) => {
            return Some(found);
        },
        None => {},
    }
    parse_atom(src, chars, at)
}

/// `form*` from `start` on.
fn parse_forms(src: &str, chars: &Vec<char>, start: usize, before: usize) -> (r: (
    Vec<Node>,
    usize,
))
    requires
        chars@ == src@,
        before <= start <= chars.len(),
    ensures
        found_all(forms(src@, start as int, Seq::empty(), before as int), r),
        before <= r.1 <= chars.len(),
    decreases left(src@, start as int), 3int,
{
    let mut found: Vec<Node> = Vec::new();
    let mut at = start;
    let mut end = before;
    assert(trees(found@) =~= Seq::empty());
    loop
        invariant
            chars@ == src@,
            start <= at <= chars.len(),
            before <= end <= at,
            forms(src@, start as int, Seq::empty(), before as int) == forms(
                src@,
                at as int,
                trees(found@),
                end as int,
            ),
        decreases chars.len() - at,
    {
        if at >= chars.len() {
            return (found, end);
        }
        match parse_form(src, chars, at) {
            Some((node, next)) => {
                if next > at {
                    proof {
                        lemma_trees_push(found@, node);
                    }
                    found.push(node);
                    end = next;
                    at = skip_blank_from(chars, next);
                } else {
                    return (found, end);
                }
            },
            None => {
                return (found, end);
            },
        }
    }
}

/// `program`: the forms of the whole text, then the end of input.
fn parse_program(src: &str, chars: &Vec<char>) -> (r: Result<Node, ParseError>)
    requires
        chars@ == src@,
    ensures
        match r {
            Ok(node) => program(src@) == Ok::<Tree, ParseError>(node@),
            Err(e) => program(src@) == Err::<Tree, ParseError>(e),
        },
{
    let first = skip_blank_from(chars, 0);
    let (items, end) = parse_forms(src, chars, first, 0);
    let stop = skip_blank_from(chars, end);
    if stop == chars.len() {
        let mut children = items;
        let end_of_input = leaf_node(src, Rule::EOI, stop, stop);
        proof {
            lemma_trees_push(children@, end_of_input);
        }
        children.push(end_of_input);
        let node = Node::branch(Rule::Program, src, children);
        Ok(node)
    } else {
        Err(ParseError { rule: Rule::EOI, position: stop })
    }
}

/// The parser of the surface language.
pub struct CrispParser;

impl CrispParser {
    /// Parses `input` by `rule`, as [`parse_outcome`] says.
    ///
    /// For [`Rule::Program`] the result is `Ok` exactly where the whole text
    /// is a sequence of forms, and holds the one node of the program; text
    /// behind the last form is refused, with the position where the end of
    /// input was expected. For any other rule the result is `Ok` exactly
    /// where the rule matches at the start of the text.
    ///
    /// The node that comes out is of the rule asked for and well formed:
    /// every node in it has the children that its rule asks for.
    pub fn parse(rule: Rule, input: &str) -> (r: Result<Vec<Node>, ParseError>)
        ensures
            match r {
                Ok(nodes) => nodes@.len() == 1 && parse_outcome(input@, rule) == Ok::<
                    Tree,
                    ParseError,
                >(nodes@[0]@) && nodes@[0]@.rule == rule && well_formed(nodes@[0]@),
                Err(e) => parse_outcome(input@, rule) == Err::<Tree, ParseError>(e),
            },
    {
        proof {
            if parse_outcome(input@, rule) is Ok {
                parsed_tree_is_well_formed(input@, rule);
            }
        }
        let chars = chars_of(input);
        let found = match rule {
            Rule::Program => {
                let node = parse_program(input, &chars)?;
                let mut nodes: Vec<Node> = Vec::new();
                nodes.push(node);
                return Ok(nodes);
            },
            Rule::EOI => if chars.len() == 0 {
                Some((leaf_node(input, Rule::EOI, 0, 0), 0))
            } else {
                None
            },
            Rule::Symbol => leaf_found(input, rule, 0, symbol_end(&chars, 0)),
            Rule::TypeName => leaf_found(input, rule, 0, type_name_end(&chars, 0)),
            Rule::Number => leaf_found(input, rule, 0, number_end(&chars, 0)),
            Rule::String => leaf_found(input, rule, 0, string_end(&chars, 0)),
            Rule::Bool => leaf_found(input, rule, 0, bool_end(&chars, 0)),
            Rule::SymbolType => parse_symbol_type(input, &chars, 0),
            Rule::Add | Rule::Sub | Rule::Mul | Rule::Div | Rule::Eq | Rule::Gt | Rule::Lt => {
                match operator_rule(&chars, 0) {
                    Some(operator) => if operator == rule {
                        Some((leaf_node(input, rule, 0, 1), 1))
                    } else {
                        None
                    },
                    None => None,
                }
            },
            _ => parse_compound(input, &chars, 0, rule),
        };
        match found {
            Some((node, _)) => {
                let mut nodes: Vec<Node> = Vec::new();
                nodes.push(node);
                Ok(nodes)
            },
            None => Err(ParseError { rule, position: 0 }),
        }
    }
}

} // verus!
