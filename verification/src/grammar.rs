//! The grammar of the surface language, as functions on characters.
//!
//! The grammar is a parsing expression grammar: every rule either matches at
//! a position, in exactly one way, or does not match there; a choice takes
//! the first alternative that matches; a repetition takes as many items as
//! match. Blank space (whitespace, and comments from `;` to the end of the
//! line) may stand between any two tokens.
//!
//! ```text
//! program     = form* EOI
//! form        = ifb | tdefn | defn | tdef | def | tfun | fun | opvar
//!             | sexpr | list | string | number | bool | symbol
//! ifb         = "(" "if" form form form ")"
//! tdefn       = "(" "define" symbol "[" symbol_type+ "]" form ")"
//! defn        = "(" "define" symbol "[" (symbol_type | symbol)* "]" form ")"
//! tdef        = "(" "define" symbol_type form ")"
//! def         = "(" "define" symbol form ")"
//! tfun        = "(" ("fn" | "define") "[" symbol_type+ "]" form ")"
//! fun         = "(" ("fn" | "define") "[" (symbol_type | symbol)* "]" form ")"
//! opvar       = "(" operator form form+ ")"
//! sexpr       = "(" symbol form* ")"
//! list        = "[" form* "]"
//! operator    = "+" | "-" | "*" | "/" | "=" | ">" | "<"
//! symbol_type = symbol type_name
//! symbol      = (letter | "_") (letter | digit | "_")*
//! type_name   = upper (letter | digit | "_")*
//! number      = digit+ ("." digit+)?
//! string      = '"' ('\' any | any but '"' and '\')* '"'
//! bool        = "true" | "false"
//! ```
//!
//! The words `if`, `fn`, `define`, `true` and `false` end where a name would
//! end: `iffy` is a symbol.

use crate::error::ParseError;
use crate::tokens::{is_ascii_digit, is_ascii_letter};
use crate::tree::{Rule, Tree};
use vstd::prelude::*;

verus! {

/// What a rule gives where it matches: the node, and how many characters the
/// match covers.
pub type Match = Option<(Tree, nat)>;

/// Whitespace.
pub open spec fn is_space(c: char) -> bool {
    c == ' ' || c == '\t' || c == '\n' || c == '\r'
}

/// A capital letter.
pub open spec fn is_upper(c: char) -> bool {
    'A' <= c && c <= 'Z'
}

/// A character that can start a name.
pub open spec fn is_name_start(c: char) -> bool {
    is_ascii_letter(c) || c == '_'
}

/// A character that can continue a name.
pub open spec fn is_name_char(c: char) -> bool {
    is_name_start(c) || is_ascii_digit(c)
}

/// Whether the character at `at` is `c`.
pub open spec fn is_at(s: Seq<char>, at: int, c: char) -> bool {
    0 <= at < s.len() && s[at] == c
}

/// How many characters are left from `at` on.
pub open spec fn left(s: Seq<char>, at: int) -> nat {
    if 0 <= at < s.len() {
        (s.len() - at) as nat
    } else {
        0
    }
}

/// The first of two matches that is one.
pub open spec fn or_else(first: Match, second: Match) -> Match {
    if first is Some {
        first
    } else {
        second
    }
}

/// The length of the blank space that starts at `at`: whitespace, and
/// comments, which run from `;` to the end of the line. With `in_comment`
/// the position is inside a comment already.
pub open spec fn blank_len(s: Seq<char>, at: int, in_comment: bool) -> nat
    decreases s.len() - at,
{
    if at < 0 || at >= s.len() {
        0
    } else if in_comment {
        1 + blank_len(s, at + 1, s[at] != '\n')
    } else if is_space(s[at]) {
        1 + blank_len(s, at + 1, false)
    } else if s[at] == ';' {
        1 + blank_len(s, at + 1, true)
    } else {
        0
    }
}

/// The first position from `at` on that is not blank space.
pub open spec fn skip_blank(s: Seq<char>, at: int) -> int {
    at + blank_len(s, at, false)
}

/// The length of the run of name characters that starts at `at`.
pub open spec fn name_len(s: Seq<char>, at: int) -> nat
    decreases s.len() - at,
{
    if 0 <= at < s.len() && is_name_char(s[at]) {
        1 + name_len(s, at + 1)
    } else {
        0
    }
}

/// The length of the run of digits that starts at `at`.
pub open spec fn digit_len(s: Seq<char>, at: int) -> nat
    decreases s.len() - at,
{
    if 0 <= at < s.len() && is_ascii_digit(s[at]) {
        1 + digit_len(s, at + 1)
    } else {
        0
    }
}

/// Whether the word `w` stands at `at` and ends there as a name would.
pub open spec fn word_at(s: Seq<char>, at: int, w: Seq<char>) -> bool {
    &&& 0 <= at
    &&& at + w.len() <= s.len()
    &&& s.subrange(at, at + w.len()) == w
    &&& !(at + w.len() < s.len() && is_name_char(s[at + w.len()]))
}

/// A node without children that covers `n` characters from `at` on.
pub open spec fn leaf(rule: Rule, s: Seq<char>, at: int, n: nat) -> Tree {
    Tree { rule, text: s.subrange(at, at + n), children: Seq::empty() }
}

/// `symbol`: the length of the name that starts at `at`.
pub open spec fn symbol_len(s: Seq<char>, at: int) -> Option<nat> {
    if 0 <= at < s.len() && is_name_start(s[at]) {
        Some(1 + name_len(s, at + 1))
    } else {
        None
    }
}

/// `type_name`: the length of the capitalised name that starts at `at`.
pub open spec fn type_name_len(s: Seq<char>, at: int) -> Option<nat> {
    if 0 <= at < s.len() && is_upper(s[at]) {
        Some(1 + name_len(s, at + 1))
    } else {
        None
    }
}

/// `number`: the length of the number that starts at `at`: digits, and a
/// fraction where a point and at least one digit follow.
pub open spec fn number_len(s: Seq<char>, at: int) -> Option<nat> {
    let whole = digit_len(s, at);
    let fraction = digit_len(s, at + whole + 1);
    if whole == 0 {
        None
    } else if is_at(s, at + whole, '.') && fraction > 0 {
        Some(whole + 1 + fraction)
    } else {
        Some(whole)
    }
}

/// The length of the rest of a string from `at` on, closing quote included;
/// `None` where the string is not closed. A backslash takes the character
/// behind it along.
pub open spec fn string_rest(s: Seq<char>, at: int) -> Option<nat>
    decreases s.len() - at,
{
    if at < 0 || at >= s.len() {
        None
    } else if s[at] == '"' {
        Some(1)
    } else if s[at] == '\\' {
        if at + 1 < s.len() {
            match string_rest(s, at + 2) {
                Some(n) => Some(2 + n),
                None => None,
            }
        } else {
            None
        }
    } else {
        match string_rest(s, at + 1) {
            Some(n) => Some(1 + n),
            None => None,
        }
    }
}

/// `string`: the length of the string literal that starts at `at`.
pub open spec fn string_len(s: Seq<char>, at: int) -> Option<nat> {
    if is_at(s, at, '"') {
        match string_rest(s, at + 1) {
            Some(n) => Some(1 + n),
            None => None,
        }
    } else {
        None
    }
}

/// `bool`: the length of `true` or `false` at `at`.
pub open spec fn bool_len(s: Seq<char>, at: int) -> Option<nat> {
    if word_at(s, at, "true"@) {
        Some(4)
    } else if word_at(s, at, "false"@) {
        Some(5)
    } else {
        None
    }
}

/// `operator`: the rule of the operator character at `at`.
pub open spec fn operator_at(s: Seq<char>, at: int) -> Option<Rule> {
    if is_at(s, at, '+') {
        Some(Rule::Add)
    } else if is_at(s, at, '-') {
        Some(Rule::Sub)
    } else if is_at(s, at, '*') {
        Some(Rule::Mul)
    } else if is_at(s, at, '/') {
        Some(Rule::Div)
    } else if is_at(s, at, '=') {
        Some(Rule::Eq)
    } else if is_at(s, at, '>') {
        Some(Rule::Gt)
    } else if is_at(s, at, '<') {
        Some(Rule::Lt)
    } else {
        None
    }
}

/// A rule without children, where its length is known.
pub open spec fn leaf_match(rule: Rule, s: Seq<char>, at: int, len: Option<nat>) -> Match {
    match len {
        Some(n) => Some((leaf(rule, s, at, n), n)),
        None => None,
    }
}

/// The forms without children, in the order in which they are tried:
/// `string | number | bool | symbol`.
pub open spec fn atom(s: Seq<char>, at: int) -> Match {
    or_else(
        leaf_match(Rule::String, s, at, string_len(s, at)),
        or_else(
            leaf_match(Rule::Number, s, at, number_len(s, at)),
            or_else(
                leaf_match(Rule::Bool, s, at, bool_len(s, at)),
                leaf_match(Rule::Symbol, s, at, symbol_len(s, at)),
            ),
        ),
    )
}

/// `symbol_type`: a name, then the name of its type.
pub open spec fn symbol_type(s: Seq<char>, at: int) -> Match {
    match symbol_len(s, at) {
        None => None,
        Some(n) => {
            let t = skip_blank(s, at + n);
            match type_name_len(s, t) {
                None => None,
                Some(m) => Some(
                    (
                        Tree {
                            rule: Rule::SymbolType,
                            text: s.subrange(at, t + m),
                            children: seq![leaf(Rule::Symbol, s, at, n), leaf(Rule::TypeName, s, t, m)],
                        },
                        (t + m - at) as nat,
                    ),
                ),
            }
        },
    }
}

/// One parameter: `symbol_type`, or `symbol` unless only typed parameters
/// are asked for.
pub open spec fn parameter(s: Seq<char>, at: int, typed_only: bool) -> Match {
    if typed_only {
        symbol_type(s, at)
    } else {
        or_else(symbol_type(s, at), leaf_match(Rule::Symbol, s, at, symbol_len(s, at)))
    }
}

/// As many parameters as match from `at` on, added to `found`, and the
/// position behind the last of them (`end` where there is none).
pub open spec fn parameters(
    s: Seq<char>,
    at: int,
    typed_only: bool,
    found: Seq<Tree>,
    end: int,
) -> (Seq<Tree>, int)
    decreases left(s, at),
{
    match parameter(s, at, typed_only) {
        Some((node, n)) => if n > 0 && 0 <= at < s.len() {
            parameters(s, skip_blank(s, at + n), typed_only, found.push(node), at + n)
        } else {
            (found, end)
        },
        None => (found, end),
    }
}

/// `[ parameter* ]` from `at` on: the parameters and the position behind the
/// closing bracket. Where only typed parameters are asked for there must be
/// at least one.
pub open spec fn parameter_list(s: Seq<char>, at: int, typed_only: bool) -> Option<
    (Seq<Tree>, int),
> {
    if is_at(s, at, '[') {
        let (found, end) = parameters(s, skip_blank(s, at + 1), typed_only, Seq::empty(), at + 1);
        let close = skip_blank(s, end);
        if is_at(s, close, ']') && (typed_only ==> found.len() >= 1) {
            Some((found, close + 1))
        } else {
            None
        }
    } else {
        None
    }
}

/// Whether `rule` is one of the forms that stand between delimiters.
pub open spec fn is_compound(rule: Rule) -> bool {
    rule is IfB || rule is TDefn || rule is Defn || rule is TDef || rule is Def || rule is TFun
        || rule is Fun || rule is OpVar || rule is SExpr || rule is List
}

/// The delimiter that opens a compound form.
pub open spec fn opener(rule: Rule) -> char {
    if rule is List {
        '['
    } else {
        '('
    }
}

/// The delimiter that closes a compound form.
pub open spec fn closer(rule: Rule) -> char {
    if rule is List {
        ']'
    } else {
        ')'
    }
}

/// How many forms a compound form holds behind its head.
pub open spec fn arity_ok(rule: Rule, n: int) -> bool {
    match rule {
        Rule::IfB => n == 3,
        Rule::OpVar => n >= 2,
        Rule::SExpr | Rule::List => n >= 0,
        _ => n == 1,
    }
}

/// The word that starts a function without a name, `fn` or `define`, at
/// `at`: the position behind it.
pub open spec fn function_word(s: Seq<char>, at: int) -> Option<int> {
    if word_at(s, at, "fn"@) {
        Some(at + 2)
    } else if word_at(s, at, "define"@) {
        Some(at + 6)
    } else {
        None
    }
}

/// `define name` at `at`: the node of the name and the position behind it.
pub open spec fn define_name(s: Seq<char>, at: int) -> Option<(Tree, int)> {
    if word_at(s, at, "define"@) {
        let q = skip_blank(s, at + 6);
        match symbol_len(s, q) {
            Some(n) => Some((leaf(Rule::Symbol, s, q, n), q + n)),
            None => None,
        }
    } else {
        None
    }
}

/// The head of a compound form that opens at `at`: all that stands before
/// the forms it holds. Gives the nodes of the head and the position behind
/// it.
pub open spec fn head(s: Seq<char>, at: int, rule: Rule) -> Option<(Seq<Tree>, int)> {
    let p = skip_blank(s, at + 1);
    if !is_at(s, at, opener(rule)) {
        None
    } else {
        match rule {
            Rule::List => Some((Seq::empty(), at + 1)),
            Rule::IfB => if word_at(s, p, "if"@) {
                Some((Seq::empty(), p + 2))
            } else {
                None
            },
            Rule::OpVar => match operator_at(s, p) {
                Some(operator) => Some((seq![leaf(operator, s, p, 1)], p + 1)),
                None => None,
            },
            Rule::SExpr => match symbol_len(s, p) {
                Some(n) => Some((seq![leaf(Rule::Symbol, s, p, n)], p + n)),
                None => None,
            },
            Rule::Def => match define_name(s, p) {
                Some((name, end)) => Some((seq![name], end)),
                None => None,
            },
            Rule::TDef => if word_at(s, p, "define"@) {
                let q = skip_blank(s, p + 6);
                match symbol_type(s, q) {
                    Some((typed, n)) => Some((seq![typed], q + n)),
                    None => None,
                }
            } else {
                None
            },
            Rule::Defn | Rule::TDefn => match define_name(s, p) {
                Some((name, end)) => match parameter_list(
                    s,
                    skip_blank(s, end),
                    rule is TDefn,
                ) {
                    Some((found, behind)) => Some((seq![name] + found, behind)),
                    None => None,
                },
                None => None,
            },
            Rule::Fun | Rule::TFun => match function_word(s, p) {
                Some(end) => parameter_list(s, skip_blank(s, end), rule is TFun),
                None => None,
            },
            _ => None,
        }
    }
}

/// A compound form of the given rule that opens at `at`: its head, the forms
/// it holds, as many as the rule asks for, and its closing delimiter.
pub open spec fn compound(s: Seq<char>, at: int, rule: Rule) -> Match
    decreases left(s, at), 1int,
{
    match head(s, at, rule) {
        None => None,
        Some((heads, behind)) => if behind <= at || at < 0 || at >= s.len() {
            None
        } else {
            let (items, end) = forms(s, skip_blank(s, behind), Seq::empty(), behind);
            let close = skip_blank(s, end);
            if is_at(s, close, closer(rule)) && arity_ok(rule, items.len() as int) {
                Some(
                    (
                        Tree {
                            rule,
                            text: s.subrange(at, close + 1),
                            children: heads + items,
                        },
                        (close + 1 - at) as nat,
                    ),
                )
            } else {
                None
            }
        },
    }
}

/// `form`: the first of the compound forms, in the order of the grammar,
/// that matches at `at`, or else an atom.
pub open spec fn form(s: Seq<char>, at: int) -> Match
    decreases left(s, at), 2int,
{
    or_else(
        compound(s, at, Rule::IfB),
        or_else(
            compound(s, at, Rule::TDefn),
            or_else(
                compound(s, at, Rule::Defn),
                or_else(
                    compound(s, at, Rule::TDef),
                    or_else(
                        compound(s, at, Rule::Def),
                        or_else(
                            compound(s, at, Rule::TFun),
                            or_else(
                                compound(s, at, Rule::Fun),
                                or_else(
                                    compound(s, at, Rule::OpVar),
                                    or_else(
                                        compound(s, at, Rule::SExpr),
                                        or_else(compound(s, at, Rule::List), atom(s, at)),
                                    ),
                                ),
                            ),
                        ),
                    ),
                ),
            ),
        ),
    )
}

/// `form*`: as many forms as match from `at` on, added to `found`, and the
/// position behind the last of them (`end` where there is none).
pub open spec fn forms(s: Seq<char>, at: int, found: Seq<Tree>, end: int) -> (Seq<Tree>, int)
    decreases left(s, at), 3int,
{
    if at < 0 || at >= s.len() {
        (found, end)
    } else {
        match form(s, at) {
            Some((node, n)) => if n > 0 {
                forms(s, skip_blank(s, at + n), found.push(node), at + n)
            } else {
                (found, end)
            },
            None => (found, end),
        }
    }
}

/// `program`: the forms of the whole text, then the end of input. Where the
/// text goes on behind the last form that matches, the end of input was
/// expected there and the text is refused.
pub open spec fn program(s: Seq<char>) -> Result<Tree, ParseError> {
    let (items, end) = forms(s, skip_blank(s, 0), Seq::empty(), 0);
    let stop = skip_blank(s, end);
    if stop == s.len() {
        Ok(Tree { rule: Rule::Program, text: s, children: items.push(leaf(Rule::EOI, s, stop, 0)) })
    } else {
        Err(ParseError { rule: Rule::EOI, position: stop as usize })
    }
}

/// What a rule matches at the start of a text.
pub open spec fn rule_match(s: Seq<char>, rule: Rule) -> Match {
    match rule {
        Rule::EOI => if s.len() == 0 {
            Some((leaf(Rule::EOI, s, 0, 0), 0))
        } else {
            None
        },
        Rule::Program => match program(s) {
            Ok(tree) => Some((tree, s.len())),
            Err(_) => None,
        },
        Rule::Symbol => leaf_match(rule, s, 0, symbol_len(s, 0)),
        Rule::TypeName => leaf_match(rule, s, 0, type_name_len(s, 0)),
        Rule::Number => leaf_match(rule, s, 0, number_len(s, 0)),
        Rule::String => leaf_match(rule, s, 0, string_len(s, 0)),
        Rule::Bool => leaf_match(rule, s, 0, bool_len(s, 0)),
        Rule::SymbolType => symbol_type(s, 0),
        Rule::Add | Rule::Sub | Rule::Mul | Rule::Div | Rule::Eq | Rule::Gt | Rule::Lt => {
            if operator_at(s, 0) == Some(rule) {
                Some((leaf(rule, s, 0, 1), 1))
            } else {
                None
            }
        },
        _ => compound(s, 0, rule),
    }
}

/// The outcome of parsing a text by a rule: the node that the rule matches
/// at the start of the text, or the rule that could not match and where.
/// A program has to match the whole text; any other rule may leave text
/// behind its match.
pub open spec fn parse_outcome(s: Seq<char>, rule: Rule) -> Result<Tree, ParseError> {
    if rule is Program {
        program(s)
    } else {
        match rule_match(s, rule) {
            Some((tree, _)) => Ok(tree),
            None => Err(ParseError { rule, position: 0 }),
        }
    }
}

} // verus!
