//! Token streams of the host language.
//!
//! The lowering pass builds `proc_macro2::TokenStream` values. Verus cannot
//! look inside one, so this module gives the tokens that a stream holds a
//! name, [`stream_tokens`], and states over that name what each operation of
//! `proc_macro2`, `quote` and `syn` used here does. Those statements are
//! believed, not proved: every function in this file marked
//! `external_body` is such a statement.

use proc_macro2::{Delimiter, Group, Ident, Literal, Punct, Span, TokenStream, TokenTree};
use quote::ToTokens;
use vstd::prelude::*;

verus! {

#[verifier::external_type_specification]
#[verifier::external_body]
pub struct ExTokenStream(proc_macro2::TokenStream);

/// The delimiters that enclose a group of tokens.
#[derive(Clone, Copy, Debug, PartialEq, Eq, Structural)]
pub enum Delim {
    /// `( ... )`
    Parenthesis,
    /// `{ ... }`
    Brace,
    /// `[ ... ]`
    Bracket,
}

/// Whether a punctuation character is followed at once by another one that
/// belongs to the same operator.
#[derive(Clone, Copy, Debug, PartialEq, Eq, Structural)]
pub enum Spacing {
    /// The operator ends with this character, as in `+`.
    Alone,
    /// The operator goes on, as behind the first character of `==`.
    Joint,
}

/// One token tree as a mathematical value.
pub enum Tok {
    /// A delimited group and the token trees inside it.
    Group(Delim, Seq<Tok>),
    /// A word: an identifier or a keyword.
    Ident(Seq<char>),
    /// One punctuation character.
    Punct(char, Spacing),
    /// A literal, by its text.
    Literal(Seq<char>),
}

/// The token trees that a stream holds, in order.
pub uninterp spec fn stream_tokens(ts: TokenStream) -> Seq<Tok>;

/// What `text` is when read as one identifier of the host language: the
/// tokens of that identifier, or `None` where `text` is no identifier (a
/// keyword is none).
pub uninterp spec fn host_identifier(text: Seq<char>) -> Option<Seq<Tok>>;

/// What `text` is when read as one literal of the host language: the tokens
/// of that literal, or `None` where `text` is no literal.
pub uninterp spec fn host_literal(text: Seq<char>) -> Option<Seq<Tok>>;

/// What `text` is when read as one type of the host language: the tokens of
/// that type, or `None` where `text` is no type.
pub uninterp spec fn host_type(text: Seq<char>) -> Option<Seq<Tok>>;

/// A letter of the ASCII alphabet.
pub open spec fn is_ascii_letter(c: char) -> bool {
    ('a' <= c && c <= 'z') || ('A' <= c && c <= 'Z')
}

/// A decimal digit.
pub open spec fn is_ascii_digit(c: char) -> bool {
    '0' <= c && c <= '9'
}

/// Words made of ASCII letters, digits and `_` that start with a letter.
/// Every such word can be made into an identifier token.
pub open spec fn is_word(s: Seq<char>) -> bool {
    &&& s.len() > 0
    &&& is_ascii_letter(s[0])
    &&& forall|i: int|
        0 <= i < s.len() ==> is_ascii_letter(#[trigger] s[i]) || is_ascii_digit(s[i]) || s[i]
            == '_'
}

/// The characters that can be punctuation tokens.
pub open spec fn is_punct_char(c: char) -> bool {
    c == '!' || c == '#' || c == '$' || c == '%' || c == '&' || c == '\'' || c == '*' || c == '+'
        || c == ',' || c == '-' || c == '.' || c == '/' || c == ':' || c == ';' || c == '<' || c
        == '=' || c == '>' || c == '?' || c == '@' || c == '^' || c == '|' || c == '~'
}

/// The character of a decimal digit.
pub open spec fn digit_char(d: nat) -> char {
    if d == 0 {
        '0'
    } else if d == 1 {
        '1'
    } else if d == 2 {
        '2'
    } else if d == 3 {
        '3'
    } else if d == 4 {
        '4'
    } else if d == 5 {
        '5'
    } else if d == 6 {
        '6'
    } else if d == 7 {
        '7'
    } else if d == 8 {
        '8'
    } else {
        '9'
    }
}

/// A number written in decimal, without leading zeros.
pub open spec fn decimal(n: nat) -> Seq<char>
    decreases n,
{
    if n < 10 {
        seq![digit_char(n)]
    } else {
        decimal(n / 10).push(digit_char(n % 10))
    }
}

/// The literal that stands for position `index` of a slice: the number in
/// decimal with the suffix `usize`.
pub open spec fn index_literal(index: usize) -> Tok {
    Tok::Literal(decimal(index as nat) + "usize"@)
}

/// `TokenStream::new`: a stream that holds no token.
#[verifier::external_body]
pub(crate) fn stream_new() -> (ts: TokenStream)
    ensures
        stream_tokens(ts) == Seq::<Tok>::empty(),
{
    TokenStream::new()
}

/// `ToTokens::to_tokens` of a `TokenStream`: appends a copy of the tokens of
/// `tokens` to `ts`, in order, and leaves `tokens` as it was.
#[verifier::external_body]
pub(crate) fn append_stream(ts: &mut TokenStream, tokens: &TokenStream)
    ensures
        stream_tokens(*final(ts)) == stream_tokens(*old(ts)) + stream_tokens(*tokens),
{
    tokens.to_tokens(ts);
}

/// `Ident::new` at the call site: the word `name` as a stream of one token.
/// `Ident::new` panics on text that is no identifier; the `requires` admits
/// only ASCII words that start with a letter.
#[verifier::external_body]
pub(crate) fn ident_stream(name: &str) -> (ts: TokenStream)
    requires
        is_word(name@),
    ensures
        stream_tokens(ts) == seq![Tok::Ident(name@)],
{
    TokenStream::from(TokenTree::from(Ident::new(name, Span::call_site())))
}

/// `Punct::new`: one punctuation character with the given spacing as a
/// stream of one token. `Punct::new` panics on other characters than those
/// of [`is_punct_char`].
#[verifier::external_body]
pub(crate) fn punct_stream(ch: char, spacing: Spacing) -> (ts: TokenStream)
    requires
        is_punct_char(ch),
    ensures
        stream_tokens(ts) == seq![Tok::Punct(ch, spacing)],
{
    let spacing = match spacing {
        Spacing::Alone => proc_macro2::Spacing::Alone,
        Spacing::Joint => proc_macro2::Spacing::Joint,
    };
    TokenStream::from(TokenTree::from(Punct::new(ch, spacing)))
}

/// `Group::new`: the tokens of `inner` between the delimiters `delim`, as a
/// stream of one token.
#[verifier::external_body]
pub(crate) fn group_stream(delim: Delim, inner: TokenStream) -> (ts: TokenStream)
    ensures
        stream_tokens(ts) == seq![Tok::Group(delim, stream_tokens(inner))],
{
    let delimiter = match delim {
        Delim::Parenthesis => Delimiter::Parenthesis,
        Delim::Brace => Delimiter::Brace,
        Delim::Bracket => Delimiter::Bracket,
    };
    TokenStream::from(TokenTree::from(Group::new(delimiter, inner)))
}

/// `Literal::usize_suffixed`: the number in decimal followed by `usize`, as
/// a stream of one token.
#[verifier::external_body]
pub(crate) fn index_stream(index: usize) -> (ts: TokenStream)
    ensures
        stream_tokens(ts) == seq![index_literal(index)],
{
    TokenStream::from(TokenTree::from(Literal::usize_suffixed(index)))
}

/// `syn::parse_str::<syn::Ident>`: reads `text` as one identifier of the host
/// language. The result is a function of `text` alone and is named
/// [`host_identifier`]; an error of the parser becomes `None`.
#[verifier::external_body]
pub(crate) fn parse_identifier(text: &str) -> (r: Option<TokenStream>)
    ensures
        match r {
            Some(ts) => host_identifier(text@) == Some(stream_tokens(ts)),
            None => host_identifier(text@) is None,
        },
{
    match syn::parse_str::<syn::Ident>(text) {
        Ok(ident) => Some(ident.into_token_stream()),
        Err(_) => None,
    }
}

/// `syn::parse_str::<syn::Type>`: reads `text` as one type of the host
/// language. The result is a function of `text` alone and is named
/// [`host_type`]; an error of the parser becomes `None`.
#[verifier::external_body]
pub(crate) fn parse_type(text: &str) -> (r: Option<TokenStream>)
    ensures
        match r {
            Some(ts) => host_type(text@) == Some(stream_tokens(ts)),
            None => host_type(text@) is None,
        },
{
    match syn::parse_str::<syn::Type>(text) {
        Ok(ty) => Some(ty.into_token_stream()),
        Err(_) => None,
    }
}

/// `syn::parse_str::<syn::Lit>`: reads `text` as one literal of the host
/// language. The result is a function of `text` alone and is named
/// [`host_literal`]; an error of the parser becomes `None`.
#[verifier::external_body]
pub(crate) fn parse_literal(text: &str) -> (r: Option<TokenStream>)
    ensures
        match r {
            Some(ts) => host_literal(text@) == Some(stream_tokens(ts)),
            None => host_literal(text@) is None,
        },
{
    match syn::parse_str::<syn::Lit>(text) {
        Ok(literal) => Some(literal.into_token_stream()),
        Err(_) => None,
    }
}

} // verus!
