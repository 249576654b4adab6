//! What can go wrong, and how it is reported.

use crate::text::decimal_text;
use crate::tokens::decimal;
use crate::tree::Rule;
use vstd::prelude::*;
use vstd::string::StringExecFns;

verus! {

/// The source text does not follow the grammar.
#[derive(Clone, Copy, Debug, PartialEq, Eq, Structural)]
pub struct ParseError {
    /// The rule that could not match.
    pub rule: Rule,
    /// Where it was tried: the number of characters before that place.
    pub position: usize,
}

/// A parse tree breaks a promise of the grammar, or holds text that the host
/// language does not accept.
#[derive(Clone, Copy, Debug, PartialEq, Eq, Structural)]
pub enum LowerError {
    /// A node of this rule lacks a child that the rule requires.
    MissingChild(Rule),
    /// A node of this rule holds more children than the rule allows.
    ExtraChild(Rule),
    /// An operator form has fewer than two operands.
    TooFewOperands,
    /// The text of a name is no identifier of the host language.
    InvalidSymbol,
    /// The text of a literal is no literal of the host language.
    InvalidLiteral,
    /// The name of a type is outside the fixed table and is no type of the
    /// host language either.
    InvalidType,
    /// A function parameter is neither a name nor a typed name.
    InvalidParameter,
}

/// Why a source text could not be turned into host code.
#[derive(Clone, Copy, Debug, PartialEq, Eq, Structural)]
pub enum CrispError {
    /// It could not be parsed.
    Parse(ParseError),
    /// Its parse tree could not be lowered.
    Lower(LowerError),
}

impl Rule {
    /// The name of the rule in diagnostics.
    pub open spec fn name_text(self) -> Seq<char> {
        match self {
            Rule::EOI => "EOI"@,
            Rule::Program => "program"@,
            Rule::SExpr => "sexpr"@,
            Rule::Fun => "fun"@,
            Rule::TFun => "tfun"@,
            Rule::Def => "def"@,
            Rule::TDef => "tdef"@,
            Rule::Defn => "defn"@,
            Rule::TDefn => "tdefn"@,
            Rule::IfB => "ifb"@,
            Rule::OpVar => "opvar"@,
            Rule::List => "list"@,
            Rule::Symbol => "symbol"@,
            Rule::SymbolType => "symbol_type"@,
            Rule::TypeName => "type_name"@,
            Rule::Number => "number"@,
            Rule::String => "string"@,
            Rule::Bool => "bool"@,
            Rule::Add => "add"@,
            Rule::Sub => "sub"@,
            Rule::Mul => "mul"@,
            Rule::Div => "div"@,
            Rule::Eq => "eq"@,
            Rule::Gt => "gt"@,
            Rule::Lt => "lt"@,
        }
    }

    /// The name of the rule in diagnostics.
    pub fn name(&self) -> (name: &'static str)
        ensures
            name@ == self.name_text(),
    {
        match self {
            Rule::EOI => "EOI",
            Rule::Program => "program",
            Rule::SExpr => "sexpr",
            Rule::Fun => "fun",
            Rule::TFun => "tfun",
            Rule::Def => "def",
            Rule::TDef => "tdef",
            Rule::Defn => "defn",
            Rule::TDefn => "tdefn",
            Rule::IfB => "ifb",
            Rule::OpVar => "opvar",
            Rule::List => "list",
            Rule::Symbol => "symbol",
            Rule::SymbolType => "symbol_type",
            Rule::TypeName => "type_name",
            Rule::Number => "number",
            Rule::String => "string",
            Rule::Bool => "bool",
            Rule::Add => "add",
            Rule::Sub => "sub",
            Rule::Mul => "mul",
            Rule::Div => "div",
            Rule::Eq => "eq",
            Rule::Gt => "gt",
            Rule::Lt => "lt",
        }
    }
}

impl ParseError {
    /// The diagnostic: the rule that was expected and the position.
    pub open spec fn message_text(self) -> Seq<char> {
        "Parsing failed: expected "@ + self.rule.name_text() + " at "@ + decimal(
            self.position as nat,
        )
    }

    /// The diagnostic: the rule that was expected and the position.
    pub fn message(&self) -> (text: String)
        ensures
            text@ == self.message_text(),
    {
        let mut text = String::from_str("Parsing failed: expected ");
        text.append(self.rule.name());
        text.append(" at ");
        let position = decimal_text(self.position);
        text.append(position.as_str());
        text
    }
}

impl LowerError {
    /// The diagnostic, which names the kind of node at fault.
    pub open spec fn message_text(self) -> Seq<char> {
        match self {
            LowerError::MissingChild(rule) => "Missing child of "@ + rule.name_text(),
            LowerError::ExtraChild(rule) => "Too many children of "@ + rule.name_text(),
            LowerError::TooFewOperands => "Operator needs at least two operands"@,
            LowerError::InvalidSymbol => "Invalid symbol"@,
            LowerError::InvalidLiteral => "Invalid literal"@,
            LowerError::InvalidType => "Invalid type"@,
            LowerError::InvalidParameter => "Invalid function parameter"@,
        }
    }

    /// The diagnostic, which names the kind of node at fault.
    pub fn message(&self) -> (text: String)
        ensures
            text@ == self.message_text(),
    {
        match self {
            LowerError::MissingChild(rule) => {
                let mut text = String::from_str("Missing child of ");
                text.append(rule.name());
                text
            },
            LowerError::ExtraChild(rule) => {
                let mut text = String::from_str("Too many children of ");
                text.append(rule.name());
                text
            },
            LowerError::TooFewOperands => String::from_str("Operator needs at least two operands"),
            LowerError::InvalidSymbol => String::from_str("Invalid symbol"),
            LowerError::InvalidLiteral => String::from_str("Invalid literal"),
            LowerError::InvalidType => String::from_str("Invalid type"),
            LowerError::InvalidParameter => String::from_str("Invalid function parameter"),
        }
    }
}

impl CrispError {
    /// The diagnostic of the error inside.
    pub open spec fn message_text(self) -> Seq<char> {
        match self {
            CrispError::Parse(e) => e.message_text(),
            CrispError::Lower(e) => e.message_text(),
        }
    }

    /// The diagnostic of the error inside.
    pub fn message(&self) -> (text: String)
        ensures
            text@ == self.message_text(),
    {
        match self {
            CrispError::Parse(e) => e.message(),
            CrispError::Lower(e) => e.message(),
        }
    }
}

} // verus!
