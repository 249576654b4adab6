//! Parse trees: what the parser hands to the lowering pass.

use vstd::prelude::*;

verus! {

/// The tag of a parse-tree node: the grammar rule that matched.
#[derive(Clone, Copy, Debug, PartialEq, Eq, Hash, Structural)]
pub enum Rule {
    /// End of input; closes the children of a [`Rule::Program`].
    EOI,
    /// A whole source text: its top-level forms, then [`Rule::EOI`].
    Program,
    /// `(name arg ...)`: a symbol followed by any number of forms.
    SExpr,
    /// `(fn [param ...] body)`: an anonymous function.
    Fun,
    /// An anonymous function all of whose parameters are typed.
    TFun,
    /// `(define name value)`: a variable binding.
    Def,
    /// `(define name Type value)`: a variable binding with a type.
    TDef,
    /// `(define name [param ...] body)`: a named function.
    Defn,
    /// A named function all of whose parameters are typed.
    TDefn,
    /// `(if condition then else)`.
    IfB,
    /// `(op a b ...)`: an operator applied to two or more operands.
    OpVar,
    /// `[form ...]`: forms evaluated in order as one block.
    List,
    /// A name.
    Symbol,
    /// A name followed by the name of its type.
    SymbolType,
    /// The name of a type, inside a [`Rule::SymbolType`].
    TypeName,
    /// A number literal.
    Number,
    /// A string literal.
    String,
    /// `true` or `false`.
    Bool,
    /// The operator `+`.
    Add,
    /// The operator `-`.
    Sub,
    /// The operator `*`.
    Mul,
    /// The operator `/`.
    Div,
    /// The comparison `=`.
    Eq,
    /// The comparison `>`.
    Gt,
    /// The comparison `<`.
    Lt,
}

/// One node of a parse tree: the rule that matched, the source text that the
/// match covers, and the nodes matched inside it, in source order.
#[derive(Debug)]
pub struct Node {
    pub rule: Rule,
    pub text: String,
    pub children: Vec<Node>,
}

/// The mathematical value of a [`Node`].
pub struct Tree {
    pub rule: Rule,
    pub text: Seq<char>,
    pub children: Seq<Tree>,
}

/// The value of a node: its rule, the characters of its text and the values
/// of its children.
pub open spec fn tree_of(node: Node) -> Tree
    decreases node,
{
    Tree {
        rule: node.rule,
        text: node.text@,
        children: Seq::new(
            node.children@.len(),
            |i: int|
                if 0 <= i < node.children@.len() {
                    tree_of(node.children@[i])
                } else {
                    arbitrary()
                },
        ),
    }
}

impl View for Node {
    type V = Tree;

    open spec fn view(&self) -> Tree {
        tree_of(*self)
    }
}

/// The values of a sequence of nodes, one for one.
pub open spec fn trees(nodes: Seq<Node>) -> Seq<Tree> {
    Seq::new(nodes.len(), |i: int| nodes[i]@)
}

impl Rule {
    /// Whether nodes of this rule are operators of a [`Rule::OpVar`].
    pub open spec fn is_operator(self) -> bool {
        self is Add || self is Sub || self is Mul || self is Div || self is Eq || self is Gt
            || self is Lt
    }
}

impl Node {
    /// A node without children.
    pub fn leaf(rule: Rule, text: &str) -> (node: Node)
        ensures
            node@ == (Tree { rule, text: text@, children: Seq::empty() }),
    {
        let node = Node { rule, text: text.to_owned(), children: Vec::new() };
        assert(node@.children =~= Seq::empty());
        node
    }

    /// A node with the given children.
    pub fn branch(rule: Rule, text: &str, children: Vec<Node>) -> (node: Node)
        ensures
            node@ == (Tree { rule, text: text@, children: trees(children@) }),
    {
        let node = Node { rule, text: text.to_owned(), children };
        proof {
            lemma_children(&node);
        }
        node
    }
}

/// The value of a node's child is the child of the node's value, with the
/// child's own rule and text.
pub proof fn lemma_child(node: &Node, i: int)
    requires
        0 <= i < node.children@.len(),
    ensures
        node@.children.len() == node.children@.len(),
        node@.children[i] == node.children@[i]@,
        node@.children[i].rule == node.children@[i].rule,
        node@.children[i].text == node.children@[i].text@,
        node@.children[i].children.len() == node.children@[i].children@.len(),
        node@.children == trees(node.children@),
{
    lemma_children(node);
}

/// The children of a node's value are the values of the node's children.
pub proof fn lemma_children(node: &Node)
    ensures
        node@.children == trees(node.children@),
{
    assert(node@.children =~= trees(node.children@));
}

/// The values of a sequence with one more node at its end are the values of
/// the sequence with the value of that node at their end.
pub proof fn lemma_trees_push(nodes: Seq<Node>, node: Node)
    ensures
        trees(nodes.push(node)) == trees(nodes).push(node@),
{
    assert(trees(nodes.push(node)) =~= trees(nodes).push(node@));
}

} // verus!
