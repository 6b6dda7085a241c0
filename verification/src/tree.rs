use vstd::prelude::*;

verus! {

broadcast use vstd::std_specs::vec::axiom_vec_decreases_to_view, vstd::seq::axiom_seq_index_decreases;

/// The parse tree of a meta-grammar: one variant per construct of the
/// grammar language. A whole grammar is a `DefinitionList` of
/// `ParserDefinition` nodes; a rule's body is built from the remaining
/// variants. Host-language fragments (a rule's declared result type, a
/// sequence's action block) are carried as opaque text.
#[derive(Debug, PartialEq, Eq)]
pub enum ParseTree {
    /// List of all the non-terminal definitions of this grammar, in source order.
    DefinitionList(Vec<ParseTree>),
    /// Definition of a new non-terminal: name, optional declared result type, body.
    ParserDefinition(String, Option<String>, Box<ParseTree>),
    /// The sub-parser is wrapped in `<...>` or `<ident: ...>`.
    Capture(Box<ParseTree>, Option<String>),
    /// Identifier, a reference to a non-terminal of this grammar.
    NonTerminal(String),
    /// Call to an externally supplied parsing function.
    Call(String),
    /// Sequence of sub-parsers, with optional action code at the end.
    Sequence(Vec<ParseTree>, Option<String>),
    /// Terminal that consumes no input; a defensive default, never produced
    /// by the parser.
    Empty,
    /// String literal to be matched exactly.
    Terminal(String),
    /// Ordered list of alternative sub-parsers, first match wins.
    Choice(Vec<ParseTree>),
    /// Repetition: zero or more times.
    Many0(Box<ParseTree>),
    /// Repetition: one or more times.
    Many1(Box<ParseTree>),
    /// Makes the sub-parser optional.
    Optional(Box<ParseTree>),
    /// Evaluates the sub-parser without consuming input.
    Peek(Box<ParseTree>),
    /// Negates the result of the sub-parser, consuming no input.
    Not(Box<ParseTree>),
}

/// The mathematical abstraction of a `ParseTree`: the same shape over `Seq`
/// and `Seq<char>` instead of `Vec` and `String`. All contracts of the
/// parser speak of this type.
pub enum TreeModel {
    DefinitionList(Seq<TreeModel>),
    ParserDefinition(Seq<char>, Option<Seq<char>>, Box<TreeModel>),
    Capture(Box<TreeModel>, Option<Seq<char>>),
    NonTerminal(Seq<char>),
    Call(Seq<char>),
    Sequence(Seq<TreeModel>, Option<Seq<char>>),
    Empty,
    Terminal(Seq<char>),
    Choice(Seq<TreeModel>),
    Many0(Box<TreeModel>),
    Many1(Box<TreeModel>),
    Optional(Box<TreeModel>),
    Peek(Box<TreeModel>),
    Not(Box<TreeModel>),
}

/// The abstraction of an optional string: its view, if present.
pub open spec fn opt_text(o: Option<String>) -> Option<Seq<char>> {
    match o {
        Option::Some(s) => Option::Some(s@),
        Option::None => Option::None,
    }
}

impl ParseTree {
    /// The mathematical abstraction of this tree.
    pub open spec fn model(&self) -> TreeModel
        decreases self,
    {
        match self {
            ParseTree::DefinitionList(ds) => TreeModel::DefinitionList(models(ds@)),
            ParseTree::ParserDefinition(name, ty, body) => TreeModel::ParserDefinition(
                name@,
                opt_text(*ty),
                Box::new(body.model()),
            ),
            ParseTree::Capture(inner, name) => TreeModel::Capture(
                Box::new(inner.model()),
                opt_text(*name),
            ),
            ParseTree::NonTerminal(name) => TreeModel::NonTerminal(name@),
            ParseTree::Call(name) => TreeModel::Call(name@),
            ParseTree::Sequence(es, action) => TreeModel::Sequence(
                models(es@),
                opt_text(*action),
            ),
            ParseTree::Empty => TreeModel::Empty,
            ParseTree::Terminal(text) => TreeModel::Terminal(text@),
            ParseTree::Choice(alts) => TreeModel::Choice(models(alts@)),
            ParseTree::Many0(inner) => TreeModel::Many0(Box::new(inner.model())),
            ParseTree::Many1(inner) => TreeModel::Many1(Box::new(inner.model())),
            ParseTree::Optional(inner) => TreeModel::Optional(Box::new(inner.model())),
            ParseTree::Peek(inner) => TreeModel::Peek(Box::new(inner.model())),
            ParseTree::Not(inner) => TreeModel::Not(Box::new(inner.model())),
        }
    }
}

/// The abstraction of a list of trees, element by element.
pub open spec fn models(ts: Seq<ParseTree>) -> Seq<TreeModel>
    decreases ts,
{
    Seq::new(ts.len(), |i: int| if 0 <= i < ts.len() { ts[i].model() } else { TreeModel::Empty })
}

/// A structural parse failure, carrying the index of the offending token
/// (equal to the token count when the failure is at the end of the stream).
#[derive(Debug, Clone, Copy, PartialEq, Eq)]
pub enum ParseError {
    /// The token at this index matches none of the alternatives expected there.
    UnexpectedToken(usize),
    /// A rule body or parenthesized group produced zero elements.
    EmptySequence(usize),
    /// A capture `<...` never finds its closing `>`.
    UnterminatedCapture(usize),
    /// A definition does not begin with an identifier.
    ExpectedDefinitionName(usize),
    /// `:` in a rule header is not followed by a type fragment.
    ExpectedType(usize),
    /// A rule header is missing its `=`.
    ExpectedEquals(usize),
}

/// Structural invariant of a node inside a rule body: every `Sequence` has
/// at least one element, every `Choice` at least two alternatives, and the
/// grammar-level variants never occur below a rule's body.
pub open spec fn wf_body(m: TreeModel) -> bool
    decreases m,
{
    match m {
        TreeModel::DefinitionList(_) => false,
        TreeModel::ParserDefinition(_, _, _) => false,
        TreeModel::Capture(inner, _) => wf_body(*inner),
        TreeModel::NonTerminal(_) => true,
        TreeModel::Call(_) => true,
        TreeModel::Sequence(es, _) => es.len() >= 1 && (forall|i: int|
            0 <= i < es.len() ==> wf_body(#[trigger] es[i])),
        TreeModel::Empty => true,
        TreeModel::Terminal(_) => true,
        TreeModel::Choice(alts) => alts.len() >= 2 && (forall|i: int|
            0 <= i < alts.len() ==> wf_body(#[trigger] alts[i])),
        TreeModel::Many0(inner) => wf_body(*inner),
        TreeModel::Many1(inner) => wf_body(*inner),
        TreeModel::Optional(inner) => wf_body(*inner),
        TreeModel::Peek(inner) => wf_body(*inner),
        TreeModel::Not(inner) => wf_body(*inner),
    }
}

/// Structural invariant of one rule definition.
pub open spec fn wf_definition(m: TreeModel) -> bool {
    match m {
        TreeModel::ParserDefinition(_, _, body) => wf_body(*body),
        _ => false,
    }
}

/// Structural invariant of a whole grammar: a non-empty list of rule
/// definitions, each with a well-formed body.
pub open spec fn wf_grammar(m: TreeModel) -> bool {
    match m {
        TreeModel::DefinitionList(ds) => ds.len() >= 1 && (forall|i: int|
            0 <= i < ds.len() ==> wf_definition(#[trigger] ds[i])),
        _ => false,
    }
}

} // verus!
