use vstd::prelude::*;
use crate::model::alts_at;
use crate::model::atom_at;
use crate::model::definition_at;
use crate::model::definition_tail_at;
use crate::model::definitions_at;
use crate::model::elem_at;
use crate::model::elems_at;
use crate::model::expression_at;
use crate::model::grammar_model;
use crate::model::sequence_at;
use crate::model::ElemModel;
use crate::token::Token;
use crate::tree::wf_body;
use crate::tree::wf_definition;
use crate::tree::wf_grammar;
use crate::tree::ParseError;
use crate::tree::TreeModel;

verus! {

/// Parsing is deterministic: the grammar model is a function of the token
/// stream alone, and `ParseTree::parse` returns exactly it, so re-parsing
/// the same token stream yields structurally identical trees (or the same
/// error), with no hidden state carried across calls.
pub proof fn lemma_parse_deterministic(toks1: Seq<Token>, toks2: Seq<Token>)
    requires
        toks1 == toks2,
    ensures
        grammar_model(toks1) == grammar_model(toks2),
{
}

/// A single-rule grammar `name = "lit"` parses, for every name and literal,
/// to a definition list with exactly one definition, whose body is a
/// sequence holding one terminal and no action.
pub proof fn lemma_single_terminal_rule(name: String, lit: String)
    ensures
        grammar_model(seq![Token::Ident(name), Token::Equals, Token::StrLit(lit)])
            == Result::<TreeModel, ParseError>::Ok(TreeModel::DefinitionList(seq![
            TreeModel::ParserDefinition(
                name@,
                Option::None,
                Box::new(TreeModel::Sequence(seq![TreeModel::Terminal(lit@)], Option::None)),
            )
        ])),
{
    let toks = seq![Token::Ident(name), Token::Equals, Token::StrLit(lit)];
    let term = TreeModel::Terminal(lit@);
    let body = TreeModel::Sequence(seq![term], Option::None);
    let def = TreeModel::ParserDefinition(name@, Option::None, Box::new(body));
    assert(atom_at(toks, 2, false, 4) == ElemModel::Found(term, 3));
    assert(elem_at(toks, 2, 4) == ElemModel::Found(term, 3));
    assert(atom_at(toks, 3, false, 3) == ElemModel::End);
    assert(elem_at(toks, 3, 3) == ElemModel::End);
    assert(elems_at(toks, 3, 3) == Result::<(Seq<TreeModel>, usize), ParseError>::Ok(
        (Seq::<TreeModel>::empty(), 3),
    ));
    assert(seq![term] + Seq::<TreeModel>::empty() =~= seq![term]);
    assert(elems_at(toks, 2, 4) == Result::<(Seq<TreeModel>, usize), ParseError>::Ok(
        (seq![term], 3),
    ));
    assert(sequence_at(toks, 2, 4) == Result::<(TreeModel, usize), ParseError>::Ok((body, 3)));
    assert(alts_at(toks, 3, 4) == Result::<(Seq<TreeModel>, usize), ParseError>::Ok(
        (Seq::<TreeModel>::empty(), 3),
    ));
    assert(expression_at(toks, 2, 4) == Result::<(TreeModel, usize), ParseError>::Ok((body, 3)));
    assert(definition_tail_at(toks, name@, Option::None, 1, 4) == Result::<
        (TreeModel, usize),
        ParseError,
    >::Ok((def, 3)));
    assert(definition_at(toks, 0, 4) == Result::<(TreeModel, usize), ParseError>::Ok((def, 3)));
    assert(definitions_at(toks, 0, 4) == Result::<(Seq<TreeModel>, usize), ParseError>::Ok(
        (seq![def], 3),
    ));
}

/// Operator composition: the prefix operator always wraps outermost and the
/// postfix operator always wraps innermost. For every name, `!a*` parses as
/// `Not(Many0(a))` and `&a?` parses as `Peek(Optional(a))`.
pub proof fn lemma_prefix_wraps_outermost(name: String, fuel: nat)
    requires
        fuel >= 1,
    ensures
        elem_at(seq![Token::Bang, Token::Ident(name), Token::Star], 0, fuel) == ElemModel::Found(
            TreeModel::Not(Box::new(TreeModel::Many0(Box::new(TreeModel::NonTerminal(name@))))),
            3,
        ),
        elem_at(seq![Token::Amp, Token::Ident(name), Token::Question], 0, fuel)
            == ElemModel::Found(
            TreeModel::Peek(
                Box::new(TreeModel::Optional(Box::new(TreeModel::NonTerminal(name@)))),
            ),
            3,
        ),
{
    let toks1 = seq![Token::Bang, Token::Ident(name), Token::Star];
    assert(atom_at(toks1, 1, true, fuel) == ElemModel::Found(TreeModel::NonTerminal(name@), 2));
    let toks2 = seq![Token::Amp, Token::Ident(name), Token::Question];
    assert(atom_at(toks2, 1, true, fuel) == ElemModel::Found(TreeModel::NonTerminal(name@), 2));
}

/// Capture composition: a postfix operator written after the closing `>`
/// applies to the whole capture, not to the inner element. For every binding
/// and name, `<x: a>*` parses as `Many0(Capture(a, Some(x)))`.
pub proof fn lemma_postfix_wraps_capture(binding: String, name: String, fuel: nat)
    requires
        fuel >= 2,
    ensures
        elem_at(
            seq![
                Token::Lt,
                Token::Ident(binding),
                Token::Colon,
                Token::Ident(name),
                Token::Gt,
                Token::Star
            ],
            0,
            fuel,
        ) == ElemModel::Found(
            TreeModel::Many0(
                Box::new(
                    TreeModel::Capture(
                        Box::new(TreeModel::NonTerminal(name@)),
                        Option::Some(binding@),
                    ),
                ),
            ),
            6,
        ),
{
    let toks = seq![
        Token::Lt,
        Token::Ident(binding),
        Token::Colon,
        Token::Ident(name),
        Token::Gt,
        Token::Star
    ];
    assert(atom_at(toks, 3, false, (fuel - 1) as nat) == ElemModel::Found(
        TreeModel::NonTerminal(name@),
        4,
    ));
    assert(elem_at(toks, 3, (fuel - 1) as nat) == ElemModel::Found(
        TreeModel::NonTerminal(name@),
        4,
    ));
    assert(atom_at(toks, 0, false, fuel) == ElemModel::Found(
        TreeModel::Capture(Box::new(TreeModel::NonTerminal(name@)), Option::Some(binding@)),
        5,
    ));
}

/// Sequence minimality: an action with no preceding elements is rejected.
/// For every name and code fragment, `name = => { code }` fails with the
/// empty-sequence error, at the position of the arrow.
pub proof fn lemma_action_needs_elements(name: String, code: String)
    ensures
        grammar_model(
            seq![Token::Ident(name), Token::Equals, Token::FatArrow, Token::CodeFrag(code)],
        ) == Result::<TreeModel, ParseError>::Err(ParseError::EmptySequence(2)),
{
    let toks = seq![Token::Ident(name), Token::Equals, Token::FatArrow, Token::CodeFrag(code)];
    assert(atom_at(toks, 2, false, 5) == ElemModel::End);
    assert(elem_at(toks, 2, 5) == ElemModel::End);
    assert(elems_at(toks, 2, 5) == Result::<(Seq<TreeModel>, usize), ParseError>::Ok(
        (Seq::<TreeModel>::empty(), 2),
    ));
    assert(sequence_at(toks, 2, 5) == Result::<(TreeModel, usize), ParseError>::Err(
        ParseError::EmptySequence(2),
    ));
    assert(expression_at(toks, 2, 5) == Result::<(TreeModel, usize), ParseError>::Err(
        ParseError::EmptySequence(2),
    ));
    assert(definition_tail_at(toks, name@, Option::None, 1, 5) == Result::<
        (TreeModel, usize),
        ParseError,
    >::Err(ParseError::EmptySequence(2)));
    assert(definition_at(toks, 0, 5) == Result::<(TreeModel, usize), ParseError>::Err(
        ParseError::EmptySequence(2),
    ));
    assert(definitions_at(toks, 0, 5) == Result::<(Seq<TreeModel>, usize), ParseError>::Err(
        ParseError::EmptySequence(2),
    ));
}

/// Grouping transparency: parentheses are grouping only and introduce no
/// node of their own. For all names, the element `(a | b)` is exactly the
/// choice of the two one-element sequences, spliced directly into whatever
/// surrounds it.
pub proof fn lemma_grouping_transparent(a: String, b: String, fuel: nat)
    requires
        fuel >= 3,
    ensures
        elem_at(
            seq![Token::LParen, Token::Ident(a), Token::Pipe, Token::Ident(b), Token::RParen],
            0,
            fuel,
        ) == ElemModel::Found(
            TreeModel::Choice(
                seq![
                    TreeModel::Sequence(seq![TreeModel::NonTerminal(a@)], Option::None),
                    TreeModel::Sequence(seq![TreeModel::NonTerminal(b@)], Option::None)
                ],
            ),
            5,
        ),
{
    let toks = seq![Token::LParen, Token::Ident(a), Token::Pipe, Token::Ident(b), Token::RParen];
    let f1 = (fuel - 1) as nat;
    let nta = TreeModel::NonTerminal(a@);
    let ntb = TreeModel::NonTerminal(b@);
    let seqa = TreeModel::Sequence(seq![nta], Option::None);
    let seqb = TreeModel::Sequence(seq![ntb], Option::None);
    // First sequence: the single element `a`, ended by the `|`.
    assert(atom_at(toks, 1, false, f1) == ElemModel::Found(nta, 2));
    assert(elem_at(toks, 1, f1) == ElemModel::Found(nta, 2));
    assert(atom_at(toks, 2, false, (f1 - 1) as nat) == ElemModel::End);
    assert(elem_at(toks, 2, (f1 - 1) as nat) == ElemModel::End);
    assert(elems_at(toks, 2, (f1 - 1) as nat) == Result::<(Seq<TreeModel>, usize), ParseError>::Ok(
        (Seq::<TreeModel>::empty(), 2),
    ));
    assert(seq![nta] + Seq::<TreeModel>::empty() =~= seq![nta]);
    assert(elems_at(toks, 1, f1) == Result::<(Seq<TreeModel>, usize), ParseError>::Ok(
        (seq![nta], 2),
    ));
    assert(sequence_at(toks, 1, f1) == Result::<(TreeModel, usize), ParseError>::Ok((seqa, 2)));
    // Second sequence: the single element `b`, ended by the `)`.
    assert(atom_at(toks, 3, false, f1) == ElemModel::Found(ntb, 4));
    assert(elem_at(toks, 3, f1) == ElemModel::Found(ntb, 4));
    assert(atom_at(toks, 4, false, (f1 - 1) as nat) == ElemModel::End);
    assert(elem_at(toks, 4, (f1 - 1) as nat) == ElemModel::End);
    assert(elems_at(toks, 4, (f1 - 1) as nat) == Result::<(Seq<TreeModel>, usize), ParseError>::Ok(
        (Seq::<TreeModel>::empty(), 4),
    ));
    assert(seq![ntb] + Seq::<TreeModel>::empty() =~= seq![ntb]);
    assert(elems_at(toks, 3, f1) == Result::<(Seq<TreeModel>, usize), ParseError>::Ok(
        (seq![ntb], 4),
    ));
    assert(sequence_at(toks, 3, f1) == Result::<(TreeModel, usize), ParseError>::Ok((seqb, 4)));
    // The alternation inside the parentheses.
    assert(alts_at(toks, 4, (f1 - 1) as nat) == Result::<(Seq<TreeModel>, usize), ParseError>::Ok(
        (Seq::<TreeModel>::empty(), 4),
    ));
    assert(seq![seqb] + Seq::<TreeModel>::empty() =~= seq![seqb]);
    assert(alts_at(toks, 2, f1) == Result::<(Seq<TreeModel>, usize), ParseError>::Ok(
        (seq![seqb], 4),
    ));
    assert(expression_at(toks, 1, f1) == Result::<(TreeModel, usize), ParseError>::Ok(
        (TreeModel::Choice(seq![seqa] + seq![seqb]), 4),
    ));
    assert(seq![seqa] + seq![seqb] =~= seq![seqa, seqb]);
    assert(atom_at(toks, 0, false, fuel) == ElemModel::Found(
        TreeModel::Choice(seq![seqa, seqb]),
        5,
    ));
}

/// Every successful sequence parse yields a `Sequence` node with at least
/// one element, never a bare element and never an empty sequence.
pub proof fn lemma_sequence_shape(toks: Seq<Token>, pos: usize, fuel: nat)
    ensures
        sequence_at(toks, pos, fuel) matches Ok((m, p)) ==> m matches TreeModel::Sequence(es, _)
            && es.len() >= 1,
{
}

/// Every alternative collected after the first sequence of an expression is
/// itself a non-empty `Sequence` node.
pub proof fn lemma_alts_shape(toks: Seq<Token>, pos: usize, fuel: nat)
    ensures
        alts_at(toks, pos, fuel) matches Ok((ms, p)) ==> forall|i: int|
            0 <= i < ms.len() ==> (#[trigger] ms[i] matches TreeModel::Sequence(es, _) && es.len()
                >= 1),
    decreases fuel,
{
    if fuel == 0 {
    } else if pos < toks.len() && toks[pos as int] is Pipe {
        lemma_sequence_shape(toks, (pos + 1) as usize, fuel);
        match sequence_at(toks, (pos + 1) as usize, fuel) {
            Result::Ok((m, p2)) => {
                lemma_alts_shape(toks, p2, (fuel - 1) as nat);
            },
            Result::Err(_) => {
            },
        }
    } else {
    }
}

/// Alternation collapse: an expression with exactly one sequence never
/// produces a `Choice` node -- its result is that sequence itself; two or
/// more sequences always produce a `Choice` of at least two alternatives,
/// each a non-empty `Sequence`, in source order.
pub proof fn lemma_alternation_collapse(toks: Seq<Token>, pos: usize, fuel: nat)
    ensures
        expression_at(toks, pos, fuel) matches Ok((m, p)) ==> {
            ||| (m matches TreeModel::Sequence(es, _) && es.len() >= 1)
            ||| (m matches TreeModel::Choice(alts) && alts.len() >= 2 && forall|i: int|
                0 <= i < alts.len() ==> (#[trigger] alts[i] matches TreeModel::Sequence(es, _)
                    && es.len() >= 1))
        },
{
    if fuel == 0 {
    } else {
        lemma_sequence_shape(toks, pos, fuel);
        match sequence_at(toks, pos, fuel) {
            Result::Ok((first, p1)) => {
                lemma_alts_shape(toks, p1, fuel);
                match alts_at(toks, p1, fuel) {
                    Result::Ok((rest, p2)) => {
                        if rest.len() > 0 {
                            assert(forall|i: int|
                                0 <= i < (seq![first] + rest).len() ==> (#[trigger] (seq![first]
                                    + rest)[i] matches TreeModel::Sequence(es, _) && es.len()
                                    >= 1));
                        }
                    },
                    Result::Err(_) => {
                    },
                }
            },
            Result::Err(_) => {
            },
        }
    }
}

/// A successfully parsed grammar is a `DefinitionList` with at least one
/// definition.
pub proof fn lemma_grammar_nonempty(toks: Seq<Token>)
    ensures
        grammar_model(toks) matches Ok(m) ==> m matches TreeModel::DefinitionList(ds) && ds.len()
            >= 1,
{
}

/// Every atom the parser produces satisfies the structural invariant of a
/// rule-body node.
pub proof fn lemma_atom_wf(toks: Seq<Token>, pos: usize, prefixed: bool, fuel: nat)
    ensures
        atom_at(toks, pos, prefixed, fuel) matches ElemModel::Found(m, p) ==> wf_body(m),
    decreases fuel, 0nat,
{
    if fuel == 0 || pos >= toks.len() {
    } else {
        match toks[pos as int] {
            Token::LParen => {
                lemma_expression_wf(toks, (pos + 1) as usize, (fuel - 1) as nat);
            },
            Token::Lt => {
                let bound = pos + 2 < toks.len() && toks[pos + 1] is Ident
                    && toks[pos + 2] is Colon;
                let inner_pos: usize = if bound {
                    (pos + 3) as usize
                } else {
                    (pos + 1) as usize
                };
                lemma_elem_wf(toks, inner_pos, (fuel - 1) as nat);
            },
            _ => {
            },
        }
    }
}

/// Every element the parser produces satisfies the structural invariant of
/// a rule-body node: the prefix and postfix wrappers preserve it.
pub proof fn lemma_elem_wf(toks: Seq<Token>, pos: usize, fuel: nat)
    ensures
        elem_at(toks, pos, fuel) matches ElemModel::Found(m, p) ==> wf_body(m),
    decreases fuel, 1nat,
{
    if fuel == 0 {
    } else {
        let prefixed = pos < toks.len() && (toks[pos as int] is Amp || toks[pos as int] is Bang);
        let p1: usize = if prefixed {
            (pos + 1) as usize
        } else {
            pos
        };
        lemma_atom_wf(toks, p1, prefixed, fuel);
        reveal_with_fuel(wf_body, 3);
    }
}

/// Every element of a collected run satisfies the structural invariant of a
/// rule-body node.
pub proof fn lemma_elems_wf(toks: Seq<Token>, pos: usize, fuel: nat)
    ensures
        elems_at(toks, pos, fuel) matches Ok((ms, p)) ==> forall|i: int|
            0 <= i < ms.len() ==> wf_body(#[trigger] ms[i]),
    decreases fuel, 2nat,
{
    if fuel == 0 {
    } else {
        lemma_elem_wf(toks, pos, fuel);
        match elem_at(toks, pos, fuel) {
            ElemModel::Found(m, p2) => {
                lemma_elems_wf(toks, p2, (fuel - 1) as nat);
                match elems_at(toks, p2, (fuel - 1) as nat) {
                    Result::Ok((ms, p3)) => {
                        assert forall|i: int| 0 <= i < (seq![m] + ms).len() implies wf_body(
                            #[trigger] (seq![m] + ms)[i],
                        ) by {
                            if i == 0 {
                                assert((seq![m] + ms)[0] == m);
                            } else {
                                assert((seq![m] + ms)[i] == ms[i - 1]);
                            }
                        }
                    },
                    Result::Err(_) => {
                    },
                }
            },
            _ => {
            },
        }
    }
}

/// Every sequence the parser produces is a well-formed rule-body node.
pub proof fn lemma_sequence_wf(toks: Seq<Token>, pos: usize, fuel: nat)
    ensures
        sequence_at(toks, pos, fuel) matches Ok((m, p)) ==> wf_body(m),
    decreases fuel, 3nat,
{
    if fuel == 0 {
    } else {
        lemma_elems_wf(toks, pos, fuel);
    }
}

/// Every alternative collected after the first sequence of an expression is
/// a well-formed rule-body node.
pub proof fn lemma_alts_wf(toks: Seq<Token>, pos: usize, fuel: nat)
    ensures
        alts_at(toks, pos, fuel) matches Ok((ms, p)) ==> forall|i: int|
            0 <= i < ms.len() ==> wf_body(#[trigger] ms[i]),
    decreases fuel, 4nat,
{
    if fuel == 0 {
    } else if pos < toks.len() && toks[pos as int] is Pipe {
        lemma_sequence_wf(toks, (pos + 1) as usize, fuel);
        match sequence_at(toks, (pos + 1) as usize, fuel) {
            Result::Ok((m, p2)) => {
                lemma_alts_wf(toks, p2, (fuel - 1) as nat);
                match alts_at(toks, p2, (fuel - 1) as nat) {
                    Result::Ok((ms, p3)) => {
                        assert forall|i: int| 0 <= i < (seq![m] + ms).len() implies wf_body(
                            #[trigger] (seq![m] + ms)[i],
                        ) by {
                            if i == 0 {
                                assert((seq![m] + ms)[0] == m);
                            } else {
                                assert((seq![m] + ms)[i] == ms[i - 1]);
                            }
                        }
                    },
                    Result::Err(_) => {
                    },
                }
            },
            Result::Err(_) => {
            },
        }
    } else {
    }
}

/// Every expression the parser produces is a well-formed rule-body node:
/// in particular, a `Choice` it builds has at least two alternatives.
pub proof fn lemma_expression_wf(toks: Seq<Token>, pos: usize, fuel: nat)
    ensures
        expression_at(toks, pos, fuel) matches Ok((m, p)) ==> wf_body(m),
    decreases fuel, 5nat,
{
    if fuel == 0 {
    } else {
        lemma_sequence_wf(toks, pos, fuel);
        match sequence_at(toks, pos, fuel) {
            Result::Ok((first, p1)) => {
                lemma_alts_wf(toks, p1, fuel);
                match alts_at(toks, p1, fuel) {
                    Result::Ok((rest, p2)) => {
                        if rest.len() > 0 {
                            assert forall|i: int|
                                0 <= i < (seq![first] + rest).len() implies wf_body(
                                #[trigger] (seq![first] + rest)[i],
                            ) by {
                                if i == 0 {
                                    assert((seq![first] + rest)[0] == first);
                                } else {
                                    assert((seq![first] + rest)[i] == rest[i - 1]);
                                }
                            }
                        }
                    },
                    Result::Err(_) => {
                    },
                }
            },
            Result::Err(_) => {
            },
        }
    }
}

/// Every definition the parser produces is a `ParserDefinition` with a
/// well-formed body.
pub proof fn lemma_definition_wf(toks: Seq<Token>, pos: usize, fuel: nat)
    ensures
        definition_at(toks, pos, fuel) matches Ok((m, p)) ==> wf_definition(m),
    decreases fuel, 7nat,
{
    if fuel == 0 || !(pos < toks.len() && toks[pos as int] is Ident) {
    } else {
        let p1: usize = (pos + 1) as usize;
        let p3: usize = (pos + 3) as usize;
        lemma_expression_wf(toks, (p1 + 1) as usize, fuel);
        lemma_expression_wf(toks, (p3 + 1) as usize, fuel);
    }
}

/// Every definition of a collected run is well-formed.
pub proof fn lemma_definitions_wf(toks: Seq<Token>, pos: usize, fuel: nat)
    ensures
        definitions_at(toks, pos, fuel) matches Ok((ds, p)) ==> forall|i: int|
            0 <= i < ds.len() ==> wf_definition(#[trigger] ds[i]),
    decreases fuel, 8nat,
{
    if fuel == 0 {
    } else {
        lemma_definition_wf(toks, pos, fuel);
        match definition_at(toks, pos, fuel) {
            Result::Ok((d, p)) => {
                if p < toks.len() {
                    lemma_definitions_wf(toks, p, (fuel - 1) as nat);
                    match definitions_at(toks, p, (fuel - 1) as nat) {
                        Result::Ok((ds, p2)) => {
                            assert forall|i: int| 0 <= i < (seq![d] + ds).len() implies
                                wf_definition(#[trigger] (seq![d] + ds)[i]) by {
                                if i == 0 {
                                    assert((seq![d] + ds)[0] == d);
                                } else {
                                    assert((seq![d] + ds)[i] == ds[i - 1]);
                                }
                            }
                        },
                        Result::Err(_) => {
                        },
                    }
                }
            },
            Result::Err(_) => {
            },
        }
    }
}

/// The structural invariants of the data model hold of every tree the
/// parser returns: the grammar is a non-empty `DefinitionList` of
/// `ParserDefinition` nodes, every `Sequence` below them has at least one
/// element, and every `Choice` has at least two alternatives.
pub proof fn lemma_grammar_wf(toks: Seq<Token>)
    ensures
        grammar_model(toks) matches Ok(m) ==> wf_grammar(m),
{
    lemma_definitions_wf(toks, 0, toks.len() + 1);
}

} // verus!
