use vstd::prelude::*;
use crate::token::Token;
use crate::tree::ParseError;
use crate::tree::TreeModel;

verus! {

/// Does a rule header (`IDENT (':' TYPE)? '='`) start at `pos`? This is the
/// speculative look-ahead that settles the one ambiguity of the grammar: an
/// identifier found where an element is expected either refers to a
/// non-terminal or opens the next rule definition. It opens the next
/// definition exactly when this header pattern follows.
pub open spec fn header_at(toks: Seq<Token>, pos: usize) -> bool {
    &&& pos < toks.len()
    &&& toks[pos as int] is Ident
    &&& {
        ||| (pos + 1 < toks.len() && toks[pos + 1] is Equals)
        ||| (pos + 3 < toks.len() && toks[pos + 1] is Colon && toks[pos + 2] is TypeFrag
            && toks[pos + 3] is Equals)
    }
}

/// The three-way outcome of parsing one element: an element and the position
/// just past it, the silent "no element here, the current sequence is
/// complete" signal (nothing consumed), or a hard failure.
pub enum ElemModel {
    Found(TreeModel, usize),
    End,
    Fail(ParseError),
}

/// One atom of the grammar: a non-terminal reference, an external call, a
/// string terminal, a parenthesized sub-expression, or a capture group.
///
/// `prefixed` records whether a prefix operator was consumed just before the
/// atom; if so an atom is mandatory, and a position where none can start is a
/// hard failure instead of the silent end of the sequence.
///
/// `fuel` bounds the recursion depth of the whole family of parsing
/// functions. Every entry point supplies more fuel than the stream holds
/// tokens, and since each recursion step first consumes a token, the fuel is
/// never exhausted on any reachable path.
pub open spec fn atom_at(toks: Seq<Token>, pos: usize, prefixed: bool, fuel: nat) -> ElemModel
    decreases fuel, 0nat,
{
    if fuel == 0 {
        ElemModel::Fail(ParseError::UnexpectedToken(pos))
    } else if pos >= toks.len() {
        if prefixed {
            ElemModel::Fail(ParseError::UnexpectedToken(pos))
        } else {
            ElemModel::End
        }
    } else {
        match toks[pos as int] {
            Token::Ident(name) => if header_at(toks, pos) {
                // The identifier opens the next rule definition.
                if prefixed {
                    ElemModel::Fail(ParseError::UnexpectedToken(pos))
                } else {
                    ElemModel::End
                }
            } else {
                ElemModel::Found(TreeModel::NonTerminal(name@), (pos + 1) as usize)
            },
            Token::PathSep => if pos + 1 < toks.len() {
                match toks[pos + 1] {
                    Token::Ident(name) => ElemModel::Found(
                        TreeModel::Call(name@),
                        (pos + 2) as usize,
                    ),
                    _ => ElemModel::Fail(ParseError::UnexpectedToken((pos + 1) as usize)),
                }
            } else {
                ElemModel::Fail(ParseError::UnexpectedToken((pos + 1) as usize))
            },
            Token::StrLit(text) => ElemModel::Found(
                TreeModel::Terminal(text@),
                (pos + 1) as usize,
            ),
            Token::LParen => match expression_at(toks, (pos + 1) as usize, (fuel - 1) as nat) {
                Result::Err(e) => ElemModel::Fail(e),
                Result::Ok((m, p)) => if p < toks.len() && toks[p as int] is RParen {
                    // Parentheses are transparent grouping: the inner
                    // expression is the atom, with no wrapper node.
                    ElemModel::Found(m, (p + 1) as usize)
                } else {
                    ElemModel::Fail(ParseError::UnexpectedToken(p))
                },
            },
            Token::Lt => {
                let bound = pos + 2 < toks.len() && toks[pos + 1] is Ident
                    && toks[pos + 2] is Colon;
                let binding: Option<Seq<char>> = if bound {
                    match toks[pos + 1] {
                        Token::Ident(n) => Option::Some(n@),
                        _ => Option::None,
                    }
                } else {
                    Option::None
                };
                let inner_pos: usize = if bound {
                    (pos + 3) as usize
                } else {
                    (pos + 1) as usize
                };
                match elem_at(toks, inner_pos, (fuel - 1) as nat) {
                    ElemModel::End => ElemModel::Fail(ParseError::UnexpectedToken(inner_pos)),
                    ElemModel::Fail(e) => ElemModel::Fail(e),
                    ElemModel::Found(m, p) => if p < toks.len() && toks[p as int] is Gt {
                        ElemModel::Found(
                            TreeModel::Capture(Box::new(m), binding),
                            (p + 1) as usize,
                        )
                    } else {
                        ElemModel::Fail(ParseError::UnterminatedCapture(p))
                    },
                }
            },
            _ => if prefixed {
                ElemModel::Fail(ParseError::UnexpectedToken(pos))
            } else {
                ElemModel::End
            },
        }
    }
}

/// One element: an optional prefix operator (`&` look-ahead, `!` negation),
/// an atom, and an optional postfix operator (`?`, `*`, `+`). The postfix
/// operator wraps the atom, and the prefix operator wraps the whole result:
/// `!a*` means `Not(Many0(a))`.
pub open spec fn elem_at(toks: Seq<Token>, pos: usize, fuel: nat) -> ElemModel
    decreases fuel, 1nat,
{
    if fuel == 0 {
        ElemModel::Fail(ParseError::UnexpectedToken(pos))
    } else {
        let prefixed = pos < toks.len() && (toks[pos as int] is Amp || toks[pos as int] is Bang);
        let p1: usize = if prefixed {
            (pos + 1) as usize
        } else {
            pos
        };
        match atom_at(toks, p1, prefixed, fuel) {
            ElemModel::End => ElemModel::End,
            ElemModel::Fail(e) => ElemModel::Fail(e),
            ElemModel::Found(m, p2) => {
                let post = p2 < toks.len() && (toks[p2 as int] is Question
                    || toks[p2 as int] is Star || toks[p2 as int] is Plus);
                let m2 = if p2 < toks.len() && toks[p2 as int] is Question {
                    TreeModel::Optional(Box::new(m))
                } else if p2 < toks.len() && toks[p2 as int] is Star {
                    TreeModel::Many0(Box::new(m))
                } else if p2 < toks.len() && toks[p2 as int] is Plus {
                    TreeModel::Many1(Box::new(m))
                } else {
                    m
                };
                let p3: usize = if post {
                    (p2 + 1) as usize
                } else {
                    p2
                };
                let m3 = if prefixed && toks[pos as int] is Amp {
                    TreeModel::Peek(Box::new(m2))
                } else if prefixed {
                    TreeModel::Not(Box::new(m2))
                } else {
                    m2
                };
                ElemModel::Found(m3, p3)
            },
        }
    }
}

/// A maximal run of elements starting at `pos`: elements are parsed until
/// one reports the silent end of the sequence; a hard failure of any element
/// propagates.
pub open spec fn elems_at(toks: Seq<Token>, pos: usize, fuel: nat) -> Result<
    (Seq<TreeModel>, usize),
    ParseError,
>
    decreases fuel, 2nat,
{
    if fuel == 0 {
        Result::Err(ParseError::UnexpectedToken(pos))
    } else {
        match elem_at(toks, pos, fuel) {
            ElemModel::End => Result::Ok((Seq::<TreeModel>::empty(), pos)),
            ElemModel::Fail(e) => Result::Err(e),
            ElemModel::Found(m, p2) => match elems_at(toks, p2, (fuel - 1) as nat) {
                Result::Err(e) => Result::Err(e),
                Result::Ok((ms, p3)) => Result::Ok((seq![m] + ms, p3)),
            },
        }
    }
}

/// One sequence: a non-empty run of elements followed by an optional action
/// fragment (`=>` and a code block). Zero elements are a hard failure, and
/// the result is always a `Sequence` node, even for a single element.
pub open spec fn sequence_at(toks: Seq<Token>, pos: usize, fuel: nat) -> Result<
    (TreeModel, usize),
    ParseError,
>
    decreases fuel, 3nat,
{
    if fuel == 0 {
        Result::Err(ParseError::UnexpectedToken(pos))
    } else {
        match elems_at(toks, pos, fuel) {
            Result::Err(e) => Result::Err(e),
            Result::Ok((ms, p)) => if ms.len() == 0 {
                Result::Err(ParseError::EmptySequence(p))
            } else if p < toks.len() && toks[p as int] is FatArrow {
                if p + 1 < toks.len() {
                    match toks[p + 1] {
                        Token::CodeFrag(code) => Result::Ok(
                            (TreeModel::Sequence(ms, Option::Some(code@)), (p + 2) as usize),
                        ),
                        _ => Result::Err(ParseError::UnexpectedToken((p + 1) as usize)),
                    }
                } else {
                    Result::Err(ParseError::UnexpectedToken((p + 1) as usize))
                }
            } else {
                Result::Ok((TreeModel::Sequence(ms, Option::None), p))
            },
        }
    }
}

/// The alternatives after the first sequence of an expression: as long as a
/// `|` follows, it is consumed together with one more sequence.
pub open spec fn alts_at(toks: Seq<Token>, pos: usize, fuel: nat) -> Result<
    (Seq<TreeModel>, usize),
    ParseError,
>
    decreases fuel, 4nat,
{
    if fuel == 0 {
        Result::Err(ParseError::UnexpectedToken(pos))
    } else if pos < toks.len() && toks[pos as int] is Pipe {
        match sequence_at(toks, (pos + 1) as usize, fuel) {
            Result::Err(e) => Result::Err(e),
            Result::Ok((m, p2)) => match alts_at(toks, p2, (fuel - 1) as nat) {
                Result::Err(e) => Result::Err(e),
                Result::Ok((ms, p3)) => Result::Ok((seq![m] + ms, p3)),
            },
        }
    } else {
        Result::Ok((Seq::<TreeModel>::empty(), pos))
    }
}

/// One expression: one or more sequences separated by `|`. A single sequence
/// is returned directly; two or more are wrapped in a `Choice` node in
/// source order.
pub open spec fn expression_at(toks: Seq<Token>, pos: usize, fuel: nat) -> Result<
    (TreeModel, usize),
    ParseError,
>
    decreases fuel, 5nat,
{
    if fuel == 0 {
        Result::Err(ParseError::UnexpectedToken(pos))
    } else {
        match sequence_at(toks, pos, fuel) {
            Result::Err(e) => Result::Err(e),
            Result::Ok((first, p1)) => match alts_at(toks, p1, fuel) {
                Result::Err(e) => Result::Err(e),
                Result::Ok((rest, p2)) => if rest.len() == 0 {
                    Result::Ok((first, p2))
                } else {
                    Result::Ok((TreeModel::Choice(seq![first] + rest), p2))
                },
            },
        }
    }
}

/// The `=` and body of a definition whose header (name and optional type)
/// has already been consumed.
pub open spec fn definition_tail_at(
    toks: Seq<Token>,
    name: Seq<char>,
    ty: Option<Seq<char>>,
    pos: usize,
    fuel: nat,
) -> Result<(TreeModel, usize), ParseError>
    decreases fuel, 6nat,
{
    if fuel == 0 {
        Result::Err(ParseError::UnexpectedToken(pos))
    } else if pos < toks.len() && toks[pos as int] is Equals {
        match expression_at(toks, (pos + 1) as usize, fuel) {
            Result::Err(e) => Result::Err(e),
            Result::Ok((body, p)) => Result::Ok(
                (TreeModel::ParserDefinition(name, ty, Box::new(body)), p),
            ),
        }
    } else {
        Result::Err(ParseError::ExpectedEquals(pos))
    }
}

/// One full rule definition: identifier, optional `:` with an opaque type
/// fragment, `=`, and one expression as the body.
pub open spec fn definition_at(toks: Seq<Token>, pos: usize, fuel: nat) -> Result<
    (TreeModel, usize),
    ParseError,
>
    decreases fuel, 7nat,
{
    if fuel == 0 {
        Result::Err(ParseError::UnexpectedToken(pos))
    } else if !(pos < toks.len() && toks[pos as int] is Ident) {
        Result::Err(ParseError::ExpectedDefinitionName(pos))
    } else {
        let name = match toks[pos as int] {
            Token::Ident(n) => n@,
            _ => Seq::<char>::empty(),
        };
        if pos + 1 < toks.len() && toks[pos + 1] is Colon {
            if pos + 2 < toks.len() {
                match toks[pos + 2] {
                    Token::TypeFrag(ty) => definition_tail_at(
                        toks,
                        name,
                        Option::Some(ty@),
                        (pos + 3) as usize,
                        fuel,
                    ),
                    _ => Result::Err(ParseError::ExpectedType((pos + 2) as usize)),
                }
            } else {
                Result::Err(ParseError::ExpectedType((pos + 2) as usize))
            }
        } else {
            definition_tail_at(toks, name, Option::None, (pos + 1) as usize, fuel)
        }
    }
}

/// The run of definitions from `pos` to the end of the stream: at least one,
/// then more until the stream is exhausted. Any failure here is hard: there
/// is no enclosing construct that could absorb it.
pub open spec fn definitions_at(toks: Seq<Token>, pos: usize, fuel: nat) -> Result<
    (Seq<TreeModel>, usize),
    ParseError,
>
    decreases fuel, 8nat,
{
    if fuel == 0 {
        Result::Err(ParseError::UnexpectedToken(pos))
    } else {
        match definition_at(toks, pos, fuel) {
            Result::Err(e) => Result::Err(e),
            Result::Ok((d, p)) => if p >= toks.len() {
                Result::Ok((seq![d], p))
            } else {
                match definitions_at(toks, p, (fuel - 1) as nat) {
                    Result::Err(e) => Result::Err(e),
                    Result::Ok((ds, p2)) => Result::Ok((seq![d] + ds, p2)),
                }
            },
        }
    }
}

/// The meaning of parsing a whole grammar from `toks`: either the model of
/// the definition list, or the error the parser reports. `ParseTree::parse`
/// returns exactly this value (with its tree abstracted by
/// `ParseTree::model`), so every behaviour of the parser, including which
/// error is reported for which input, is pinned down here.
pub open spec fn grammar_model(toks: Seq<Token>) -> Result<TreeModel, ParseError> {
    match definitions_at(toks, 0, toks.len() + 1) {
        Result::Err(e) => Result::Err(e),
        Result::Ok((ds, _p)) => Result::Ok(TreeModel::DefinitionList(ds)),
    }
}

} // verus!
