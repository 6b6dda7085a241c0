use vstd::prelude::*;
use crate::model::alts_at;
use crate::model::atom_at;
use crate::model::definition_at;
use crate::model::definition_tail_at;
use crate::model::definitions_at;
use crate::model::elem_at;
use crate::model::elems_at;
use crate::model::expression_at;
use crate::model::grammar_model;
use crate::model::header_at;
use crate::model::sequence_at;
use crate::model::ElemModel;
use crate::token::Token;
use crate::tree::models;
use crate::tree::opt_text;
use crate::tree::ParseError;
use crate::tree::ParseTree;
use crate::tree::TreeModel;

verus! {

/// A prefix operator: `&` (zero-width look-ahead) or `!` (negation).
pub(crate) enum Prefix {
    Peek,
    Not,
}

/// A postfix operator: `?` (optional), `*` (zero or more), `+` (one or more).
pub(crate) enum Postfix {
    Optional,
    Many0,
    Many1,
}

/// The executable counterpart of `ElemModel`: one parsed element, the silent
/// end of the current sequence, or a hard failure.
pub(crate) enum ElemOut {
    Found(ParseTree, usize),
    End,
    Fail(ParseError),
}

/// The abstraction of an element outcome.
pub(crate) open spec fn elem_out_view(r: ElemOut) -> ElemModel {
    match r {
        ElemOut::Found(t, p) => ElemModel::Found(t.model(), p),
        ElemOut::End => ElemModel::End,
        ElemOut::Fail(e) => ElemModel::Fail(e),
    }
}

/// The abstraction of a (tree, next position) parsing step.
pub(crate) open spec fn step_view(r: Result<(ParseTree, usize), ParseError>) -> Result<
    (TreeModel, usize),
    ParseError,
> {
    match r {
        Result::Ok((t, p)) => Result::Ok((t.model(), p)),
        Result::Err(e) => Result::Err(e),
    }
}

/// Prepends already-collected element models to the outcome of collecting
/// the remaining ones.
pub(crate) open spec fn list_prepend(
    ms: Seq<TreeModel>,
    rest: Result<(Seq<TreeModel>, usize), ParseError>,
) -> Result<(Seq<TreeModel>, usize), ParseError> {
    match rest {
        Result::Ok((ms2, p)) => Result::Ok((ms + ms2, p)),
        Result::Err(e) => Result::Err(e),
    }
}

/// The outcome of the definition loop once the definitions in `ms` have been
/// parsed and the cursor stands at `pos`: done if the stream is exhausted,
/// otherwise the remaining definitions follow.
pub(crate) open spec fn defs_tail(
    toks: Seq<Token>,
    ms: Seq<TreeModel>,
    pos: usize,
    fuel: nat,
) -> Result<(Seq<TreeModel>, usize), ParseError> {
    if pos >= toks.len() {
        Result::Ok((ms, pos))
    } else {
        list_prepend(ms, definitions_at(toks, pos, fuel))
    }
}

/// The executable form of `header_at`: does a rule header start at `pos`?
/// This is the speculative look-ahead of the disambiguation rule; it reads
/// ahead without consuming anything.
pub(crate) fn looks_like_header(toks: &Vec<Token>, pos: usize) -> (r: bool)
    ensures
        r == header_at(toks@, pos),
{
    if pos >= toks.len() {
        return false;
    }
    if !matches!(&toks[pos], Token::Ident(_)) {
        return false;
    }
    if pos + 1 >= toks.len() {
        return false;
    }
    match &toks[pos + 1] {
        Token::Equals => true,
        Token::Colon => {
            if pos + 2 >= toks.len() {
                return false;
            }
            if !matches!(&toks[pos + 2], Token::TypeFrag(_)) {
                return false;
            }
            if pos + 3 >= toks.len() {
                return false;
            }
            matches!(&toks[pos + 3], Token::Equals)
        },
        _ => false,
    }
}

/// Consume one prefix operator if one stands at `pos`; consume nothing and
/// report `None` otherwise. Absence is a valid, silent outcome.
pub(crate) fn parse_prefix(toks: &Vec<Token>, pos: usize) -> (r: (Option<Prefix>, usize))
    requires
        pos <= toks@.len(),
    ensures
        r.1 <= toks@.len(),
        pos < toks@.len() && toks@[pos as int] is Amp ==> r.0 == Option::Some(Prefix::Peek)
            && r.1 == pos + 1,
        pos < toks@.len() && toks@[pos as int] is Bang ==> r.0 == Option::Some(Prefix::Not)
            && r.1 == pos + 1,
        !(pos < toks@.len() && (toks@[pos as int] is Amp || toks@[pos as int] is Bang))
            ==> r.0 is None && r.1 == pos,
{
    if pos < toks.len() {
        match &toks[pos] {
            Token::Amp => (Option::Some(Prefix::Peek), pos + 1),
            Token::Bang => (Option::Some(Prefix::Not), pos + 1),
            _ => (Option::None, pos),
        }
    } else {
        (Option::None, pos)
    }
}

/// Consume one postfix operator if one stands at `pos`; consume nothing and
/// report `None` otherwise. Absence is a valid, silent outcome.
pub(crate) fn parse_postfix(toks: &Vec<Token>, pos: usize) -> (r: (Option<Postfix>, usize))
    requires
        pos <= toks@.len(),
    ensures
        r.1 <= toks@.len(),
        pos < toks@.len() && toks@[pos as int] is Question ==> r.0 == Option::Some(
            Postfix::Optional,
        ) && r.1 == pos + 1,
        pos < toks@.len() && toks@[pos as int] is Star ==> r.0 == Option::Some(Postfix::Many0)
            && r.1 == pos + 1,
        pos < toks@.len() && toks@[pos as int] is Plus ==> r.0 == Option::Some(Postfix::Many1)
            && r.1 == pos + 1,
        !(pos < toks@.len() && (toks@[pos as int] is Question || toks@[pos as int] is Star
            || toks@[pos as int] is Plus)) ==> r.0 is None && r.1 == pos,
{
    if pos < toks.len() {
        match &toks[pos] {
            Token::Question => (Option::Some(Postfix::Optional), pos + 1),
            Token::Star => (Option::Some(Postfix::Many0), pos + 1),
            Token::Plus => (Option::Some(Postfix::Many1), pos + 1),
            _ => (Option::None, pos),
        }
    } else {
        (Option::None, pos)
    }
}

/// Parse one atom at `pos`. `prefixed` tells whether a prefix operator was
/// just consumed, in which case an atom is mandatory. The ghost `fuel`
/// mirrors the recursion bound of the specification-level parser.
pub(crate) fn parse_atom(
    toks: &Vec<Token>,
    pos: usize,
    prefixed: bool,
    Ghost(fuel): Ghost<nat>,
) -> (r: ElemOut)
    requires
        pos <= toks@.len(),
        fuel >= toks@.len() - pos + 1,
    ensures
        elem_out_view(r) == atom_at(toks@, pos, prefixed, fuel),
        r matches ElemOut::Found(t, p) ==> pos < p <= toks@.len(),
    decreases toks@.len() - pos, 0nat,
{
    if pos >= toks.len() {
        if prefixed {
            return ElemOut::Fail(ParseError::UnexpectedToken(pos));
        }
        return ElemOut::End;
    }
    match &toks[pos] {
        Token::Ident(name) => {
            if looks_like_header(toks, pos) {
                if prefixed {
                    ElemOut::Fail(ParseError::UnexpectedToken(pos))
                } else {
                    ElemOut::End
                }
            } else {
                ElemOut::Found(ParseTree::NonTerminal(name.clone()), pos + 1)
            }
        },
        Token::PathSep => {
            if pos + 1 < toks.len() {
                match &toks[pos + 1] {
                    Token::Ident(name) => ElemOut::Found(ParseTree::Call(name.clone()), pos + 2),
                    _ => ElemOut::Fail(ParseError::UnexpectedToken(pos + 1)),
                }
            } else {
                ElemOut::Fail(ParseError::UnexpectedToken(pos + 1))
            }
        },
        Token::StrLit(text) => ElemOut::Found(ParseTree::Terminal(text.clone()), pos + 1),
        Token::LParen => {
            match parse_expression(toks, pos + 1, Ghost((fuel - 1) as nat)) {
                Result::Err(e) => ElemOut::Fail(e),
                Result::Ok((t, p)) => {
                    if p < toks.len() && matches!(&toks[p], Token::RParen) {
                        ElemOut::Found(t, p + 1)
                    } else {
                        ElemOut::Fail(ParseError::UnexpectedToken(p))
                    }
                },
            }
        },
        Token::Lt => {
            let bound = pos + 1 < toks.len() && pos + 2 < toks.len() && matches!(
                &toks[pos + 1],
                Token::Ident(_),
            ) && matches!(&toks[pos + 2], Token::Colon);
            let binding: Option<String> = if bound {
                match &toks[pos + 1] {
                    Token::Ident(n) => Option::Some(n.clone()),
                    _ => Option::None,
                }
            } else {
                Option::None
            };
            let inner_pos = if bound {
                pos + 3
            } else {
                pos + 1
            };
            match parse_element(toks, inner_pos, Ghost((fuel - 1) as nat)) {
                ElemOut::End => ElemOut::Fail(ParseError::UnexpectedToken(inner_pos)),
                ElemOut::Fail(e) => ElemOut::Fail(e),
                ElemOut::Found(t, p) => {
                    if p < toks.len() && matches!(&toks[p], Token::Gt) {
                        ElemOut::Found(ParseTree::Capture(Box::new(t), binding), p + 1)
                    } else {
                        ElemOut::Fail(ParseError::UnterminatedCapture(p))
                    }
                },
            }
        },
        _ => {
            if prefixed {
                ElemOut::Fail(ParseError::UnexpectedToken(pos))
            } else {
                ElemOut::End
            }
        },
    }
}

/// Parse one element at `pos`: optional prefix operator, one atom, optional
/// postfix operator. The postfix operator wraps the atom and the prefix
/// operator wraps the result, so `!a*` parses as `Not(Many0(a))`.
pub(crate) fn parse_element(toks: &Vec<Token>, pos: usize, Ghost(fuel): Ghost<nat>) -> (r: ElemOut)
    requires
        pos <= toks@.len(),
        fuel >= toks@.len() - pos + 1,
    ensures
        elem_out_view(r) == elem_at(toks@, pos, fuel),
        r matches ElemOut::Found(t, p) ==> pos < p <= toks@.len(),
    decreases toks@.len() - pos, 1nat,
{
    let (pre, p1) = parse_prefix(toks, pos);
    let prefixed = pre.is_some();
    proof {
        assert(prefixed == (pos < toks@.len() && (toks@[pos as int] is Amp || toks@[
            pos as int
        ] is Bang)));
    }
    match parse_atom(toks, p1, prefixed, Ghost(fuel)) {
        ElemOut::End => ElemOut::End,
        ElemOut::Fail(e) => ElemOut::Fail(e),
        ElemOut::Found(t, p2) => {
            let ghost tm = t.model();
            let (post, p3) = parse_postfix(toks, p2);
            let t2 = match post {
                Option::Some(Postfix::Optional) => ParseTree::Optional(Box::new(t)),
                Option::Some(Postfix::Many0) => ParseTree::Many0(Box::new(t)),
                Option::Some(Postfix::Many1) => ParseTree::Many1(Box::new(t)),
                Option::None => t,
            };
            proof {
                if p2 < toks@.len() && toks@[p2 as int] is Question {
                    assert(t2.model() == TreeModel::Optional(Box::new(tm)));
                } else if p2 < toks@.len() && toks@[p2 as int] is Star {
                    assert(t2.model() == TreeModel::Many0(Box::new(tm)));
                } else if p2 < toks@.len() && toks@[p2 as int] is Plus {
                    assert(t2.model() == TreeModel::Many1(Box::new(tm)));
                } else {
                    assert(t2.model() == tm);
                }
            }
            let ghost t2m = t2.model();
            let t3 = match pre {
                Option::Some(Prefix::Peek) => ParseTree::Peek(Box::new(t2)),
                Option::Some(Prefix::Not) => ParseTree::Not(Box::new(t2)),
                Option::None => t2,
            };
            proof {
                if prefixed && toks@[pos as int] is Amp {
                    assert(pre == Option::Some(Prefix::Peek));
                    assert(t3.model() == TreeModel::Peek(Box::new(t2m)));
                } else if prefixed {
                    assert(pre == Option::Some(Prefix::Not));
                    assert(t3.model() == TreeModel::Not(Box::new(t2m)));
                } else {
                    assert(t3.model() == t2m);
                }
            }
            ElemOut::Found(t3, p3)
        },
    }
}

/// Parse one sequence at `pos`: a maximal run of elements, then an optional
/// `=>` action fragment. Zero elements are a hard failure; the result is
/// always a `Sequence` node, even for a single element.
pub(crate) fn parse_sequence(toks: &Vec<Token>, pos: usize, Ghost(fuel): Ghost<nat>) -> (r: Result<
    (ParseTree, usize),
    ParseError,
>)
    requires
        pos <= toks@.len(),
        fuel >= toks@.len() - pos + 1,
    ensures
        step_view(r) == sequence_at(toks@, pos, fuel),
        r matches Ok((t, p)) ==> pos < p <= toks@.len(),
    decreases toks@.len() - pos, 3nat,
{
    let mut items: Vec<ParseTree> = Vec::new();
    let mut cur: usize = pos;
    let ghost mut gf: nat = fuel;
    loop
        invariant
            pos <= cur <= toks@.len(),
            fuel >= toks@.len() - pos + 1,
            gf >= toks@.len() - cur + 1,
            items@.len() > 0 ==> cur > pos,
            elems_at(toks@, pos, fuel) == list_prepend(models(items@), elems_at(toks@, cur, gf)),
        ensures
            pos <= cur <= toks@.len(),
            items@.len() > 0 ==> cur > pos,
            elems_at(toks@, pos, fuel) == Result::<(Seq<TreeModel>, usize), ParseError>::Ok(
                (models(items@), cur),
            ),
        decreases toks@.len() - cur,
    {
        match parse_element(toks, cur, Ghost(gf)) {
            ElemOut::Found(t, p2) => {
                proof {
                    let rest = elems_at(toks@, p2, (gf - 1) as nat);
                    assert(elems_at(toks@, cur, gf) == list_prepend(seq![t.model()], rest));
                    let old_ms = models(items@);
                    assert(models(items@.push(t)) =~= old_ms + seq![t.model()]);
                    match rest {
                        Result::Ok((ms2, p)) => {
                            assert((old_ms + seq![t.model()]) + ms2 =~= old_ms + (
                            seq![t.model()] + ms2));
                        },
                        Result::Err(_) => {},
                    }
                }
                items.push(t);
                cur = p2;
                proof {
                    gf = (gf - 1) as nat;
                }
            },
            ElemOut::End => {
                proof {
                    assert(elems_at(toks@, cur, gf) == Result::<
                        (Seq<TreeModel>, usize),
                        ParseError,
                    >::Ok((Seq::<TreeModel>::empty(), cur)));
                    assert(models(items@) + Seq::<TreeModel>::empty() =~= models(items@));
                }
                break;
            },
            ElemOut::Fail(e) => {
                return Result::Err(e);
            },
        }
    }
    if items.len() == 0 {
        return Result::Err(ParseError::EmptySequence(cur));
    }
    if cur < toks.len() && matches!(&toks[cur], Token::FatArrow) {
        if cur + 1 < toks.len() {
            match &toks[cur + 1] {
                Token::CodeFrag(code) => {
                    return Result::Ok(
                        (ParseTree::Sequence(items, Option::Some(code.clone())), cur + 2),
                    );
                },
                _ => {
                    return Result::Err(ParseError::UnexpectedToken(cur + 1));
                },
            }
        } else {
            return Result::Err(ParseError::UnexpectedToken(cur + 1));
        }
    }
    Result::Ok((ParseTree::Sequence(items, Option::None), cur))
}

/// Parse one expression at `pos`: one or more sequences separated by `|`.
/// One sequence is returned bare; two or more are wrapped in a `Choice` in
/// source order.
pub(crate) fn parse_expression(toks: &Vec<Token>, pos: usize, Ghost(fuel): Ghost<nat>) -> (r:
    Result<(ParseTree, usize), ParseError>)
    requires
        pos <= toks@.len(),
        fuel >= toks@.len() - pos + 1,
    ensures
        step_view(r) == expression_at(toks@, pos, fuel),
        r matches Ok((t, p)) ==> pos < p <= toks@.len(),
    decreases toks@.len() - pos, 5nat,
{
    let (t1, p1) = match parse_sequence(toks, pos, Ghost(fuel)) {
        Result::Ok(x) => x,
        Result::Err(e) => {
            return Result::Err(e);
        },
    };
    let ghost m1 = t1.model();
    let mut alts: Vec<ParseTree> = Vec::new();
    alts.push(t1);
    let mut cur: usize = p1;
    let ghost mut gf: nat = fuel;
    loop
        invariant
            pos <= p1 <= cur <= toks@.len(),
            fuel >= toks@.len() - pos + 1,
            gf >= toks@.len() - cur + 1,
            sequence_at(toks@, pos, fuel) == Result::<(TreeModel, usize), ParseError>::Ok(
                (m1, p1),
            ),
            alts@.len() >= 1,
            models(alts@)[0] == m1,
            alts_at(toks@, p1, fuel) == list_prepend(
                models(alts@).skip(1),
                alts_at(toks@, cur, gf),
            ),
        ensures
            p1 <= cur <= toks@.len(),
            alts@.len() >= 1,
            models(alts@)[0] == m1,
            alts_at(toks@, p1, fuel) == Result::<(Seq<TreeModel>, usize), ParseError>::Ok(
                (models(alts@).skip(1), cur),
            ),
        decreases toks@.len() - cur,
    {
        if !(cur < toks.len() && matches!(&toks[cur], Token::Pipe)) {
            proof {
                assert(alts_at(toks@, cur, gf) == Result::<
                    (Seq<TreeModel>, usize),
                    ParseError,
                >::Ok((Seq::<TreeModel>::empty(), cur)));
                assert(models(alts@).skip(1) + Seq::<TreeModel>::empty() =~= models(alts@).skip(
                    1,
                ));
            }
            break;
        }
        match parse_sequence(toks, cur + 1, Ghost(gf)) {
            Result::Err(e) => {
                return Result::Err(e);
            },
            Result::Ok((t2, p2)) => {
                proof {
                    let rest = alts_at(toks@, p2, (gf - 1) as nat);
                    assert(alts_at(toks@, cur, gf) == list_prepend(seq![t2.model()], rest));
                    let old_ms = models(alts@).skip(1);
                    assert(models(alts@.push(t2)).skip(1) =~= old_ms + seq![t2.model()]);
                    assert(models(alts@.push(t2))[0] == m1);
                    match rest {
                        Result::Ok((ms2, p)) => {
                            assert((old_ms + seq![t2.model()]) + ms2 =~= old_ms + (
                            seq![t2.model()] + ms2));
                        },
                        Result::Err(_) => {},
                    }
                }
                alts.push(t2);
                cur = p2;
                proof {
                    gf = (gf - 1) as nat;
                }
            },
        }
    }
    if alts.len() == 1 {
        let t = alts.remove(0);
        proof {
            assert(t.model() == m1);
        }
        Result::Ok((t, cur))
    } else {
        proof {
            assert(models(alts@) =~= seq![m1] + models(alts@).skip(1));
        }
        Result::Ok((ParseTree::Choice(alts), cur))
    }
}

/// Parse one full rule definition at `pos`: identifier, optional `:` with an
/// opaque type fragment, `=`, and one expression as the body.
pub(crate) fn parse_definition(toks: &Vec<Token>, pos: usize, Ghost(fuel): Ghost<nat>) -> (r:
    Result<(ParseTree, usize), ParseError>)
    requires
        pos <= toks@.len(),
        fuel >= toks@.len() - pos + 1,
    ensures
        step_view(r) == definition_at(toks@, pos, fuel),
        r matches Ok((t, p)) ==> pos < p <= toks@.len(),
    decreases toks@.len() - pos, 7nat,
{
    if pos >= toks.len() {
        return Result::Err(ParseError::ExpectedDefinitionName(pos));
    }
    let name = match &toks[pos] {
        Token::Ident(n) => n.clone(),
        _ => {
            return Result::Err(ParseError::ExpectedDefinitionName(pos));
        },
    };
    let mut cur = pos + 1;
    let mut ty: Option<String> = Option::None;
    if cur < toks.len() && matches!(&toks[cur], Token::Colon) {
        if cur + 1 < toks.len() {
            match &toks[cur + 1] {
                Token::TypeFrag(t) => {
                    ty = Option::Some(t.clone());
                    cur = cur + 2;
                },
                _ => {
                    return Result::Err(ParseError::ExpectedType(cur + 1));
                },
            }
        } else {
            return Result::Err(ParseError::ExpectedType(cur + 1));
        }
    }
    proof {
        assert(definition_at(toks@, pos, fuel) == definition_tail_at(
            toks@,
            name@,
            opt_text(ty),
            cur,
            fuel,
        ));
    }
    if !(cur < toks.len() && matches!(&toks[cur], Token::Equals)) {
        return Result::Err(ParseError::ExpectedEquals(cur));
    }
    match parse_expression(toks, cur + 1, Ghost(fuel)) {
        Result::Err(e) => Result::Err(e),
        Result::Ok((body, p)) => Result::Ok(
            (ParseTree::ParserDefinition(name, ty, Box::new(body)), p),
        ),
    }
}

impl ParseTree {
    /// Parse a whole grammar: a non-empty run of definitions that exhausts
    /// the token stream. The returned value is exactly what `grammar_model`
    /// says about the stream: the tree for the inputs it accepts, and the
    /// error, with its position, for the inputs it rejects.
    #[verifier::loop_isolation(false)]
    pub fn parse(toks: &Vec<Token>) -> (r: Result<ParseTree, ParseError>)
        ensures
            r matches Ok(t) ==> grammar_model(toks@) == Result::<TreeModel, ParseError>::Ok(
                t.model(),
            ),
            r matches Err(e) ==> grammar_model(toks@) == Result::<TreeModel, ParseError>::Err(e),
    {
        let ghost fuel: nat = toks@.len() + 1;
        let (d0, p0) = match parse_definition(toks, 0, Ghost(fuel)) {
            Result::Ok(x) => x,
            Result::Err(e) => {
                return Result::Err(e);
            },
        };
        let mut defs: Vec<ParseTree> = Vec::new();
        proof {
            assert(models(defs@.push(d0)) =~= seq![d0.model()]);
        }
        defs.push(d0);
        let mut cur: usize = p0;
        let ghost mut gf: nat = (fuel - 1) as nat;
        while cur < toks.len()
            invariant
                0 < cur <= toks@.len(),
                gf >= toks@.len() - cur + 1,
                defs@.len() >= 1,
                definitions_at(toks@, 0, fuel) == defs_tail(toks@, models(defs@), cur, gf),
            decreases toks@.len() - cur,
        {
            match parse_definition(toks, cur, Ghost(gf)) {
                Result::Err(e) => {
                    return Result::Err(e);
                },
                Result::Ok((d, p)) => {
                    proof {
                        let rest = definitions_at(toks@, p, (gf - 1) as nat);
                        let old_ms = models(defs@);
                        assert(models(defs@.push(d)) =~= old_ms + seq![d.model()]);
                        if p >= toks@.len() {
                            assert(definitions_at(toks@, cur, gf) == Result::<
                                (Seq<TreeModel>, usize),
                                ParseError,
                            >::Ok((seq![d.model()], p)));
                        } else {
                            assert(definitions_at(toks@, cur, gf) == list_prepend(
                                seq![d.model()],
                                rest,
                            ));
                            match rest {
                                Result::Ok((ms2, q)) => {
                                    assert((old_ms + seq![d.model()]) + ms2 =~= old_ms + (
                                    seq![d.model()] + ms2));
                                },
                                Result::Err(_) => {},
                            }
                        }
                    }
                    defs.push(d);
                    cur = p;
                    proof {
                        gf = (gf - 1) as nat;
                    }
                },
            }
        }
        Result::Ok(ParseTree::DefinitionList(defs))
    }
}

} // verus!
