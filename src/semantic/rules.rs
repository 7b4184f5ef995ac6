//! The typing rules of expressions and musical literals, as functions from
//! the analyzer's state to the check's outcome. The analyzer's read-only
//! checks are proved to compute exactly these.
use crate::ast::{
    AddExpr, Asgn, AsgnRVal, Block, CompUnit, ConstDecl, FuncDef, FuncFParam, IfElse, Score, Stmt,
    VarDecl, While, BType, EqExpr, FuncCall, FuncType, LAndExpr, LOrExpr, LVal, Measure,
    MeasureRVal, MeasureUnit, MulExpr, Note, Phrase, PhraseRVal, PrimaryExpr, RelExpr, ScoreStmt,
    Track, TrackRVal,
};
use crate::error::{Error, InternalError, SemanticError};
use crate::semantic::analyzer::{compatible, is_composite, single, AnalyzerModel};
use crate::semantic::scope::{find_symbol, resolve, ScopeModel, SymbolKindModel, SymbolModel};
use vstd::prelude::*;

verus! {

pub open spec fn nesting_error() -> Error {
    Error::InternalError(InternalError::NestingLimit)
}

/// `found` where `expect` is needed.
pub open spec fn tc(found: BType, expect: BType) -> Result<(), Error> {
    if compatible(found, expect) {
        Ok(())
    } else {
        Err(
            Error::SemanticError(
                SemanticError::TypeMismatch { expected: expect, found: FuncType::BType(found) },
            ),
        )
    }
}

/// The type of a constant or variable occurrence.
pub open spec fn lval_type(an: AnalyzerModel, l: LVal) -> Result<BType, Error> {
    match resolve(an.scopes, an.current as int, l.ident@) {
        Some((b, j)) => match an.scopes[b].symbols[j].kind {
            SymbolKindModel::Val(t) => Ok(t),
            SymbolKindModel::Func(..) => Err(Error::SemanticError(SemanticError::Undefined(l.ident))),
        },
        None => Err(Error::SemanticError(SemanticError::Undefined(l.ident))),
    }
}

/// An operand of an arithmetic or logical operator: an integer or boolean.
pub open spec fn arith(t: BType) -> Result<(), Error> {
    if t == BType::Int || t == BType::Bool {
        Ok(())
    } else {
        Err(Error::SemanticError(SemanticError::NonArithmeticOperand))
    }
}

/// A parenthesized expression under an operator: each of its operands
/// must be arithmetic.
pub open spec fn ck_operand(an: AnalyzerModel, e: LOrExpr, fuel: nat) -> Result<(), Error>
    decreases fuel, 0int, 0int,
{
    if fuel == 0 {
        Err(nesting_error())
    } else {
        ck_lor_from(an, e, 0, None, false, (fuel - 1) as nat)
    }
}

/// An expression where `expected` is needed (any value for `None`).
pub open spec fn ck_expr(an: AnalyzerModel, e: LOrExpr, expected: Option<BType>, fuel: nat) -> Result<
    (),
    Error,
>
    decreases fuel, 0int, 0int,
{
    if fuel == 0 {
        Err(nesting_error())
    } else if !single(e) && (expected matches Some(t) && is_composite(t)) {
        Err(Error::SemanticError(SemanticError::NonArithmeticOperand))
    } else {
        ck_lor_from(
            an,
            e,
            0,
            if single(e) {
                expected
            } else {
                None
            },
            single(e),
            (fuel - 1) as nat,
        )
    }
}

pub open spec fn ck_lor_from(
    an: AnalyzerModel,
    e: LOrExpr,
    i: int,
    expected: Option<BType>,
    alone: bool,
    fuel: nat,
) -> Result<(), Error>
    decreases fuel, 6int, e.land_exps@.len() - i,
{
    if i >= e.land_exps@.len() || i < 0 {
        Ok(())
    } else {
        match ck_land_from(an, e.land_exps@[i], 0, expected, alone, fuel) {
            Ok(()) => ck_lor_from(an, e, i + 1, expected, alone, fuel),
            Err(x) => Err(x),
        }
    }
}

pub open spec fn ck_land_from(
    an: AnalyzerModel,
    e: LAndExpr,
    i: int,
    expected: Option<BType>,
    alone: bool,
    fuel: nat,
) -> Result<(), Error>
    decreases fuel, 5int, e.eq_exps@.len() - i,
{
    if i >= e.eq_exps@.len() || i < 0 {
        Ok(())
    } else {
        match ck_eq_from(an, e.eq_exps@[i], 0, expected, alone, fuel) {
            Ok(()) => ck_land_from(an, e, i + 1, expected, alone, fuel),
            Err(x) => Err(x),
        }
    }
}

pub open spec fn ck_eq_from(
    an: AnalyzerModel,
    e: EqExpr,
    i: int,
    expected: Option<BType>,
    alone: bool,
    fuel: nat,
) -> Result<(), Error>
    decreases fuel, 4int, e.rel_exps@.len() - i,
{
    if i >= e.rel_exps@.len() || i < 0 {
        Ok(())
    } else {
        match ck_rel_from(an, e.rel_exps@[i], 0, expected, alone, fuel) {
            Ok(()) => ck_eq_from(an, e, i + 1, expected, alone, fuel),
            Err(x) => Err(x),
        }
    }
}

pub open spec fn ck_rel_from(
    an: AnalyzerModel,
    e: RelExpr,
    i: int,
    expected: Option<BType>,
    alone: bool,
    fuel: nat,
) -> Result<(), Error>
    decreases fuel, 3int, e.add_exps@.len() - i,
{
    if i >= e.add_exps@.len() || i < 0 {
        Ok(())
    } else {
        match ck_add_from(an, e.add_exps@[i], 0, expected, alone, fuel) {
            Ok(()) => ck_rel_from(an, e, i + 1, expected, alone, fuel),
            Err(x) => Err(x),
        }
    }
}

pub open spec fn ck_add_from(
    an: AnalyzerModel,
    e: AddExpr,
    i: int,
    expected: Option<BType>,
    alone: bool,
    fuel: nat,
) -> Result<(), Error>
    decreases fuel, 2int, e.mul_exps@.len() - i,
{
    if i >= e.mul_exps@.len() || i < 0 {
        Ok(())
    } else {
        match ck_mul_from(an, e.mul_exps@[i], 0, expected, alone, fuel) {
            Ok(()) => ck_add_from(an, e, i + 1, expected, alone, fuel),
            Err(x) => Err(x),
        }
    }
}

pub open spec fn ck_mul_from(
    an: AnalyzerModel,
    e: MulExpr,
    i: int,
    expected: Option<BType>,
    alone: bool,
    fuel: nat,
) -> Result<(), Error>
    decreases fuel, 1int, e.unary_exps@.len() - i,
{
    if i >= e.unary_exps@.len() || i < 0 {
        Ok(())
    } else {
        match ck_primary(an, e.unary_exps@[i].primary_exp, expected, alone, fuel) {
            Ok(()) => ck_mul_from(an, e, i + 1, expected, alone, fuel),
            Err(x) => Err(x),
        }
    }
}

/// One operand. As the whole expression (`alone`) it must fit `expected`;
/// under an operator it must be an integer or boolean.
pub open spec fn ck_primary(
    an: AnalyzerModel,
    p: PrimaryExpr,
    expected: Option<BType>,
    alone: bool,
    fuel: nat,
) -> Result<(), Error>
    decreases fuel, 0int, 0int,
{
    if fuel == 0 {
        Err(nesting_error())
    } else {
        match p {
            PrimaryExpr::Number(_) => match expected {
                Some(t) => tc(BType::Int, t),
                None => Ok(()),
            },
            PrimaryExpr::LVal(l) => match lval_type(an, l) {
                Err(x) => Err(x),
                Ok(t) => match expected {
                    Some(x) => tc(t, x),
                    None => if alone {
                        Ok(())
                    } else {
                        arith(t)
                    },
                },
            },
            PrimaryExpr::FuncCall(c) => match ck_call(an, c, (fuel - 1) as nat) {
                Err(x) => Err(x),
                Ok(ret) => match (ret, expected) {
                    (FuncType::Void, Some(x)) => Err(
                        Error::SemanticError(
                            SemanticError::TypeMismatch { expected: x, found: FuncType::Void },
                        ),
                    ),
                    (FuncType::Void, None) => if alone {
                        Ok(())
                    } else {
                        Err(Error::SemanticError(SemanticError::NonArithmeticOperand))
                    },
                    (FuncType::BType(t), Some(x)) => tc(t, x),
                    (FuncType::BType(t), None) => if alone {
                        Ok(())
                    } else {
                        arith(t)
                    },
                },
            },
            PrimaryExpr::Expr(inner) => if alone {
                ck_expr(an, inner, expected, (fuel - 1) as nat)
            } else {
                ck_operand(an, inner, (fuel - 1) as nat)
            },
        }
    }
}

/// A call: the callee must be a function taking as many arguments as
/// given, each fitting its parameter. Yields the return type.
pub open spec fn ck_call(an: AnalyzerModel, c: FuncCall, fuel: nat) -> Result<FuncType, Error>
    decreases fuel, 0int, 0int,
{
    match resolve(an.scopes, an.current as int, c.ident@) {
        None => Err(Error::SemanticError(SemanticError::UnknownFunction(c.ident))),
        Some((b, j)) => match an.scopes[b].symbols[j].kind {
            SymbolKindModel::Val(_) => Err(
                Error::SemanticError(SemanticError::UnknownFunction(c.ident)),
            ),
            SymbolKindModel::Func(ret, ps) => if ps.len() != c.func_rparams@.len() {
                Err(Error::SemanticError(SemanticError::ArityMismatch(c.ident)))
            } else if fuel == 0 {
                Err(nesting_error())
            } else {
                match ck_args_from(an, c, ps, 0, (fuel - 1) as nat) {
                    Ok(()) => Ok(ret),
                    Err(x) => Err(x),
                }
            },
        },
    }
}

pub open spec fn ck_args_from(an: AnalyzerModel, c: FuncCall, ps: Seq<BType>, i: int, fuel: nat) -> Result<
    (),
    Error,
>
    decreases fuel, 1int, c.func_rparams@.len() - i,
{
    if i >= c.func_rparams@.len() || i < 0 {
        Ok(())
    } else {
        match ck_asgn_rval(an, c.func_rparams@[i], ps[i], fuel) {
            Ok(()) => ck_args_from(an, c, ps, i + 1, fuel),
            Err(x) => Err(x),
        }
    }
}

/// A right-hand side for a cell of type `expect`: an expression is checked
/// against it, a literal must be of exactly that kind.
pub open spec fn ck_asgn_rval(an: AnalyzerModel, a: AsgnRVal, expect: BType, fuel: nat) -> Result<
    (),
    Error,
>
    decreases fuel, 0int, 0int,
{
    if fuel == 0 {
        Err(nesting_error())
    } else {
        match a {
            AsgnRVal::Expr(e) => ck_expr(an, e, Some(expect), (fuel - 1) as nat),
            AsgnRVal::Note(n) => match ck_note(an, n, (fuel - 1) as nat) {
                Ok(()) => tc(BType::Note, expect),
                Err(x) => Err(x),
            },
            AsgnRVal::Measure(m) => match ck_measure(an, m, (fuel - 1) as nat) {
                Ok(()) => tc(BType::Measure, expect),
                Err(x) => Err(x),
            },
            AsgnRVal::Phrase(p) => match ck_phrase(an, p, (fuel - 1) as nat) {
                Ok(()) => tc(BType::Phrase, expect),
                Err(x) => Err(x),
            },
            AsgnRVal::Track(t) => match ck_track(an, t, (fuel - 1) as nat) {
                Ok(()) => tc(BType::Track, expect),
                Err(x) => Err(x),
            },
        }
    }
}

/// A note literal: the length an integer, each pitch an integer or a note.
pub open spec fn ck_note(an: AnalyzerModel, n: Note, fuel: nat) -> Result<(), Error>
    decreases fuel, 0int, 0int,
{
    if fuel == 0 {
        Err(nesting_error())
    } else {
        match n.len {
            Some(e) => match ck_expr(an, e, Some(BType::Int), (fuel - 1) as nat) {
                Ok(()) => ck_note_from(an, n, 0, (fuel - 1) as nat),
                Err(x) => Err(x),
            },
            None => ck_note_from(an, n, 0, (fuel - 1) as nat),
        }
    }
}

pub open spec fn ck_note_from(an: AnalyzerModel, n: Note, i: int, fuel: nat) -> Result<(), Error>
    decreases fuel, 1int, n.notes@.len() - i,
{
    if i >= n.notes@.len() || i < 0 {
        Ok(())
    } else {
        match ck_expr(an, n.notes@[i], Some(BType::Note), fuel) {
            Ok(()) => ck_note_from(an, n, i + 1, fuel),
            Err(x) => Err(x),
        }
    }
}

pub open spec fn ck_measure(an: AnalyzerModel, m: Measure, fuel: nat) -> Result<(), Error>
    decreases fuel, 0int, 0int,
{
    if fuel == 0 {
        Err(nesting_error())
    } else {
        ck_measure_from(an, m, 0, (fuel - 1) as nat)
    }
}

pub open spec fn ck_measure_from(an: AnalyzerModel, m: Measure, i: int, fuel: nat) -> Result<(), Error>
    decreases fuel, 1int, m.content@.len() - i,
{
    if i >= m.content@.len() || i < 0 {
        Ok(())
    } else {
        match m.content@[i] {
            MeasureUnit::Note(n) => match ck_note(an, n, fuel) {
                Ok(()) => ck_measure_from(an, m, i + 1, fuel),
                Err(x) => Err(x),
            },
            _ => ck_measure_from(an, m, i + 1, fuel),
        }
    }
}

/// A name that must denote a value of exactly the musical type `want`.
pub open spec fn ck_lval_source(an: AnalyzerModel, l: LVal, want: BType) -> Result<(), Error> {
    match lval_type(an, l) {
        Err(x) => Err(x),
        Ok(t) => if t == want {
            Ok(())
        } else {
            Err(
                Error::SemanticError(
                    SemanticError::TypeMismatch { expected: want, found: FuncType::BType(t) },
                ),
            )
        },
    }
}

/// A call that must return exactly the musical type `want`.
pub open spec fn ck_call_source(an: AnalyzerModel, c: FuncCall, want: BType, fuel: nat) -> Result<
    (),
    Error,
>
    decreases fuel, 0int, 0int,
{
    if fuel == 0 {
        Err(nesting_error())
    } else {
        match ck_call(an, c, (fuel - 1) as nat) {
            Err(x) => Err(x),
            Ok(ret) => if ret == FuncType::BType(want) {
                Ok(())
            } else {
                Err(Error::SemanticError(SemanticError::TypeMismatch { expected: want, found: ret }))
            },
        }
    }
}

pub open spec fn ck_phrase(an: AnalyzerModel, p: Phrase, fuel: nat) -> Result<(), Error>
    decreases fuel, 0int, 0int,
{
    if fuel == 0 {
        Err(nesting_error())
    } else {
        ck_phrase_from(an, p, 0, (fuel - 1) as nat)
    }
}

pub open spec fn ck_phrase_from(an: AnalyzerModel, p: Phrase, i: int, fuel: nat) -> Result<(), Error>
    decreases fuel, 1int, p.content@.len() - i,
{
    if i >= p.content@.len() || i < 0 {
        Ok(())
    } else {
        let r = match p.content@[i] {
            MeasureRVal::Measure(m) => ck_measure(an, m, fuel),
            MeasureRVal::LVal(l) => ck_lval_source(an, l, BType::Measure),
            MeasureRVal::FuncCall(c) => ck_call_source(an, c, BType::Measure, fuel),
        };
        match r {
            Ok(()) => ck_phrase_from(an, p, i + 1, fuel),
            Err(x) => Err(x),
        }
    }
}

pub open spec fn ck_track(an: AnalyzerModel, t: Track, fuel: nat) -> Result<(), Error>
    decreases fuel, 0int, 0int,
{
    if fuel == 0 {
        Err(nesting_error())
    } else {
        ck_track_from(an, t, 0, (fuel - 1) as nat)
    }
}

pub open spec fn ck_track_from(an: AnalyzerModel, t: Track, i: int, fuel: nat) -> Result<(), Error>
    decreases fuel, 1int, t.content@.len() - i,
{
    if i >= t.content@.len() || i < 0 {
        Ok(())
    } else {
        let r = match t.content@[i] {
            PhraseRVal::Phrase(p) => ck_phrase(an, p, fuel),
            PhraseRVal::LVal(l) => ck_lval_source(an, l, BType::Phrase),
            PhraseRVal::FuncCall(c) => ck_call_source(an, c, BType::Phrase, fuel),
        };
        match r {
            Ok(()) => ck_track_from(an, t, i + 1, fuel),
            Err(x) => Err(x),
        }
    }
}

/// A `return` against the function being checked; a value of the wrong
/// type is a `ReturnTypeMismatch`.
pub open spec fn ck_return(an: AnalyzerModel, o: Option<LOrExpr>, fuel: nat) -> Result<(), Error> {
    match (an.func, o) {
        (None, _) => Err(Error::SemanticError(SemanticError::ReturnOutsideFunction)),
        (Some(FuncType::Void), None) => Ok(()),
        (Some(FuncType::Void), Some(_)) => Err(Error::SemanticError(SemanticError::ReturnTypeMismatch)),
        (Some(FuncType::BType(_)), None) => Err(
            Error::SemanticError(SemanticError::ReturnTypeMismatch),
        ),
        (Some(FuncType::BType(t)), Some(e)) => match ck_expr(an, e, Some(t), fuel) {
            Err(Error::SemanticError(SemanticError::TypeMismatch { expected, found })) => if expected
                == t {
                Err(Error::SemanticError(SemanticError::ReturnTypeMismatch))
            } else {
                Err(Error::SemanticError(SemanticError::TypeMismatch { expected, found }))
            },
            r => r,
        },
    }
}

/// A channel statement: integers, and for a track assignment a track.
pub open spec fn ck_channel_stmt(an: AnalyzerModel, st: ScoreStmt, fuel: nat) -> Result<(), Error> {
    match st {
        ScoreStmt::SetTempo(e) => ck_expr(an, e, Some(BType::Int), fuel),
        ScoreStmt::SetTimeSignature(ts) => match ck_expr(an, ts.top_num, Some(BType::Int), fuel) {
            Ok(()) => ck_expr(an, ts.bottom_num, Some(BType::Int), fuel),
            Err(x) => Err(x),
        },
        ScoreStmt::SetChannelInstrument(ci) => match ck_expr(an, ci.channel, Some(BType::Int), fuel) {
            Ok(()) => ck_expr(an, ci.instrument, Some(BType::Int), fuel),
            Err(x) => Err(x),
        },
        ScoreStmt::SetChannelTrack(ct) => match ck_expr(an, ct.channel, Some(BType::Int), fuel) {
            Ok(()) => match ct.track {
                TrackRVal::Track(t) => ck_track(an, t, fuel),
                TrackRVal::LVal(l) => ck_lval_source(an, l, BType::Track),
                TrackRVal::FuncCall(c) => ck_call_source(an, c, BType::Track, fuel),
            },
            Err(x) => Err(x),
        },
    }
}

/// The state a statement check leaves, and its outcome.
pub type Step = (AnalyzerModel, Result<(), Error>);

/// Declare a name in the current block.
pub open spec fn declare_here(an: AnalyzerModel, ident: String, const_: bool, kind: SymbolKindModel) -> Step {
    let b = an.current as int;
    if find_symbol(an.scopes[b].symbols, ident@) is Some {
        (an, Err(Error::SemanticError(SemanticError::Redeclared(ident))))
    } else {
        (
            AnalyzerModel {
                scopes: an.scopes.update(
                    b,
                    ScopeModel {
                        symbols: an.scopes[b].symbols.push(
                            SymbolModel { ident: ident@, const_, kind },
                        ),
                        ..an.scopes[b]
                    },
                ),
                ..an
            },
            Ok(()),
        )
    }
}

/// Add a new, empty scope under `parent`; yields its identifier.
pub open spec fn opened_scope(an: AnalyzerModel, parent: usize) -> (AnalyzerModel, Result<usize, Error>) {
    if an.scopes.len() == usize::MAX {
        (an, Err(nesting_error()))
    } else {
        (
            AnalyzerModel {
                scopes: an.scopes.push(ScopeModel { symbols: Seq::empty(), parent: Some(parent) }),
                ..an
            },
            Ok(an.scopes.len() as usize),
        )
    }
}

/// `a` with the walk position of `an` put back.
pub open spec fn restore(a: AnalyzerModel, an: AnalyzerModel) -> AnalyzerModel {
    AnalyzerModel { current: an.current, loop_depth: an.loop_depth, func: an.func, ..a }
}

/// Assignment: the name must be a variable and the right-hand side fit it.
pub open spec fn ck_asgn(an: AnalyzerModel, a: Asgn, fuel: nat) -> Result<(), Error> {
    match resolve(an.scopes, an.current as int, a.lval.ident@) {
        None => Err(Error::SemanticError(SemanticError::Undefined(a.lval.ident))),
        Some((b, j)) => if an.scopes[b].symbols[j].const_ {
            Err(Error::SemanticError(SemanticError::NotAssignable(a.lval.ident)))
        } else {
            match an.scopes[b].symbols[j].kind {
                SymbolKindModel::Val(t) => ck_asgn_rval(an, a.rval, t, fuel),
                SymbolKindModel::Func(..) => Err(
                    Error::SemanticError(SemanticError::NotAssignable(a.lval.ident)),
                ),
            }
        },
    }
}

/// Constants `i..`: each is declared, then its initializer checked.
pub open spec fn ck_const_from(an: AnalyzerModel, d: ConstDecl, i: int, fuel: nat) -> Step
    decreases d.const_defs@.len() - i,
{
    if i >= d.const_defs@.len() || i < 0 {
        (an, Ok(()))
    } else {
        let def = d.const_defs@[i];
        let (an1, r) = declare_here(an, def.ident, true, SymbolKindModel::Val(d.btype));
        match r {
            Err(x) => (an1, Err(x)),
            Ok(()) => match ck_asgn_rval(an1, def.rval, d.btype, fuel) {
                Err(x) => (an1, Err(x)),
                Ok(()) => ck_const_from(an1, d, i + 1, fuel),
            },
        }
    }
}

/// Variables `i..`: each is declared, then its initializer, if any, checked.
pub open spec fn ck_var_from(an: AnalyzerModel, d: VarDecl, i: int, fuel: nat) -> Step
    decreases d.var_defs@.len() - i,
{
    if i >= d.var_defs@.len() || i < 0 {
        (an, Ok(()))
    } else {
        let def = d.var_defs@[i];
        let (an1, r) = declare_here(an, def.ident, false, SymbolKindModel::Val(d.btype));
        match r {
            Err(x) => (an1, Err(x)),
            Ok(()) => match def.rval_ {
                Some(rv) => match ck_asgn_rval(an1, rv, d.btype, fuel) {
                    Err(x) => (an1, Err(x)),
                    Ok(()) => ck_var_from(an1, d, i + 1, fuel),
                },
                None => ck_var_from(an1, d, i + 1, fuel),
            },
        }
    }
}

/// Parameters `i..` of a function, declared as variables of its body.
pub open spec fn ck_params_from(an: AnalyzerModel, d: FuncDef, i: int) -> Step
    decreases d.func_fparams@.len() - i,
{
    if i >= d.func_fparams@.len() || i < 0 {
        (an, Ok(()))
    } else {
        let p = d.func_fparams@[i];
        let (an1, r) = declare_here(an, p.ident, false, SymbolKindModel::Val(p.btype));
        match r {
            Err(x) => (an1, Err(x)),
            Ok(()) => ck_params_from(an1, d, i + 1),
        }
    }
}

pub open spec fn param_types(d: FuncDef) -> Seq<BType> {
    d.func_fparams@.map_values(|p: FuncFParam| p.btype)
}

/// Statements `i..` in the current scope, stopping at the first error.
pub open spec fn ck_stmts_from(an: AnalyzerModel, ss: Seq<Stmt>, i: int, fuel: nat) -> Step
    decreases fuel, 1int, ss.len() - i,
{
    if i >= ss.len() || i < 0 {
        (an, Ok(()))
    } else {
        let (an1, r) = ck_stmt(an, ss[i], fuel);
        match r {
            Ok(()) => ck_stmts_from(an1, ss, i + 1, fuel),
            Err(x) => (an1, Err(x)),
        }
    }
}

/// A nested block: a new scope under the current one.
pub open spec fn ck_block(an: AnalyzerModel, b: Block, fuel: nat) -> Step
    decreases fuel, 0int, 0int,
{
    if fuel == 0 {
        (an, Err(nesting_error()))
    } else {
        let (an1, r) = opened_scope(an, an.current);
        match r {
            Err(x) => (an1, Err(x)),
            Ok(nb) => {
                let (an2, r2) = ck_stmts_from(
                    AnalyzerModel { current: nb, ..an1 },
                    b.stmts@,
                    0,
                    (fuel - 1) as nat,
                );
                (AnalyzerModel { current: an.current, ..an2 }, r2)
            },
        }
    }
}

/// A function body: a new scope under the global one with the parameters,
/// outside any loop, inside the function.
pub open spec fn ck_func_block(an: AnalyzerModel, d: FuncDef, fuel: nat) -> Step
    decreases fuel, 0int, 0int,
{
    if fuel == 0 {
        (an, Err(nesting_error()))
    } else {
        let (an1, r) = opened_scope(an, an.global);
        match r {
            Err(x) => (an1, Err(x)),
            Ok(nb) => {
                let an2 = AnalyzerModel {
                    current: nb,
                    loop_depth: 0,
                    func: Some(d.func_type),
                    ..an1
                };
                let (an3, r3) = ck_params_from(an2, d, 0);
                match r3 {
                    Err(x) => (restore(an3, an), Err(x)),
                    Ok(()) => {
                        let (an4, r4) = ck_stmts_from(an3, d.block.stmts@, 0, (fuel - 1) as nat);
                        (restore(an4, an), r4)
                    },
                }
            },
        }
    }
}

/// A function definition: its name in the current scope, then its body.
pub open spec fn ck_func_def(an: AnalyzerModel, d: FuncDef, fuel: nat) -> Step
    decreases fuel, 0int, 0int,
{
    if fuel == 0 {
        (an, Err(nesting_error()))
    } else {
        let (an1, r) = declare_here(
            an,
            d.ident,
            true,
            SymbolKindModel::Func(d.func_type, param_types(d)),
        );
        match r {
            Err(x) => (an1, Err(x)),
            Ok(()) => ck_func_block(an1, d, (fuel - 1) as nat),
        }
    }
}

/// A loop: a boolean condition, then the body one loop deeper.
pub open spec fn ck_while(an: AnalyzerModel, w: While, fuel: nat) -> Step
    decreases fuel, 0int, 0int,
{
    if fuel == 0 {
        (an, Err(nesting_error()))
    } else {
        match ck_expr(an, w.cond, Some(BType::Bool), fuel) {
            Err(x) => (an, Err(x)),
            Ok(()) => if an.loop_depth == u64::MAX {
                (an, Err(nesting_error()))
            } else {
                let (an1, r) = ck_stmt(
                    AnalyzerModel { loop_depth: (an.loop_depth + 1) as u64, ..an },
                    *w.body,
                    (fuel - 1) as nat,
                );
                (AnalyzerModel { loop_depth: an.loop_depth, ..an1 }, r)
            },
        }
    }
}

/// A conditional: a boolean condition, then both branches.
pub open spec fn ck_ifelse(an: AnalyzerModel, ie: IfElse, fuel: nat) -> Step
    decreases fuel, 0int, 0int,
{
    if fuel == 0 {
        (an, Err(nesting_error()))
    } else {
        match ck_expr(an, ie.cond, Some(BType::Bool), fuel) {
            Err(x) => (an, Err(x)),
            Ok(()) => {
                let (an1, r1) = ck_stmt(an, *ie.if_, (fuel - 1) as nat);
                match r1 {
                    Err(x) => (an1, Err(x)),
                    Ok(()) => match ie.else_ {
                        Some(e) => ck_stmt(an1, *e, (fuel - 1) as nat),
                        None => (an1, Ok(())),
                    },
                }
            },
        }
    }
}

/// One statement.
pub open spec fn ck_stmt(an: AnalyzerModel, s: Stmt, fuel: nat) -> Step
    decreases fuel, 0int, 0int,
{
    if fuel == 0 {
        (an, Err(nesting_error()))
    } else {
        match s {
            Stmt::Break | Stmt::Continue => (
                an,
                if an.loop_depth > 0 {
                    Ok(())
                } else {
                    Err(Error::SemanticError(SemanticError::LoopOnlyKeyword))
                },
            ),
            Stmt::ConstDecl(d) => ck_const_from(an, d, 0, (fuel - 1) as nat),
            Stmt::VarDecl(d) => ck_var_from(an, d, 0, (fuel - 1) as nat),
            Stmt::Asgn(a) => (an, ck_asgn(an, a, (fuel - 1) as nat)),
            Stmt::Return(o) => (an, ck_return(an, o, (fuel - 1) as nat)),
            Stmt::Block(b) => ck_block(an, b, (fuel - 1) as nat),
            Stmt::While(w) => ck_while(an, w, (fuel - 1) as nat),
            Stmt::FuncDef(d) => ck_func_def(an, d, (fuel - 1) as nat),
            Stmt::IfElse(ie) => ck_ifelse(an, ie, (fuel - 1) as nat),
            Stmt::Expr(Some(e)) => (an, ck_expr(an, e, None, (fuel - 1) as nat)),
            Stmt::Expr(None) => (an, Ok(())),
        }
    }
}

/// Channel statements `i..`, in the score's scope.
pub open spec fn ck_channel_from(an: AnalyzerModel, s: Score, i: int, fuel: nat) -> Result<(), Error>
    decreases s.channel_stmts@.len() - i,
{
    if i >= s.channel_stmts@.len() || i < 0 {
        Ok(())
    } else {
        match ck_channel_stmt(an, s.channel_stmts@[i], fuel) {
            Ok(()) => ck_channel_from(an, s, i + 1, fuel),
            Err(x) => Err(x),
        }
    }
}

/// The global block, in the global scope.
#[verifier::opaque]
pub open spec fn ck_global(an: AnalyzerModel, b: Block, fuel: nat) -> Step {
    let (an1, r) = ck_stmts_from(AnalyzerModel { current: an.global, ..an }, b.stmts@, 0, fuel);
    (AnalyzerModel { current: an.current, ..an1 }, r)
}

/// The score: its block in a new scope under the global one, then its
/// channel statements in that scope.
#[verifier::opaque]
pub open spec fn ck_score(an: AnalyzerModel, s: Score, fuel: nat) -> Step {
    let (an1, r) = opened_scope(an, an.global);
    match r {
        Err(x) => (an1, Err(x)),
        Ok(nb) => {
            let (an2, r2) = ck_stmts_from(AnalyzerModel { current: nb, ..an1 }, s.block.stmts@, 0, fuel);
            match r2 {
                Err(x) => (AnalyzerModel { current: an.current, ..an2 }, Err(x)),
                Ok(()) => (
                    AnalyzerModel { current: an.current, ..an2 },
                    ck_channel_from(AnalyzerModel { current: nb, ..an2 }, s, 0, fuel),
                ),
            }
        },
    }
}

/// A whole program: the global block, then the score.
#[verifier::opaque]
pub open spec fn ck_program(an: AnalyzerModel, cu: CompUnit, fuel: nat) -> Step {
    let (an1, r) = ck_global(an, cu.block, fuel);
    match r {
        Err(x) => (an1, Err(x)),
        Ok(()) => ck_score(an1, cu.score, fuel),
    }
}

/// `r` and the state `s` left behind agree with `want`.
pub open spec fn step_agrees(r: Result<(), Error>, s: AnalyzerModel, want: Step) -> bool {
    r == want.1 && s == want.0
}

/// A fresh analyzer: only the global scope, outside any loop or function.
pub open spec fn initial_analyzer() -> AnalyzerModel {
    AnalyzerModel {
        scopes: seq![ScopeModel { symbols: Seq::empty(), parent: None }],
        current: 0,
        global: 0,
        loop_depth: 0,
        func: None,
    }
}

} // verus!
