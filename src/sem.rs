//! The meaning of programs: a big-step semantics over an explicit
//! environment, bounded by a fuel count that every nested evaluation uses
//! up by one. The interpreter is proved to compute exactly these functions.
//!
//! The environment is one stack of entries. Entering a block remembers the
//! stack height and leaving it cuts the stack back. A call starts a frame:
//! names are looked up from the top of the stack down to the frame's base,
//! then among the globals, so a function sees its own locals and the
//! globals only. Each call gets fresh parameter entries.
use crate::ast::{
    AddExpr, AddOp, AsgnRVal, BType, ConstDecl, EqExpr, EqOp, FuncCall, FuncDef, FuncType,
    LAndExpr, LOrExpr, Measure, MeasureRVal, MeasureUnit, MulExpr, MulOp, Note, Phrase,
    PhraseRVal, PrimaryExpr, RelExpr, RelOp, Stmt, Track, TrackRVal, UnaryExpr, UnaryOp, VarDecl,
    Block,
};
use crate::error::{Error, InternalError, RuntimeError};
use crate::value::{fits, zero_value, UnitModel, ValueModel};
use vstd::prelude::*;

verus! {

pub enum KindModel {
    /// Constant flag, declared type, current value.
    Val(bool, BType, ValueModel),
    Func(FuncDef),
}

pub struct EntryModel {
    pub ident: Seq<char>,
    pub kind: KindModel,
}

pub struct EnvModel {
    pub entries: Seq<EntryModel>,
    /// Where the current frame's entries begin.
    pub base: usize,
    /// How many entries at the bottom are globals.
    pub globals_end: usize,
}

/// Control signal of a statement.
pub enum CtrModel {
    Normal,
    Break,
    Continue,
    Return(Option<ValueModel>),
}

pub open spec fn rt<T>(e: RuntimeError) -> Result<T, Error> {
    Err(Error::RuntimeError(e))
}

pub open spec fn internal<T>(e: InternalError) -> Result<T, Error> {
    Err(Error::InternalError(e))
}

/// The highest index in `lo..hi` whose entry is named `name`.
pub open spec fn find_from(es: Seq<EntryModel>, lo: int, hi: int, name: Seq<char>) -> Option<int>
    decreases hi - lo,
{
    if hi <= lo {
        None
    } else if es[hi - 1].ident == name {
        Some(hi - 1)
    } else {
        find_from(es, lo, hi - 1, name)
    }
}

pub proof fn lemma_find_from(es: Seq<EntryModel>, lo: int, hi: int, name: Seq<char>)
    ensures
        find_from(es, lo, hi, name) matches Some(k) ==> lo <= k < hi && es[k].ident == name,
    decreases hi - lo,
{
    if hi > lo && es[hi - 1].ident != name {
        lemma_find_from(es, lo, hi - 1, name);
    }
}

/// The entry a name denotes: the innermost one of the current frame, else
/// the innermost global.
pub open spec fn lookup(env: EnvModel, name: Seq<char>) -> Option<int> {
    let len = env.entries.len() as int;
    match find_from(env.entries, env.base as int, len, name) {
        Some(k) => Some(k),
        None => find_from(
            env.entries,
            0,
            if env.globals_end as int <= len {
                env.globals_end as int
            } else {
                len
            },
            name,
        ),
    }
}

pub open spec fn load(env: EnvModel, name: Seq<char>) -> Result<ValueModel, Error> {
    match lookup(env, name) {
        Some(k) => match env.entries[k].kind {
            KindModel::Val(_, _, v) => Ok(v),
            KindModel::Func(_) => internal(InternalError::Unbound),
        },
        None => internal(InternalError::Unbound),
    }
}

/// Write `v` into the cell of entry `k`.
pub open spec fn store(env: EnvModel, k: int, v: ValueModel) -> Result<EnvModel, Error> {
    if 0 <= k < env.entries.len() {
        match env.entries[k].kind {
            KindModel::Val(c, t, _) => if fits(t, v) {
                Ok(
                    EnvModel {
                        entries: env.entries.update(
                            k,
                            EntryModel { ident: env.entries[k].ident, kind: KindModel::Val(c, t, v) },
                        ),
                        ..env
                    },
                )
            } else {
                rt(RuntimeError::TypeError)
            },
            KindModel::Func(_) => internal(InternalError::Unbound),
        }
    } else {
        internal(InternalError::Unbound)
    }
}

pub open spec fn push(env: EnvModel, e: EntryModel) -> EnvModel {
    EnvModel { entries: env.entries.push(e), ..env }
}

/// Cut the stack back to height `n`.
pub open spec fn cut(env: EnvModel, n: int) -> EnvModel {
    EnvModel {
        entries: if 0 <= n < env.entries.len() {
            env.entries.subrange(0, n)
        } else {
            env.entries
        },
        ..env
    }
}

pub open spec fn as_int(v: Option<ValueModel>) -> Option<i32> {
    match v {
        Some(ValueModel::Int(i)) => Some(i),
        _ => None,
    }
}

pub open spec fn truth(b: bool) -> i32 {
    if b {
        1
    } else {
        0
    }
}

pub open spec fn unary_op(op: UnaryOp, x: i32) -> i32 {
    match op {
        UnaryOp::Plus => x,
        UnaryOp::Minus => 0i32.wrapping_sub(x),
        UnaryOp::Not => truth(x == 0),
    }
}

/// Apply the operators innermost first: the last one in the list is
/// nearest the operand.
pub open spec fn apply_unary(ops: Seq<UnaryOp>, x: i32) -> i32
    decreases ops.len(),
{
    if ops.len() == 0 {
        x
    } else {
        apply_unary(ops.drop_last(), unary_op(ops.last(), x))
    }
}

pub open spec fn mul_op(op: MulOp, a: i32, b: i32) -> Result<i32, Error> {
    match op {
        MulOp::Mul => Ok(a.wrapping_mul(b)),
        MulOp::Div => if b == 0 {
            rt(RuntimeError::ArithmeticError)
        } else {
            Ok(
                match a.checked_div(b) {
                    Some(q) => q,
                    None => i32::MIN,
                },
            )
        },
        MulOp::Mod => if b == 0 {
            rt(RuntimeError::ArithmeticError)
        } else {
            Ok(
                match a.checked_rem(b) {
                    Some(q) => q,
                    None => 0,
                },
            )
        },
    }
}

pub open spec fn add_op(op: AddOp, a: i32, b: i32) -> i32 {
    match op {
        AddOp::Add => a.wrapping_add(b),
        AddOp::Sub => a.wrapping_sub(b),
    }
}

pub open spec fn rel_op(op: RelOp, a: i32, b: i32) -> i32 {
    match op {
        RelOp::Gt => truth(a > b),
        RelOp::Lt => truth(a < b),
        RelOp::Ge => truth(a >= b),
        RelOp::Le => truth(a <= b),
    }
}

pub open spec fn eq_op(op: EqOp, a: i32, b: i32) -> i32 {
    match op {
        EqOp::Eq => truth(a == b),
        EqOp::Ne => truth(a != b),
    }
}

pub type Eval = (EnvModel, Result<Option<ValueModel>, Error>);

pub open spec fn limit() -> Error {
    Error::RuntimeError(RuntimeError::EvaluationLimit)
}

pub open spec fn malformed() -> Error {
    Error::InternalError(InternalError::MalformedExpr)
}

pub open spec fn type_error() -> Error {
    Error::RuntimeError(RuntimeError::TypeError)
}

/// `||` over the operands, short-circuit: the first non-zero operand ends
/// the evaluation with 1. A single operand is its own value.
pub open spec fn sem_expr(env: EnvModel, e: LOrExpr, fuel: nat) -> Eval
    decreases fuel, 0int,
{
    if fuel == 0 {
        (env, Err(limit()))
    } else if e.land_exps@.len() == 0 {
        (env, Err(malformed()))
    } else if e.land_exps@.len() == 1 {
        sem_land(env, e.land_exps@[0], (fuel - 1) as nat)
    } else {
        sem_lor_from(env, e, 0, (fuel - 1) as nat)
    }
}

pub open spec fn sem_lor_from(env: EnvModel, e: LOrExpr, i: int, fuel: nat) -> Eval
    decreases fuel, e.land_exps@.len() - i,
{
    if i >= e.land_exps@.len() || i < 0 {
        (env, Ok(Some(ValueModel::Int(0))))
    } else {
        let (env1, r) = sem_land(env, e.land_exps@[i], fuel);
        match r {
            Err(x) => (env1, Err(x)),
            Ok(v) => match as_int(v) {
                None => (env1, Err(type_error())),
                Some(a) => if a != 0 {
                    (env1, Ok(Some(ValueModel::Int(1))))
                } else {
                    sem_lor_from(env1, e, i + 1, fuel)
                },
            },
        }
    }
}

/// `&&` over the operands, short-circuit: the first zero operand ends the
/// evaluation with 0. A single operand is its own value.
pub open spec fn sem_land(env: EnvModel, e: LAndExpr, fuel: nat) -> Eval
    decreases fuel, 0int,
{
    if fuel == 0 {
        (env, Err(limit()))
    } else if e.eq_exps@.len() == 0 {
        (env, Err(malformed()))
    } else if e.eq_exps@.len() == 1 {
        sem_eq(env, e.eq_exps@[0], (fuel - 1) as nat)
    } else {
        sem_land_from(env, e, 0, (fuel - 1) as nat)
    }
}

pub open spec fn sem_land_from(env: EnvModel, e: LAndExpr, i: int, fuel: nat) -> Eval
    decreases fuel, e.eq_exps@.len() - i,
{
    if i >= e.eq_exps@.len() || i < 0 {
        (env, Ok(Some(ValueModel::Int(1))))
    } else {
        let (env1, r) = sem_eq(env, e.eq_exps@[i], fuel);
        match r {
            Err(x) => (env1, Err(x)),
            Ok(v) => match as_int(v) {
                None => (env1, Err(type_error())),
                Some(a) => if a == 0 {
                    (env1, Ok(Some(ValueModel::Int(0))))
                } else {
                    sem_land_from(env1, e, i + 1, fuel)
                },
            },
        }
    }
}

pub open spec fn sem_eq(env: EnvModel, e: EqExpr, fuel: nat) -> Eval
    decreases fuel, 0int,
{
    if fuel == 0 {
        (env, Err(limit()))
    } else if e.rel_exps@.len() == 0 || e.eq_ops@.len() + 1 != e.rel_exps@.len() {
        (env, Err(malformed()))
    } else {
        let (env1, r) = sem_rel(env, e.rel_exps@[0], (fuel - 1) as nat);
        match r {
            Err(x) => (env1, Err(x)),
            Ok(v) => if e.rel_exps@.len() == 1 {
                (env1, Ok(v))
            } else {
                match as_int(v) {
                    None => (env1, Err(type_error())),
                    Some(a) => sem_eq_from(env1, e, 1, a, (fuel - 1) as nat),
                }
            },
        }
    }
}

pub open spec fn sem_eq_from(env: EnvModel, e: EqExpr, i: int, acc: i32, fuel: nat) -> Eval
    decreases fuel, e.rel_exps@.len() - i,
{
    if i >= e.rel_exps@.len() || i < 1 {
        (env, Ok(Some(ValueModel::Int(acc))))
    } else {
        let (env1, r) = sem_rel(env, e.rel_exps@[i], fuel);
        match r {
            Err(x) => (env1, Err(x)),
            Ok(v) => match as_int(v) {
                None => (env1, Err(type_error())),
                Some(b) => sem_eq_from(env1, e, i + 1, eq_op(e.eq_ops@[i - 1], acc, b), fuel),
            },
        }
    }
}

pub open spec fn sem_rel(env: EnvModel, e: RelExpr, fuel: nat) -> Eval
    decreases fuel, 0int,
{
    if fuel == 0 {
        (env, Err(limit()))
    } else if e.add_exps@.len() == 0 || e.rel_ops@.len() + 1 != e.add_exps@.len() {
        (env, Err(malformed()))
    } else {
        let (env1, r) = sem_add(env, e.add_exps@[0], (fuel - 1) as nat);
        match r {
            Err(x) => (env1, Err(x)),
            Ok(v) => if e.add_exps@.len() == 1 {
                (env1, Ok(v))
            } else {
                match as_int(v) {
                    None => (env1, Err(type_error())),
                    Some(a) => sem_rel_from(env1, e, 1, a, (fuel - 1) as nat),
                }
            },
        }
    }
}

pub open spec fn sem_rel_from(env: EnvModel, e: RelExpr, i: int, acc: i32, fuel: nat) -> Eval
    decreases fuel, e.add_exps@.len() - i,
{
    if i >= e.add_exps@.len() || i < 1 {
        (env, Ok(Some(ValueModel::Int(acc))))
    } else {
        let (env1, r) = sem_add(env, e.add_exps@[i], fuel);
        match r {
            Err(x) => (env1, Err(x)),
            Ok(v) => match as_int(v) {
                None => (env1, Err(type_error())),
                Some(b) => sem_rel_from(env1, e, i + 1, rel_op(e.rel_ops@[i - 1], acc, b), fuel),
            },
        }
    }
}

pub open spec fn sem_add(env: EnvModel, e: AddExpr, fuel: nat) -> Eval
    decreases fuel, 0int,
{
    if fuel == 0 {
        (env, Err(limit()))
    } else if e.mul_exps@.len() == 0 || e.add_ops@.len() + 1 != e.mul_exps@.len() {
        (env, Err(malformed()))
    } else {
        let (env1, r) = sem_mul(env, e.mul_exps@[0], (fuel - 1) as nat);
        match r {
            Err(x) => (env1, Err(x)),
            Ok(v) => if e.mul_exps@.len() == 1 {
                (env1, Ok(v))
            } else {
                match as_int(v) {
                    None => (env1, Err(type_error())),
                    Some(a) => sem_add_from(env1, e, 1, a, (fuel - 1) as nat),
                }
            },
        }
    }
}

pub open spec fn sem_add_from(env: EnvModel, e: AddExpr, i: int, acc: i32, fuel: nat) -> Eval
    decreases fuel, e.mul_exps@.len() - i,
{
    if i >= e.mul_exps@.len() || i < 1 {
        (env, Ok(Some(ValueModel::Int(acc))))
    } else {
        let (env1, r) = sem_mul(env, e.mul_exps@[i], fuel);
        match r {
            Err(x) => (env1, Err(x)),
            Ok(v) => match as_int(v) {
                None => (env1, Err(type_error())),
                Some(b) => sem_add_from(env1, e, i + 1, add_op(e.add_ops@[i - 1], acc, b), fuel),
            },
        }
    }
}

pub open spec fn sem_mul(env: EnvModel, e: MulExpr, fuel: nat) -> Eval
    decreases fuel, 0int,
{
    if fuel == 0 {
        (env, Err(limit()))
    } else if e.unary_exps@.len() == 0 || e.mul_ops@.len() + 1 != e.unary_exps@.len() {
        (env, Err(malformed()))
    } else {
        let (env1, r) = sem_unary(env, e.unary_exps@[0], (fuel - 1) as nat);
        match r {
            Err(x) => (env1, Err(x)),
            Ok(v) => if e.unary_exps@.len() == 1 {
                (env1, Ok(v))
            } else {
                match as_int(v) {
                    None => (env1, Err(type_error())),
                    Some(a) => sem_mul_from(env1, e, 1, a, (fuel - 1) as nat),
                }
            },
        }
    }
}

pub open spec fn sem_mul_from(env: EnvModel, e: MulExpr, i: int, acc: i32, fuel: nat) -> Eval
    decreases fuel, e.unary_exps@.len() - i,
{
    if i >= e.unary_exps@.len() || i < 1 {
        (env, Ok(Some(ValueModel::Int(acc))))
    } else {
        let (env1, r) = sem_unary(env, e.unary_exps@[i], fuel);
        match r {
            Err(x) => (env1, Err(x)),
            Ok(v) => match as_int(v) {
                None => (env1, Err(type_error())),
                Some(b) => match mul_op(e.mul_ops@[i - 1], acc, b) {
                    Err(x) => (env1, Err(x)),
                    Ok(c) => sem_mul_from(env1, e, i + 1, c, fuel),
                },
            },
        }
    }
}

/// A primary operand, then its prefix operators, which need an integer.
pub open spec fn sem_unary(env: EnvModel, u: UnaryExpr, fuel: nat) -> Eval
    decreases fuel, 0int,
{
    if fuel == 0 {
        (env, Err(limit()))
    } else {
        let (env1, r) = match u.primary_exp {
            PrimaryExpr::Expr(e) => sem_expr(env, e, (fuel - 1) as nat),
            PrimaryExpr::FuncCall(c) => sem_call(env, c, (fuel - 1) as nat),
            PrimaryExpr::LVal(l) => (
                env,
                match load(env, l.ident@) {
                    Ok(v) => Ok(Some(v)),
                    Err(x) => Err(x),
                },
            ),
            PrimaryExpr::Number(n) => (env, Ok(Some(ValueModel::Int(n)))),
        };
        match r {
            Err(x) => (env1, Err(x)),
            Ok(v) => if u.unary_ops@.len() == 0 {
                (env1, Ok(v))
            } else {
                match as_int(v) {
                    None => (env1, Err(type_error())),
                    Some(a) => (env1, Ok(Some(ValueModel::Int(apply_unary(u.unary_ops@, a))))),
                }
            },
        }
    }
}

/// The parameter entries of a new frame, pushed in order.
pub open spec fn bind_params_from(
    es: Seq<EntryModel>,
    def: FuncDef,
    vals: Seq<ValueModel>,
    i: int,
) -> Seq<EntryModel>
    decreases vals.len() - i,
{
    if i >= vals.len() || i < 0 {
        es
    } else {
        bind_params_from(
            es.push(
                EntryModel {
                    ident: def.func_fparams@[i].ident@,
                    kind: KindModel::Val(false, def.func_fparams@[i].btype, vals[i]),
                },
            ),
            def,
            vals,
            i + 1,
        )
    }
}

/// Arguments `i..`, left to right, each checked against its parameter's type.
pub open spec fn sem_args_from(
    env: EnvModel,
    c: FuncCall,
    def: FuncDef,
    i: int,
    acc: Seq<ValueModel>,
    fuel: nat,
) -> (EnvModel, Result<Seq<ValueModel>, Error>)
    decreases fuel, c.func_rparams@.len() - i,
{
    if i >= c.func_rparams@.len() || i < 0 {
        (env, Ok(acc))
    } else {
        let (env1, r) = sem_asgn_rval(env, c.func_rparams@[i], fuel);
        match r {
            Err(x) => (env1, Err(x)),
            Ok(None) => (env1, Err(type_error())),
            Ok(Some(v)) => if fits(def.func_fparams@[i].btype, v) {
                sem_args_from(env1, c, def, i + 1, acc.push(v), fuel)
            } else {
                (env1, Err(type_error()))
            },
        }
    }
}

/// What a finished body yields to the caller.
pub open spec fn call_result(def: FuncDef, r: Result<CtrModel, Error>) -> Result<Option<ValueModel>, Error> {
    match r {
        Err(x) => Err(x),
        Ok(CtrModel::Return(v)) => Ok(v),
        Ok(CtrModel::Normal) => if def.func_type == FuncType::Void {
            Ok(None)
        } else {
            rt(RuntimeError::MissingReturn)
        },
        Ok(_) => internal(InternalError::StrayJump),
    }
}

/// A call: evaluate the arguments in the caller's frame, run the body in a
/// new frame holding the parameters, then drop the frame.
pub open spec fn sem_call(env: EnvModel, c: FuncCall, fuel: nat) -> Eval
    decreases fuel, 0int,
{
    if fuel == 0 {
        (env, Err(limit()))
    } else {
        match lookup(env, c.ident@) {
            Some(k) => match env.entries[k].kind {
                KindModel::Func(def) => if def.func_fparams@.len() != c.func_rparams@.len() {
                    (env, internal(InternalError::ArityMismatch))
                } else {
                    let (env1, r) = sem_args_from(env, c, def, 0, Seq::empty(), (fuel - 1) as nat);
                    match r {
                        Err(x) => (env1, Err(x)),
                        Ok(vals) => {
                            let n = env1.entries.len();
                            let frame = EnvModel {
                                entries: bind_params_from(env1.entries, def, vals, 0),
                                base: n as usize,
                                ..env1
                            };
                            let (env2, rb) = sem_block(frame, def.block, (fuel - 1) as nat);
                            (
                                EnvModel { base: env1.base, globals_end: env1.globals_end, ..cut(env2, n as int) },
                                call_result(def, rb),
                            )
                        },
                    }
                },
                KindModel::Val(..) => (env, internal(InternalError::Unbound)),
            },
            None => (env, internal(InternalError::Unbound)),
        }
    }
}

/// Pitches of a chord, `i..`: an integer is one pitch, a note adds all of its.
pub open spec fn sem_note_from(env: EnvModel, n: Note, i: int, acc: Seq<i32>, fuel: nat) -> (
    EnvModel,
    Result<Seq<i32>, Error>,
)
    decreases fuel, n.notes@.len() - i,
{
    if i >= n.notes@.len() || i < 0 {
        (env, Ok(acc))
    } else {
        let (env1, r) = sem_expr(env, n.notes@[i], fuel);
        match r {
            Err(x) => (env1, Err(x)),
            Ok(Some(ValueModel::Int(p))) => sem_note_from(env1, n, i + 1, acc.push(p), fuel),
            Ok(Some(ValueModel::Note(ps, _))) => sem_note_from(env1, n, i + 1, acc + ps, fuel),
            Ok(_) => (env1, Err(type_error())),
        }
    }
}

pub open spec fn sem_note(env: EnvModel, n: Note, fuel: nat) -> (
    EnvModel,
    Result<(Seq<i32>, Option<i32>), Error>,
)
    decreases fuel, 0int,
{
    if fuel == 0 {
        (env, Err(limit()))
    } else {
        let (env1, r) = sem_note_from(env, n, 0, Seq::empty(), (fuel - 1) as nat);
        match r {
            Err(x) => (env1, Err(x)),
            Ok(ps) => match n.len {
                None => (env1, Ok((ps, None))),
                Some(e) => {
                    let (env2, r2) = sem_expr(env1, e, (fuel - 1) as nat);
                    match r2 {
                        Err(x) => (env2, Err(x)),
                        Ok(v) => match as_int(v) {
                            Some(l) => (env2, Ok((ps, Some(l)))),
                            None => (env2, Err(type_error())),
                        },
                    }
                },
            }
        }
    }
}

pub open spec fn sem_measure_from(
    env: EnvModel,
    m: Measure,
    i: int,
    acc: Seq<UnitModel>,
    fuel: nat,
) -> (EnvModel, Result<Seq<UnitModel>, Error>)
    decreases fuel, m.content@.len() - i,
{
    if i >= m.content@.len() || i < 0 {
        (env, Ok(acc))
    } else {
        match m.content@[i] {
            MeasureUnit::Note(n) => {
                let (env1, r) = sem_note(env, n, fuel);
                match r {
                    Err(x) => (env1, Err(x)),
                    Ok((ps, l)) => sem_measure_from(env1, m, i + 1, acc.push(UnitModel::Note(ps, l)), fuel),
                }
            },
            MeasureUnit::Rest => sem_measure_from(env, m, i + 1, acc.push(UnitModel::Rest), fuel),
            MeasureUnit::TimeDilation => sem_measure_from(
                env,
                m,
                i + 1,
                acc.push(UnitModel::TimeDilation),
                fuel,
            ),
            MeasureUnit::TimeCompression => sem_measure_from(
                env,
                m,
                i + 1,
                acc.push(UnitModel::TimeCompression),
                fuel,
            ),
        }
    }
}

pub open spec fn sem_measure(env: EnvModel, m: Measure, fuel: nat) -> (
    EnvModel,
    Result<Seq<UnitModel>, Error>,
)
    decreases fuel, 0int,
{
    if fuel == 0 {
        (env, Err(limit()))
    } else {
        sem_measure_from(env, m, 0, Seq::empty(), (fuel - 1) as nat)
    }
}

pub open spec fn sem_phrase_from(
    env: EnvModel,
    p: Phrase,
    i: int,
    acc: Seq<Seq<UnitModel>>,
    fuel: nat,
) -> (EnvModel, Result<Seq<Seq<UnitModel>>, Error>)
    decreases fuel, p.content@.len() - i,
{
    if i >= p.content@.len() || i < 0 {
        (env, Ok(acc))
    } else {
        let (env1, r): (EnvModel, Result<Seq<UnitModel>, Error>) = match p.content@[i] {
            MeasureRVal::Measure(m) => sem_measure(env, m, fuel),
            MeasureRVal::LVal(l) => (
                env,
                match load(env, l.ident@) {
                    Ok(ValueModel::Measure(ms)) => Ok(ms),
                    Ok(_) => Err(type_error()),
                    Err(x) => Err(x),
                },
            ),
            MeasureRVal::FuncCall(c) => {
                let (env1, r) = sem_call(env, c, fuel);
                (
                    env1,
                    match r {
                        Ok(Some(ValueModel::Measure(ms))) => Ok(ms),
                        Ok(_) => Err(type_error()),
                        Err(x) => Err(x),
                    },
                )
            },
        };
        match r {
            Err(x) => (env1, Err(x)),
            Ok(ms) => sem_phrase_from(env1, p, i + 1, acc.push(ms), fuel),
        }
    }
}

pub open spec fn sem_phrase(env: EnvModel, p: Phrase, fuel: nat) -> (
    EnvModel,
    Result<Seq<Seq<UnitModel>>, Error>,
)
    decreases fuel, 0int,
{
    if fuel == 0 {
        (env, Err(limit()))
    } else {
        sem_phrase_from(env, p, 0, Seq::empty(), (fuel - 1) as nat)
    }
}

pub open spec fn sem_track_from(
    env: EnvModel,
    t: Track,
    i: int,
    acc: Seq<Seq<Seq<UnitModel>>>,
    fuel: nat,
) -> (EnvModel, Result<Seq<Seq<Seq<UnitModel>>>, Error>)
    decreases fuel, t.content@.len() - i,
{
    if i >= t.content@.len() || i < 0 {
        (env, Ok(acc))
    } else {
        let (env1, r): (EnvModel, Result<Seq<Seq<UnitModel>>, Error>) = match t.content@[i] {
            PhraseRVal::Phrase(p) => sem_phrase(env, p, fuel),
            PhraseRVal::LVal(l) => (
                env,
                match load(env, l.ident@) {
                    Ok(ValueModel::Phrase(ps)) => Ok(ps),
                    Ok(_) => Err(type_error()),
                    Err(x) => Err(x),
                },
            ),
            PhraseRVal::FuncCall(c) => {
                let (env1, r) = sem_call(env, c, fuel);
                (
                    env1,
                    match r {
                        Ok(Some(ValueModel::Phrase(ps))) => Ok(ps),
                        Ok(_) => Err(type_error()),
                        Err(x) => Err(x),
                    },
                )
            },
        };
        match r {
            Err(x) => (env1, Err(x)),
            Ok(ps) => sem_track_from(env1, t, i + 1, acc.push(ps), fuel),
        }
    }
}

pub open spec fn sem_track(env: EnvModel, t: Track, fuel: nat) -> (
    EnvModel,
    Result<Seq<Seq<Seq<UnitModel>>>, Error>,
)
    decreases fuel, 0int,
{
    if fuel == 0 {
        (env, Err(limit()))
    } else {
        sem_track_from(env, t, 0, Seq::empty(), (fuel - 1) as nat)
    }
}

/// A right-hand side: an expression, or a musical literal.
pub open spec fn sem_asgn_rval(env: EnvModel, r: AsgnRVal, fuel: nat) -> Eval
    decreases fuel, 0int,
{
    if fuel == 0 {
        (env, Err(limit()))
    } else {
        match r {
            AsgnRVal::Expr(e) => sem_expr(env, e, (fuel - 1) as nat),
            AsgnRVal::Note(n) => {
                let (env1, r) = sem_note(env, n, (fuel - 1) as nat);
                (
                    env1,
                    match r {
                        Ok((ps, l)) => Ok(Some(ValueModel::Note(ps, l))),
                        Err(x) => Err(x),
                    },
                )
            },
            AsgnRVal::Measure(m) => {
                let (env1, r) = sem_measure(env, m, (fuel - 1) as nat);
                (
                    env1,
                    match r {
                        Ok(ms) => Ok(Some(ValueModel::Measure(ms))),
                        Err(x) => Err(x),
                    },
                )
            },
            AsgnRVal::Phrase(p) => {
                let (env1, r) = sem_phrase(env, p, (fuel - 1) as nat);
                (
                    env1,
                    match r {
                        Ok(ps) => Ok(Some(ValueModel::Phrase(ps))),
                        Err(x) => Err(x),
                    },
                )
            },
            AsgnRVal::Track(t) => {
                let (env1, r) = sem_track(env, t, (fuel - 1) as nat);
                (
                    env1,
                    match r {
                        Ok(ts) => Ok(Some(ValueModel::Track(ts))),
                        Err(x) => Err(x),
                    },
                )
            },
        }
    }
}

/// Evaluate `r` and store it into the cell of entry `k`.
pub open spec fn sem_init(env: EnvModel, k: int, r: AsgnRVal, fuel: nat) -> (
    EnvModel,
    Result<CtrModel, Error>,
)
    decreases fuel, 1int,
{
    let (env1, res) = sem_asgn_rval(env, r, fuel);
    match res {
        Err(x) => (env1, Err(x)),
        Ok(None) => (env1, Err(type_error())),
        Ok(Some(v)) => match store(env1, k, v) {
            Ok(env2) => (env2, Ok(CtrModel::Normal)),
            Err(x) => (env1, Err(x)),
        },
    }
}

/// Constants `i..` of a declaration: each gets a fresh cell holding the
/// type's zero value, then its initializer is assigned to it.
pub open spec fn sem_const_from(env: EnvModel, d: ConstDecl, i: int, fuel: nat) -> (
    EnvModel,
    Result<CtrModel, Error>,
)
    decreases fuel, d.const_defs@.len() - i + 2,
{
    if i >= d.const_defs@.len() || i < 0 {
        (env, Ok(CtrModel::Normal))
    } else {
        let def = d.const_defs@[i];
        let k = env.entries.len() as int;
        let env1 = push(
            env,
            EntryModel { ident: def.ident@, kind: KindModel::Val(true, d.btype, zero_value(d.btype)) },
        );
        let (env2, r) = sem_init(env1, k, def.rval, fuel);
        match r {
            Ok(CtrModel::Normal) => sem_const_from(env2, d, i + 1, fuel),
            _ => (env2, r),
        }
    }
}

/// Variables `i..` of a declaration; one without initializer keeps the
/// zero value.
pub open spec fn sem_var_from(env: EnvModel, d: VarDecl, i: int, fuel: nat) -> (
    EnvModel,
    Result<CtrModel, Error>,
)
    decreases fuel, d.var_defs@.len() - i + 2,
{
    if i >= d.var_defs@.len() || i < 0 {
        (env, Ok(CtrModel::Normal))
    } else {
        let def = d.var_defs@[i];
        let k = env.entries.len() as int;
        let env1 = push(
            env,
            EntryModel { ident: def.ident@, kind: KindModel::Val(false, d.btype, zero_value(d.btype)) },
        );
        match def.rval_ {
            None => sem_var_from(env1, d, i + 1, fuel),
            Some(rv) => {
                let (env2, r) = sem_init(env1, k, rv, fuel);
                match r {
                    Ok(CtrModel::Normal) => sem_var_from(env2, d, i + 1, fuel),
                    _ => (env2, r),
                }
            },
        }
    }
}

/// Statements `i..` of a block, stopping at the first signal other than
/// `Normal`.
pub open spec fn sem_stmts_from(env: EnvModel, ss: Seq<Stmt>, i: int, fuel: nat) -> (
    EnvModel,
    Result<CtrModel, Error>,
)
    decreases fuel, ss.len() - i,
{
    if i >= ss.len() || i < 0 {
        (env, Ok(CtrModel::Normal))
    } else {
        let (env1, r) = sem_stmt(env, ss[i], fuel);
        match r {
            Ok(CtrModel::Normal) => sem_stmts_from(env1, ss, i + 1, fuel),
            _ => (env1, r),
        }
    }
}

/// A block: its statements in a new scope that ends with it.
pub open spec fn sem_block(env: EnvModel, b: Block, fuel: nat) -> (EnvModel, Result<CtrModel, Error>)
    decreases fuel, 0int,
{
    if fuel == 0 {
        (env, Err(limit()))
    } else {
        let (env1, r) = sem_stmts_from(env, b.stmts@, 0, (fuel - 1) as nat);
        (cut(env1, env.entries.len() as int), r)
    }
}

/// A loop: the condition is tested before each iteration; `break` ends the
/// loop normally, `continue` goes on to the next test, `return` leaves.
pub open spec fn sem_while(env: EnvModel, w: crate::ast::While, fuel: nat) -> (
    EnvModel,
    Result<CtrModel, Error>,
)
    decreases fuel, 0int,
{
    if fuel == 0 {
        (env, Err(limit()))
    } else {
        let (env1, r) = sem_expr(env, w.cond, (fuel - 1) as nat);
        match r {
            Err(x) => (env1, Err(x)),
            Ok(v) => match as_int(v) {
                None => (env1, Err(type_error())),
                Some(c) => if c == 0 {
                    (env1, Ok(CtrModel::Normal))
                } else {
                    let (env2, rb) = sem_stmt(env1, *w.body, (fuel - 1) as nat);
                    match rb {
                        Err(x) => (env2, Err(x)),
                        Ok(CtrModel::Break) => (env2, Ok(CtrModel::Normal)),
                        Ok(CtrModel::Return(v)) => (env2, Ok(CtrModel::Return(v))),
                        Ok(_) => sem_while(env2, w, (fuel - 1) as nat),
                    }
                },
            },
        }
    }
}

pub open spec fn sem_stmt(env: EnvModel, s: Stmt, fuel: nat) -> (EnvModel, Result<CtrModel, Error>)
    decreases fuel, 0int,
{
    if fuel == 0 {
        (env, Err(limit()))
    } else {
        match s {
            Stmt::FuncDef(d) => (
                push(env, EntryModel { ident: d.ident@, kind: KindModel::Func(d) }),
                Ok(CtrModel::Normal),
            ),
            Stmt::Expr(None) => (env, Ok(CtrModel::Normal)),
            Stmt::Expr(Some(e)) => {
                let (env1, r) = sem_expr(env, e, (fuel - 1) as nat);
                (
                    env1,
                    match r {
                        Ok(_) => Ok(CtrModel::Normal),
                        Err(x) => Err(x),
                    },
                )
            },
            Stmt::ConstDecl(d) => sem_const_from(env, d, 0, (fuel - 1) as nat),
            Stmt::VarDecl(d) => sem_var_from(env, d, 0, (fuel - 1) as nat),
            Stmt::Asgn(a) => sem_asgn(env, a, (fuel - 1) as nat),
            Stmt::Block(b) => sem_block(env, b, (fuel - 1) as nat),
            Stmt::IfElse(ie) => sem_ifelse(env, ie, (fuel - 1) as nat),
            Stmt::While(w) => sem_while(env, w, (fuel - 1) as nat),
            Stmt::Break => (env, Ok(CtrModel::Break)),
            Stmt::Continue => (env, Ok(CtrModel::Continue)),
            Stmt::Return(o) => sem_return(env, o, (fuel - 1) as nat),
        }
    }
}

/// An assignment: evaluate the right-hand side, then write the cell the
/// name denotes.
pub open spec fn sem_asgn(env: EnvModel, a: crate::ast::Asgn, fuel: nat) -> (
    EnvModel,
    Result<CtrModel, Error>,
)
    decreases fuel, 1int,
{
    let (env1, r) = sem_asgn_rval(env, a.rval, fuel);
    match r {
        Err(x) => (env1, Err(x)),
        Ok(None) => (env1, Err(type_error())),
        Ok(Some(v)) => match lookup(env1, a.lval.ident@) {
            None => (env1, internal(InternalError::Unbound)),
            Some(k) => match store(env1, k, v) {
                Ok(env2) => (env2, Ok(CtrModel::Normal)),
                Err(x) => (env1, Err(x)),
            },
        },
    }
}

/// A conditional: a non-zero condition runs the first branch.
pub open spec fn sem_ifelse(env: EnvModel, ie: crate::ast::IfElse, fuel: nat) -> (
    EnvModel,
    Result<CtrModel, Error>,
)
    decreases fuel, 1int,
{
    let (env1, r) = sem_expr(env, ie.cond, fuel);
    match r {
        Err(x) => (env1, Err(x)),
        Ok(v) => match as_int(v) {
            None => (env1, Err(type_error())),
            Some(c) => if c != 0 {
                sem_stmt(env1, *ie.if_, fuel)
            } else {
                match ie.else_ {
                    Some(s2) => sem_stmt(env1, *s2, fuel),
                    None => (env1, Ok(CtrModel::Normal)),
                }
            },
        },
    }
}

pub open spec fn sem_return(env: EnvModel, o: Option<LOrExpr>, fuel: nat) -> (
    EnvModel,
    Result<CtrModel, Error>,
)
    decreases fuel, 1int,
{
    match o {
        None => (env, Ok(CtrModel::Return(None))),
        Some(e) => {
            let (env1, r) = sem_expr(env, e, fuel);
            (
                env1,
                match r {
                    Ok(v) => Ok(CtrModel::Return(v)),
                    Err(x) => Err(x),
                },
            )
        },
    }
}

/// The track a channel statement names.
pub open spec fn sem_track_rval(env: EnvModel, t: TrackRVal, fuel: nat) -> (
    EnvModel,
    Result<Seq<Seq<Seq<UnitModel>>>, Error>,
) {
    match t {
        TrackRVal::Track(tr) => sem_track(env, tr, fuel),
        TrackRVal::LVal(l) => (
            env,
            match load(env, l.ident@) {
                Ok(ValueModel::Track(ts)) => Ok(ts),
                Ok(_) => Err(type_error()),
                Err(x) => Err(x),
            },
        ),
        TrackRVal::FuncCall(c) => {
            let (env1, r) = sem_call(env, c, fuel);
            (
                env1,
                match r {
                    Ok(Some(ValueModel::Track(ts))) => Ok(ts),
                    Ok(_) => Err(type_error()),
                    Err(x) => Err(x),
                },
            )
        },
    }
}

} // verus!

verus! {

/// One channel statement applied to `plan`.
#[verifier::opaque]
pub open spec fn sem_channel_stmt(
    env: EnvModel,
    st: crate::ast::ScoreStmt,
    plan: crate::plan::PlanModel,
    fuel: nat,
) -> (EnvModel, Result<crate::plan::PlanModel, Error>) {
    match st {
        crate::ast::ScoreStmt::SetTempo(e) => {
            let (env1, r) = sem_expr(env, e, fuel);
            (
                env1,
                match r {
                    Err(x) => Err(x),
                    Ok(v) => match as_int(v) {
                        None => Err(type_error()),
                        Some(n) => match crate::plan::set_tempo(plan, n) {
                            Ok(p) => Ok(p),
                            Err(x) => rt(x),
                        },
                    },
                },
            )
        },
        crate::ast::ScoreStmt::SetTimeSignature(ts) => {
            let (env1, r1) = sem_expr(env, ts.top_num, fuel);
            match r1 {
                Err(x) => (env1, Err(x)),
                Ok(v1) => match as_int(v1) {
                    None => (env1, Err(type_error())),
                    Some(top) => {
                        let (env2, r2) = sem_expr(env1, ts.bottom_num, fuel);
                        (
                            env2,
                            match r2 {
                                Err(x) => Err(x),
                                Ok(v2) => match as_int(v2) {
                                    None => Err(type_error()),
                                    Some(bottom) => match crate::plan::set_time_signature(
                                        plan,
                                        top,
                                        bottom,
                                    ) {
                                        Ok(p) => Ok(p),
                                        Err(x) => rt(x),
                                    },
                                },
                            },
                        )
                    },
                },
            }
        },
        crate::ast::ScoreStmt::SetChannelInstrument(ci) => {
            let (env1, r1) = sem_expr(env, ci.channel, fuel);
            match r1 {
                Err(x) => (env1, Err(x)),
                Ok(v1) => match as_int(v1) {
                    None => (env1, Err(type_error())),
                    Some(ch) => if !(0 <= ch <= 15) {
                        (env1, rt(RuntimeError::BadChannel))
                    } else {
                        let (env2, r2) = sem_expr(env1, ci.instrument, fuel);
                        (
                            env2,
                            match r2 {
                                Err(x) => Err(x),
                                Ok(v2) => match as_int(v2) {
                                    None => Err(type_error()),
                                    Some(ins) => match crate::plan::set_channel_instrument(
                                        plan,
                                        ch,
                                        ins,
                                    ) {
                                        Ok(p) => Ok(p),
                                        Err(x) => rt(x),
                                    },
                                },
                            },
                        )
                    },
                },
            }
        },
        crate::ast::ScoreStmt::SetChannelTrack(ct) => {
            let (env1, r1) = sem_expr(env, ct.channel, fuel);
            match r1 {
                Err(x) => (env1, Err(x)),
                Ok(v1) => match as_int(v1) {
                    None => (env1, Err(type_error())),
                    Some(ch) => if !(0 <= ch <= 15) {
                        (env1, rt(RuntimeError::BadChannel))
                    } else {
                        let (env2, r2) = sem_track_rval(env1, ct.track, fuel);
                        (
                            env2,
                            match r2 {
                                Err(x) => Err(x),
                                Ok(t) => match crate::plan::set_channel_track(plan, ch, t) {
                                    Ok(p) => Ok(p),
                                    Err(x) => rt(x),
                                },
                            },
                        )
                    },
                },
            }
        },
    }
}

/// The channel statements `i..` of a score, in order, over `plan`.
pub open spec fn sem_score_from(
    env: EnvModel,
    s: crate::ast::Score,
    i: int,
    plan: crate::plan::PlanModel,
    fuel: nat,
) -> (EnvModel, Result<crate::plan::PlanModel, Error>)
    decreases s.channel_stmts@.len() - i,
{
    if i >= s.channel_stmts@.len() || i < 0 {
        (env, Ok(plan))
    } else {
        let (env1, r) = sem_channel_stmt(env, s.channel_stmts@[i], plan, fuel);
        match r {
            Err(x) => (env1, Err(x)),
            Ok(p) => sem_score_from(env1, s, i + 1, p, fuel),
        }
    }
}

pub open spec fn initial_plan() -> crate::plan::PlanModel {
    crate::plan::PlanModel {
        meta: Seq::empty(),
        channels: Seq::empty(),
        denominator: crate::schedule::DEFAULT_DENOMINATOR,
    }
}

/// The score: its block runs as a frame above the globals, then the channel
/// statements build the plan, then every sounding note is released.
pub open spec fn sem_score(env: EnvModel, s: crate::ast::Score, fuel: nat) -> (
    EnvModel,
    Result<crate::plan::PlanModel, Error>,
) {
    let (env1, r) = sem_stmts_from(env, s.block.stmts@, 0, fuel);
    match r {
        Err(x) => (env1, Err(x)),
        Ok(CtrModel::Normal) => {
            let (env2, r2) = sem_score_from(env1, s, 0, initial_plan(), fuel);
            (
                env2,
                match r2 {
                    Err(x) => Err(x),
                    Ok(p) => match crate::plan::flush_from(p.channels, 0) {
                        Ok(cs) => Ok(crate::plan::PlanModel { channels: cs, ..p }),
                        Err(x) => rt(x),
                    },
                },
            )
        },
        Ok(_) => (env1, internal(InternalError::StrayJump)),
    }
}

/// The global block's statements `i..`, in order. Before each one the
/// globals are the entries declared so far, so that a function called from
/// a global initializer sees them.
pub open spec fn sem_globals_from(env: EnvModel, ss: Seq<Stmt>, i: int, fuel: nat) -> (
    EnvModel,
    Result<CtrModel, Error>,
)
    decreases ss.len() - i,
{
    if i >= ss.len() || i < 0 {
        (env, Ok(CtrModel::Normal))
    } else {
        let (env1, r) = sem_stmt(
            EnvModel { globals_end: env.entries.len() as usize, ..env },
            ss[i],
            fuel,
        );
        match r {
            Ok(CtrModel::Normal) => sem_globals_from(env1, ss, i + 1, fuel),
            _ => (env1, r),
        }
    }
}

/// A whole program: the globals, then the score, in one environment.
pub open spec fn sem_program(env: EnvModel, cu: crate::ast::CompUnit, fuel: nat) -> Result<
    crate::plan::PlanModel,
    Error,
> {
    let (env1, r) = sem_globals_from(env, cu.block.stmts@, 0, fuel);
    match r {
        Err(x) => Err(x),
        Ok(CtrModel::Break) | Ok(CtrModel::Continue) | Ok(CtrModel::Return(_)) => internal(
            InternalError::StrayJump,
        ),
        Ok(CtrModel::Normal) => {
            let n = env1.entries.len() as usize;
            sem_score(EnvModel { base: n, globals_end: n, ..env1 }, cu.score, fuel).1
        },
    }
}

} // verus!
