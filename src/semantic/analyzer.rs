//! The semantic analyzer: walks the program, builds a scope for every
//! block, resolves every name and checks types.
//!
//! Expressions are only read; statements declare names and open scopes.
//! A function body's scope hangs under the global scope, not under the
//! block that defines the function: functions see the globals and their own
//! parameters only.
use crate::ast::{
    Asgn, AsgnRVal, BType, Block, CompUnit, ConstDecl, FuncCall, FuncDef, FuncFParam, FuncType, IfElse,
    AddExpr, EqExpr, LAndExpr, LOrExpr, LVal, Measure, MulExpr, RelExpr, MeasureRVal, MeasureUnit, Note, Phrase, PhraseRVal, PrimaryExpr,
    Score, ScoreStmt, Stmt, Track, TrackRVal, VarDecl, While,
};
use crate::error::{Error, InternalError, SemanticError};
use crate::semantic::rules::{
    ck_args_from, ck_asgn_rval, ck_channel_stmt, ck_operand, ck_return, ck_call, ck_call_source, ck_expr, ck_land_from, ck_lor_from,
    ck_lval_source, ck_measure, ck_measure_from, ck_note, ck_note_from, ck_phrase,
    ck_phrase_from, ck_add_from, ck_eq_from, ck_mul_from, ck_primary, ck_rel_from, ck_track,
    ck_track_from, declare_here, lval_type, opened_scope, step_agrees, ck_const_from, ck_var_from,
    ck_asgn, ck_stmts_from, ck_block, ck_func_def, ck_func_block, ck_while, ck_ifelse, ck_stmt,
    ck_global, ck_score, ck_program, ck_params_from, ck_channel_from, initial_analyzer,
};
use crate::semantic::scope::{
    resolve, scopes_wf, ScopeModel, Scopes, Symbol, SymbolKind, SymbolKindModel,
};
use vstd::prelude::*;

verus! {

/// The nesting bound of one analysis: in practice, none.
pub const CHECK_FUEL: u64 = 0xFFFF_FFFF_FFFF_FFFF;

/// A musical type, which no operator applies to.
pub open spec fn is_composite(t: BType) -> bool {
    t == BType::Measure || t == BType::Phrase || t == BType::Track
}

/// Whether a value of type `found` may stand where `expect` is expected:
/// `Int` and `Bool` convert into each other, and into `Note`.
pub open spec fn compatible(found: BType, expect: BType) -> bool {
    found == expect || ((found == BType::Int || found == BType::Bool) && (expect == BType::Int
        || expect == BType::Bool || expect == BType::Note))
}

/// The expression is one primary operand with no operator applied.
pub open spec fn single(e: LOrExpr) -> bool {
    &&& e.land_exps@.len() == 1
    &&& e.land_exps@[0].eq_exps@.len() == 1
    &&& e.land_exps@[0].eq_exps@[0].rel_exps@.len() == 1
    &&& e.land_exps@[0].eq_exps@[0].rel_exps@[0].add_exps@.len() == 1
    &&& e.land_exps@[0].eq_exps@[0].rel_exps@[0].add_exps@[0].mul_exps@.len() == 1
    &&& e.land_exps@[0].eq_exps@[0].rel_exps@[0].add_exps@[0].mul_exps@[0].unary_exps@.len() == 1
    &&& e.land_exps@[0].eq_exps@[0].rel_exps@[0].add_exps@[0].mul_exps@[0].unary_exps@[0].unary_ops@.len()
        == 0
}

/// Every `break` and `continue` in `s` has an enclosing loop; a function
/// body starts outside any loop.
pub open spec fn jumps_ok(s: Stmt, in_loop: bool) -> bool
    decreases s,
{
    match s {
        Stmt::Break | Stmt::Continue => in_loop,
        Stmt::Block(b) => forall|i: int|
            0 <= i < b.stmts@.len() ==> #[trigger] jumps_ok(b.stmts@[i], in_loop),
        Stmt::While(w) => jumps_ok(*w.body, true),
        Stmt::IfElse(ie) => jumps_ok(*ie.if_, in_loop) && match ie.else_ {
            Some(e) => jumps_ok(*e, in_loop),
            None => true,
        },
        Stmt::FuncDef(d) => forall|i: int|
            0 <= i < d.block.stmts@.len() ==> #[trigger] jumps_ok(d.block.stmts@[i], false),
        _ => true,
    }
}

/// A `return` fits the function it is in: none outside functions, no value
/// in a void function, a value in any other, and for a musical return type
/// a value that is a single operand.
pub open spec fn return_ok(o: Option<LOrExpr>, f: Option<FuncType>) -> bool {
    match (o, f) {
        (None, Some(FuncType::Void)) => true,
        (Some(e), Some(FuncType::BType(t))) => is_composite(t) ==> single(e),
        _ => false,
    }
}

/// Every `return` in `s` fits its function; `f` is the function `s` is in.
pub open spec fn returns_ok(s: Stmt, f: Option<FuncType>) -> bool
    decreases s,
{
    match s {
        Stmt::Return(o) => return_ok(o, f),
        Stmt::Block(b) => forall|i: int|
            0 <= i < b.stmts@.len() ==> #[trigger] returns_ok(b.stmts@[i], f),
        Stmt::While(w) => returns_ok(*w.body, f),
        Stmt::IfElse(ie) => returns_ok(*ie.if_, f) && match ie.else_ {
            Some(e) => returns_ok(*e, f),
            None => true,
        },
        Stmt::FuncDef(d) => forall|i: int|
            0 <= i < d.block.stmts@.len() ==> #[trigger] returns_ok(
                d.block.stmts@[i],
                Some(d.func_type),
            ),
        _ => true,
    }
}

/// Both structural rules hold of every statement of `ss`.
pub open spec fn stmts_ok(ss: Seq<Stmt>, in_loop: bool, f: Option<FuncType>) -> bool {
    forall|i: int| 0 <= i < ss.len() ==> jumps_ok(#[trigger] ss[i], in_loop) && returns_ok(ss[i], f)
}

pub fn type_check(found: BType, expect: BType) -> (r: Result<(), Error>)
    ensures
        r == crate::semantic::rules::tc(found, expect),
        r is Ok <==> compatible(found, expect),
        r is Err ==> r == Err::<(), Error>(
            Error::SemanticError(
                SemanticError::TypeMismatch { expected: expect, found: FuncType::BType(found) },
            ),
        ),
{
    let ok = match (found, expect) {
        (BType::Int, BType::Int) | (BType::Int, BType::Bool) | (BType::Int, BType::Note) => true,
        (BType::Bool, BType::Int) | (BType::Bool, BType::Bool) | (BType::Bool, BType::Note) => true,
        (BType::Note, BType::Note) => true,
        (BType::Measure, BType::Measure) => true,
        (BType::Phrase, BType::Phrase) => true,
        (BType::Track, BType::Track) => true,
        _ => false,
    };
    if ok {
        Ok(())
    } else {
        Err(
            Error::SemanticError(
                SemanticError::TypeMismatch { expected: expect, found: FuncType::BType(found) },
            ),
        )
    }
}

fn arith_check(t: BType) -> (r: Result<(), Error>)
    ensures
        r == crate::semantic::rules::arith(t),
{
    match t {
        BType::Int | BType::Bool => Ok(()),
        _ => Err(Error::SemanticError(SemanticError::NonArithmeticOperand)),
    }
}

fn nesting() -> (r: Error)
    ensures
        r == Error::InternalError(InternalError::NestingLimit),
{
    Error::InternalError(InternalError::NestingLimit)
}

fn composite(t: BType) -> (r: bool)
    ensures
        r == is_composite(t),
{
    match t {
        BType::Measure | BType::Phrase | BType::Track => true,
        _ => false,
    }
}

fn is_single(e: &LOrExpr) -> (r: bool)
    ensures
        r == single(*e),
{
    if e.land_exps.len() != 1 {
        return false;
    }
    let l = &e.land_exps[0];
    if l.eq_exps.len() != 1 {
        return false;
    }
    let q = &l.eq_exps[0];
    if q.rel_exps.len() != 1 {
        return false;
    }
    let r = &q.rel_exps[0];
    if r.add_exps.len() != 1 {
        return false;
    }
    let a = &r.add_exps[0];
    if a.mul_exps.len() != 1 {
        return false;
    }
    let m = &a.mul_exps[0];
    if m.unary_exps.len() != 1 {
        return false;
    }
    m.unary_exps[0].unary_ops.len() == 0
}

/// Model of the analyzer's state.
pub struct AnalyzerModel {
    pub scopes: Seq<ScopeModel>,
    pub current: usize,
    pub global: usize,
    pub loop_depth: u64,
    pub func: Option<FuncType>,
}

/// The analyzer's state: the scope table and where the walk stands.
#[derive(Debug)]
pub struct Analyzer {
    pub scopes: Scopes,
    pub global_block_id: usize,
    pub current_block_id: usize,
    /// How many loops enclose the current statement within its function.
    pub current_loop: u64,
    /// Return type of the function being checked, if any.
    pub current_func: Option<FuncType>,
}

impl View for Analyzer {
    type V = AnalyzerModel;

    open spec fn view(&self) -> AnalyzerModel {
        AnalyzerModel {
            scopes: self.scopes@,
            current: self.current_block_id,
            global: self.global_block_id,
            loop_depth: self.current_loop,
            func: self.current_func,
        }
    }
}

impl Analyzer {
    pub open spec fn wf(&self) -> bool {
        &&& scopes_wf(self.scopes@)
        &&& self.current_block_id < self.scopes@.len()
        &&& self.global_block_id < self.scopes@.len()
    }

    /// The walk position is as it was, and the table only grew.
    pub open spec fn kept(&self, old: &Analyzer) -> bool {
        &&& self.wf()
        &&& self.current_block_id == old.current_block_id
        &&& self.global_block_id == old.global_block_id
        &&& self.current_loop == old.current_loop
        &&& self.current_func == old.current_func
        &&& self.scopes@.len() >= old.scopes@.len()
    }

    /// A table holding only the global scope.
    pub fn new() -> (r: Analyzer)
        ensures
            r.wf(),
            r.scopes@ == seq![ScopeModel { symbols: Seq::empty(), parent: None }],
            r.global_block_id == 0,
            r.current_block_id == 0,
            r.current_loop == 0,
            r.current_func is None,
    {
        let mut scopes = Scopes::new();
        let g = scopes.add_scope(None);
        assert(scopes@ =~= seq![ScopeModel { symbols: Seq::empty(), parent: None }]);
        Analyzer { scopes, global_block_id: g, current_block_id: g, current_loop: 0, current_func: None }
    }

    /// Open a scope under `parent`; see `rules::open_scope`.
    fn open_scope(&mut self, parent: usize) -> (r: Result<usize, Error>)
        requires
            old(self).wf(),
            parent < old(self).scopes@.len(),
        ensures
            final(self).wf(),
            final(self).current_block_id == old(self).current_block_id,
            final(self).global_block_id == old(self).global_block_id,
            final(self).current_loop == old(self).current_loop,
            final(self).current_func == old(self).current_func,
            final(self).scopes@.len() >= old(self).scopes@.len(),
            r matches Ok(b) ==> b < final(self).scopes@.len() && b == old(self).scopes@.len(),
            (final(self)@, r) == opened_scope(old(self)@, parent),
    {
        if self.scopes.len() == usize::MAX {
            return Err(nesting());
        }
        let b = self.scopes.add_scope(Some(parent));
        proof {
            let s = self.scopes@;
            assert forall|c: int| 0 <= c < s.len() implies (match (#[trigger] s[c]).parent {
                Some(p) => p < c,
                None => true,
            }) && crate::semantic::scope::names_unique(s[c].symbols) by {
                if c < s.len() - 1 {
                    assert(s[c] == old(self).scopes@[c]);
                }
            }
        }
        Ok(b)
    }

    /// Declare `sym` in the current block.
    fn declare(&mut self, sym: Symbol) -> (r: Result<(), Error>)
        requires
            old(self).wf(),
        ensures
            final(self).kept(old(self)),
            (final(self)@, r) == declare_here(old(self)@, sym.ident, sym.const_, sym@.kind),
    {
        let ghost s0 = self.scopes@;
        let ghost sm = sym@;
        let b = self.current_block_id;
        let r = self.scopes.decl(b, sym);
        proof {
            if r is Ok {
                crate::semantic::scope::lemma_no_redeclaration(s0, b as int, sm, sm);
            }
        }
        r
    }

    /// The type of a constant or variable occurrence, resolved up the chain
    /// of blocks; see `rules::lval_type`.
    pub fn lval_check(&self, l: &LVal) -> (r: Result<BType, Error>)
        requires
            self.wf(),
        ensures
            r == lval_type(self@, *l),
    {
        match self.scopes.resolve(self.current_block_id, &l.ident) {
            Some((b, j)) => match &self.scopes.symbol(b, j).kind {
                SymbolKind::Val(t) => Ok(*t),
                SymbolKind::Func(..) => Err(
                    Error::SemanticError(SemanticError::Undefined(l.ident.clone())),
                ),
            },
            None => Err(Error::SemanticError(SemanticError::Undefined(l.ident.clone()))),
        }
    }

    /// A call: the callee resolves to a function, the argument count
    /// matches, each argument fits its parameter; yields the return type.
    /// See `rules::ck_call`.
    pub fn func_call_check(&self, c: &FuncCall, fuel: u64) -> (r: Result<FuncType, Error>)
        requires
            self.wf(),
        ensures
            r == ck_call(self@, *c, fuel as nat),
        decreases fuel, 0int, 0int,
    {
        let (b, j) = match self.scopes.resolve(self.current_block_id, &c.ident) {
            Some(x) => x,
            None => return Err(Error::SemanticError(SemanticError::UnknownFunction(c.ident.clone()))),
        };
        let sym = self.scopes.symbol(b, j);
        let (ret, params) = match &sym.kind {
            SymbolKind::Func(ret, params) => (*ret, params),
            SymbolKind::Val(_) => return Err(
                Error::SemanticError(SemanticError::UnknownFunction(c.ident.clone())),
            ),
        };
        if params.len() != c.func_rparams.len() {
            return Err(Error::SemanticError(SemanticError::ArityMismatch(c.ident.clone())));
        }
        if fuel == 0 {
            return Err(nesting());
        }
        let mut i: usize = 0;
        while i < params.len()
            invariant
                i <= params.len(),
                params.len() == c.func_rparams.len(),
                self.wf(),
                fuel > 0,
                b < self.scopes@.len(),
                j < self.scopes@[b as int].symbols.len(),
                resolve(self.scopes@, self.current_block_id as int, c.ident@) == Some(
                    (b as int, j as int),
                ),
                self.scopes@[b as int].symbols[j as int].kind == SymbolKindModel::Func(ret, params@),
                ck_args_from(self@, *c, params@, i as int, (fuel - 1) as nat) == ck_args_from(
                    self@,
                    *c,
                    params@,
                    0,
                    (fuel - 1) as nat,
                ),
            decreases params.len() - i,
        {
            match self.asgn_rval_check(&c.func_rparams[i], params[i], fuel - 1) {
                Ok(()) => {},
                Err(x) => return Err(x),
            }
            i = i + 1;
        }
        Ok(ret)
    }

    /// An expression where a value of type `expected` is needed, or any
    /// value when `expected` is `None`; see `rules::ck_expr`. A musical type
    /// needs a single operand; operators need integer operands.
    pub fn expr_check(&self, e: &LOrExpr, expected: Option<BType>, fuel: u64) -> (r: Result<(), Error>)
        requires
            self.wf(),
        ensures
            r == ck_expr(self@, *e, expected, fuel as nat),
            r is Ok ==> (expected matches Some(t) && is_composite(t) ==> single(*e)),
        decreases fuel, 0int, 0int,
    {
        if fuel == 0 {
            return Err(nesting());
        }
        let one = is_single(e);
        if !one {
            match expected {
                Some(t) => if composite(t) {
                    return Err(Error::SemanticError(SemanticError::NonArithmeticOperand));
                },
                None => {},
            }
        }
        let exp = if one {
            expected
        } else {
            None
        };
        self.lor_check(e, exp, one, fuel - 1)
    }

    /// A parenthesized expression under an operator; see
    /// `rules::ck_operand`.
    fn operand_check(&self, e: &LOrExpr, fuel: u64) -> (r: Result<(), Error>)
        requires
            self.wf(),
        ensures
            r == ck_operand(self@, *e, fuel as nat),
        decreases fuel, 0int, 0int,
    {
        if fuel == 0 {
            return Err(nesting());
        }
        self.lor_check(e, None, false, fuel - 1)
    }

    fn lor_check(&self, e: &LOrExpr, exp: Option<BType>, alone: bool, fuel: u64) -> (r: Result<(), Error>)
        requires
            self.wf(),
        ensures
            r == ck_lor_from(self@, *e, 0, exp, alone, fuel as nat),
        decreases fuel, 6int, 0int,
    {
        let mut i: usize = 0;
        while i < e.land_exps.len()
            invariant
                self.wf(),
                ck_lor_from(self@, *e, i as int, exp, alone, fuel as nat) == ck_lor_from(
                    self@,
                    *e,
                    0,
                    exp,
                    alone,
                    fuel as nat,
                ),
            decreases e.land_exps.len() - i,
        {
            match self.land_check(&e.land_exps[i], exp, alone, fuel) {
                Ok(()) => {},
                Err(x) => return Err(x),
            }
            i = i + 1;
        }
        Ok(())
    }

    fn land_check(&self, e: &LAndExpr, exp: Option<BType>, alone: bool, fuel: u64) -> (r: Result<(), Error>)
        requires
            self.wf(),
        ensures
            r == ck_land_from(self@, *e, 0, exp, alone, fuel as nat),
        decreases fuel, 5int, 0int,
    {
        let mut i: usize = 0;
        while i < e.eq_exps.len()
            invariant
                self.wf(),
                ck_land_from(self@, *e, i as int, exp, alone, fuel as nat) == ck_land_from(
                    self@,
                    *e,
                    0,
                    exp,
                    alone,
                    fuel as nat,
                ),
            decreases e.eq_exps.len() - i,
        {
            match self.eq_check(&e.eq_exps[i], exp, alone, fuel) {
                Ok(()) => {},
                Err(x) => return Err(x),
            }
            i = i + 1;
        }
        Ok(())
    }

    fn eq_check(&self, e: &EqExpr, exp: Option<BType>, alone: bool, fuel: u64) -> (r: Result<(), Error>)
        requires
            self.wf(),
        ensures
            r == ck_eq_from(self@, *e, 0, exp, alone, fuel as nat),
        decreases fuel, 4int, 0int,
    {
        let mut i: usize = 0;
        while i < e.rel_exps.len()
            invariant
                self.wf(),
                ck_eq_from(self@, *e, i as int, exp, alone, fuel as nat) == ck_eq_from(
                    self@,
                    *e,
                    0,
                    exp,
                    alone,
                    fuel as nat,
                ),
            decreases e.rel_exps.len() - i,
        {
            match self.rel_check(&e.rel_exps[i], exp, alone, fuel) {
                Ok(()) => {},
                Err(x) => return Err(x),
            }
            i = i + 1;
        }
        Ok(())
    }

    fn rel_check(&self, e: &RelExpr, exp: Option<BType>, alone: bool, fuel: u64) -> (r: Result<(), Error>)
        requires
            self.wf(),
        ensures
            r == ck_rel_from(self@, *e, 0, exp, alone, fuel as nat),
        decreases fuel, 3int, 0int,
    {
        let mut i: usize = 0;
        while i < e.add_exps.len()
            invariant
                self.wf(),
                ck_rel_from(self@, *e, i as int, exp, alone, fuel as nat) == ck_rel_from(
                    self@,
                    *e,
                    0,
                    exp,
                    alone,
                    fuel as nat,
                ),
            decreases e.add_exps.len() - i,
        {
            match self.add_check(&e.add_exps[i], exp, alone, fuel) {
                Ok(()) => {},
                Err(x) => return Err(x),
            }
            i = i + 1;
        }
        Ok(())
    }

    fn add_check(&self, e: &AddExpr, exp: Option<BType>, alone: bool, fuel: u64) -> (r: Result<(), Error>)
        requires
            self.wf(),
        ensures
            r == ck_add_from(self@, *e, 0, exp, alone, fuel as nat),
        decreases fuel, 2int, 0int,
    {
        let mut i: usize = 0;
        while i < e.mul_exps.len()
            invariant
                self.wf(),
                ck_add_from(self@, *e, i as int, exp, alone, fuel as nat) == ck_add_from(
                    self@,
                    *e,
                    0,
                    exp,
                    alone,
                    fuel as nat,
                ),
            decreases e.mul_exps.len() - i,
        {
            match self.mul_check(&e.mul_exps[i], exp, alone, fuel) {
                Ok(()) => {},
                Err(x) => return Err(x),
            }
            i = i + 1;
        }
        Ok(())
    }

    fn mul_check(&self, e: &MulExpr, exp: Option<BType>, alone: bool, fuel: u64) -> (r: Result<(), Error>)
        requires
            self.wf(),
        ensures
            r == ck_mul_from(self@, *e, 0, exp, alone, fuel as nat),
        decreases fuel, 1int, 0int,
    {
        let mut i: usize = 0;
        while i < e.unary_exps.len()
            invariant
                self.wf(),
                ck_mul_from(self@, *e, i as int, exp, alone, fuel as nat) == ck_mul_from(
                    self@,
                    *e,
                    0,
                    exp,
                    alone,
                    fuel as nat,
                ),
            decreases e.unary_exps.len() - i,
        {
            match self.primary_check(&e.unary_exps[i].primary_exp, exp, alone, fuel) {
                Ok(()) => {},
                Err(x) => return Err(x),
            }
            i = i + 1;
        }
        Ok(())
    }

    /// One operand; see `rules::ck_primary`.
    fn primary_check(&self, p: &PrimaryExpr, expected: Option<BType>, alone: bool, fuel: u64) -> (r:
        Result<(), Error>)
        requires
            self.wf(),
        ensures
            r == ck_primary(self@, *p, expected, alone, fuel as nat),
        decreases fuel, 0int, 0int,
    {
        if fuel == 0 {
            return Err(nesting());
        }
        match p {
            PrimaryExpr::Number(_) => match expected {
                Some(t) => type_check(BType::Int, t),
                None => Ok(()),
            },
            PrimaryExpr::LVal(l) => {
                let t = match self.lval_check(l) {
                    Ok(t) => t,
                    Err(x) => return Err(x),
                };
                match expected {
                    Some(x) => type_check(t, x),
                    None => if alone {
                        Ok(())
                    } else {
                        arith_check(t)
                    },
                }
            },
            PrimaryExpr::FuncCall(c) => {
                let ret = match self.func_call_check(c, fuel - 1) {
                    Ok(t) => t,
                    Err(x) => return Err(x),
                };
                match (ret, expected) {
                    (FuncType::Void, Some(x)) => Err(
                        Error::SemanticError(
                            SemanticError::TypeMismatch { expected: x, found: FuncType::Void },
                        ),
                    ),
                    (FuncType::Void, None) => if alone {
                        Ok(())
                    } else {
                        Err(Error::SemanticError(SemanticError::NonArithmeticOperand))
                    },
                    (FuncType::BType(t), Some(x)) => type_check(t, x),
                    (FuncType::BType(t), None) => if alone {
                        Ok(())
                    } else {
                        arith_check(t)
                    },
                }
            },
            PrimaryExpr::Expr(inner) => if alone {
                self.expr_check(inner, expected, fuel - 1)
            } else {
                self.operand_check(inner, fuel - 1)
            },
        }
    }

    /// A note literal; see `rules::ck_note`.
    pub fn note_check(&self, n: &Note, fuel: u64) -> (r: Result<(), Error>)
        requires
            self.wf(),
        ensures
            r == ck_note(self@, *n, fuel as nat),
        decreases fuel, 0int, 0int,
    {
        if fuel == 0 {
            return Err(nesting());
        }
        match &n.len {
            Some(e) => match self.expr_check(e, Some(BType::Int), fuel - 1) {
                Ok(()) => {},
                Err(x) => return Err(x),
            },
            None => {},
        }
        let mut i: usize = 0;
        while i < n.notes.len()
            invariant
                self.wf(),
                fuel > 0,
                ck_note(self@, *n, fuel as nat) == ck_note_from(self@, *n, 0, (fuel - 1) as nat),
                ck_note_from(self@, *n, i as int, (fuel - 1) as nat) == ck_note_from(
                    self@,
                    *n,
                    0,
                    (fuel - 1) as nat,
                ),
            decreases n.notes.len() - i,
        {
            match self.expr_check(&n.notes[i], Some(BType::Note), fuel - 1) {
                Ok(()) => {},
                Err(x) => return Err(x),
            }
            i = i + 1;
        }
        Ok(())
    }

    /// A measure literal; see `rules::ck_measure`.
    pub fn measure_check(&self, m: &Measure, fuel: u64) -> (r: Result<(), Error>)
        requires
            self.wf(),
        ensures
            r == ck_measure(self@, *m, fuel as nat),
        decreases fuel, 0int, 0int,
    {
        if fuel == 0 {
            return Err(nesting());
        }
        let mut i: usize = 0;
        while i < m.content.len()
            invariant
                self.wf(),
                fuel > 0,
                ck_measure_from(self@, *m, i as int, (fuel - 1) as nat) == ck_measure_from(
                    self@,
                    *m,
                    0,
                    (fuel - 1) as nat,
                ),
            decreases m.content.len() - i,
        {
            match &m.content[i] {
                MeasureUnit::Note(n) => match self.note_check(n, fuel - 1) {
                    Ok(()) => {},
                    Err(x) => return Err(x),
                },
                _ => {},
            }
            i = i + 1;
        }
        Ok(())
    }

    /// A name that must denote exactly the musical type `want`.
    fn lval_source_check(&self, l: &LVal, want: BType) -> (r: Result<(), Error>)
        requires
            self.wf(),
        ensures
            r == ck_lval_source(self@, *l, want),
    {
        match self.lval_check(l) {
            Err(x) => Err(x),
            Ok(t) => if t == want {
                Ok(())
            } else {
                Err(
                    Error::SemanticError(
                        SemanticError::TypeMismatch { expected: want, found: FuncType::BType(t) },
                    ),
                )
            },
        }
    }

    /// A call that must return exactly the musical type `want`.
    fn call_source_check(&self, c: &FuncCall, want: BType, fuel: u64) -> (r: Result<(), Error>)
        requires
            self.wf(),
        ensures
            r == ck_call_source(self@, *c, want, fuel as nat),
        decreases fuel, 0int, 0int,
    {
        if fuel == 0 {
            return Err(nesting());
        }
        match self.func_call_check(c, fuel - 1) {
            Err(x) => Err(x),
            Ok(ret) => {
                let ok = match ret {
                    FuncType::BType(t) => t == want,
                    FuncType::Void => false,
                };
                if ok {
                    Ok(())
                } else {
                    Err(Error::SemanticError(SemanticError::TypeMismatch { expected: want, found: ret }))
                }
            },
        }
    }

    /// A phrase literal; see `rules::ck_phrase`.
    pub fn phrase_check(&self, p: &Phrase, fuel: u64) -> (r: Result<(), Error>)
        requires
            self.wf(),
        ensures
            r == ck_phrase(self@, *p, fuel as nat),
        decreases fuel, 0int, 0int,
    {
        if fuel == 0 {
            return Err(nesting());
        }
        let mut i: usize = 0;
        while i < p.content.len()
            invariant
                self.wf(),
                fuel > 0,
                ck_phrase_from(self@, *p, i as int, (fuel - 1) as nat) == ck_phrase_from(
                    self@,
                    *p,
                    0,
                    (fuel - 1) as nat,
                ),
            decreases p.content.len() - i,
        {
            let r = match &p.content[i] {
                MeasureRVal::Measure(m) => self.measure_check(m, fuel - 1),
                MeasureRVal::LVal(l) => self.lval_source_check(l, BType::Measure),
                MeasureRVal::FuncCall(c) => self.call_source_check(c, BType::Measure, fuel - 1),
            };
            match r {
                Ok(()) => {},
                Err(x) => return Err(x),
            }
            i = i + 1;
        }
        Ok(())
    }

    /// A track literal; see `rules::ck_track`.
    pub fn track_check(&self, t: &Track, fuel: u64) -> (r: Result<(), Error>)
        requires
            self.wf(),
        ensures
            r == ck_track(self@, *t, fuel as nat),
        decreases fuel, 0int, 0int,
    {
        if fuel == 0 {
            return Err(nesting());
        }
        let mut i: usize = 0;
        while i < t.content.len()
            invariant
                self.wf(),
                fuel > 0,
                ck_track_from(self@, *t, i as int, (fuel - 1) as nat) == ck_track_from(
                    self@,
                    *t,
                    0,
                    (fuel - 1) as nat,
                ),
            decreases t.content.len() - i,
        {
            let r = match &t.content[i] {
                PhraseRVal::Phrase(p) => self.phrase_check(p, fuel - 1),
                PhraseRVal::LVal(l) => self.lval_source_check(l, BType::Phrase),
                PhraseRVal::FuncCall(c) => self.call_source_check(c, BType::Phrase, fuel - 1),
            };
            match r {
                Ok(()) => {},
                Err(x) => return Err(x),
            }
            i = i + 1;
        }
        Ok(())
    }

    /// A right-hand side for a cell of type `expect`; see
    /// `rules::ck_asgn_rval`.
    pub fn asgn_rval_check(&self, a: &AsgnRVal, expect: BType, fuel: u64) -> (r: Result<(), Error>)
        requires
            self.wf(),
        ensures
            r == ck_asgn_rval(self@, *a, expect, fuel as nat),
        decreases fuel, 0int, 0int,
    {
        if fuel == 0 {
            return Err(nesting());
        }
        match a {
            AsgnRVal::Expr(e) => self.expr_check(e, Some(expect), fuel - 1),
            AsgnRVal::Note(n) => match self.note_check(n, fuel - 1) {
                Ok(()) => type_check(BType::Note, expect),
                Err(x) => Err(x),
            },
            AsgnRVal::Measure(m) => match self.measure_check(m, fuel - 1) {
                Ok(()) => type_check(BType::Measure, expect),
                Err(x) => Err(x),
            },
            AsgnRVal::Phrase(p) => match self.phrase_check(p, fuel - 1) {
                Ok(()) => type_check(BType::Phrase, expect),
                Err(x) => Err(x),
            },
            AsgnRVal::Track(t) => match self.track_check(t, fuel - 1) {
                Ok(()) => type_check(BType::Track, expect),
                Err(x) => Err(x),
            },
        }
    }
}

impl Analyzer {
    pub fn break_check(&self) -> (r: Result<(), Error>)
        ensures
            r is Ok <==> self.current_loop > 0,
            r == (if self.current_loop > 0 {
                Ok::<(), Error>(())
            } else {
                Err(Error::SemanticError(SemanticError::LoopOnlyKeyword))
            }),
    {
        if self.current_loop > 0 {
            Ok(())
        } else {
            Err(Error::SemanticError(SemanticError::LoopOnlyKeyword))
        }
    }

    pub fn continue_check(&self) -> (r: Result<(), Error>)
        ensures
            r is Ok <==> self.current_loop > 0,
            r == (if self.current_loop > 0 {
                Ok::<(), Error>(())
            } else {
                Err(Error::SemanticError(SemanticError::LoopOnlyKeyword))
            }),
    {
        if self.current_loop > 0 {
            Ok(())
        } else {
            Err(Error::SemanticError(SemanticError::LoopOnlyKeyword))
        }
    }

    /// A `return` against the function being checked.
    pub fn return_check(&self, o: &Option<LOrExpr>, fuel: u64) -> (r: Result<(), Error>)
        requires
            self.wf(),
        ensures
            r == ck_return(self@, *o, fuel as nat),
            r is Ok ==> return_ok(*o, self.current_func),
    {
        match (self.current_func, o) {
            (None, _) => Err(Error::SemanticError(SemanticError::ReturnOutsideFunction)),
            (Some(FuncType::Void), None) => Ok(()),
            (Some(FuncType::Void), Some(_)) => Err(
                Error::SemanticError(SemanticError::ReturnTypeMismatch),
            ),
            (Some(FuncType::BType(_)), None) => Err(
                Error::SemanticError(SemanticError::ReturnTypeMismatch),
            ),
            (Some(FuncType::BType(t)), Some(e)) => match self.expr_check(e, Some(t), fuel) {
                Err(Error::SemanticError(SemanticError::TypeMismatch { expected, found })) => if expected
                    == t {
                    Err(Error::SemanticError(SemanticError::ReturnTypeMismatch))
                } else {
                    Err(Error::SemanticError(SemanticError::TypeMismatch { expected, found }))
                },
                r => r,
            },
        }
    }

    /// Channel statements take integers, and a track.
    pub fn channel_stmt_check(&self, st: &ScoreStmt, fuel: u64) -> (r: Result<(), Error>)
        requires
            self.wf(),
        ensures
            r == ck_channel_stmt(self@, *st, fuel as nat),
    {
        match st {
            ScoreStmt::SetTempo(e) => self.expr_check(e, Some(BType::Int), fuel),
            ScoreStmt::SetTimeSignature(ts) => {
                let r = self.expr_check(&ts.top_num, Some(BType::Int), fuel);
                if r.is_err() {
                    return r;
                }
                self.expr_check(&ts.bottom_num, Some(BType::Int), fuel)
            },
            ScoreStmt::SetChannelInstrument(ci) => {
                let r = self.expr_check(&ci.channel, Some(BType::Int), fuel);
                if r.is_err() {
                    return r;
                }
                self.expr_check(&ci.instrument, Some(BType::Int), fuel)
            },
            ScoreStmt::SetChannelTrack(ct) => {
                let r = self.expr_check(&ct.channel, Some(BType::Int), fuel);
                if r.is_err() {
                    return r;
                }
                match &ct.track {
                    TrackRVal::Track(t) => self.track_check(t, fuel),
                    TrackRVal::LVal(l) => self.lval_source_check(l, BType::Track),
                    TrackRVal::FuncCall(c) => self.call_source_check(c, BType::Track, fuel),
                }
            },
        }
    }

    /// Assignment: the name must be a variable; the right-hand side must fit
    /// its type.
    pub fn asgn_check(&self, a: &Asgn, fuel: u64) -> (r: Result<(), Error>)
        requires
            self.wf(),
        ensures
            r == ck_asgn(self@, *a, fuel as nat),
            r is Ok ==> match resolve(self.scopes@, self.current_block_id as int, a.lval.ident@) {
                Some((b, j)) => !self.scopes@[b].symbols[j].const_
                    && self.scopes@[b].symbols[j].kind is Val,
                None => false,
            },
    {
        let (b, j) = match self.scopes.resolve(self.current_block_id, &a.lval.ident) {
            Some(x) => x,
            None => return Err(
                Error::SemanticError(SemanticError::Undefined(a.lval.ident.clone())),
            ),
        };
        let sym = self.scopes.symbol(b, j);
        if sym.const_ {
            return Err(Error::SemanticError(SemanticError::NotAssignable(a.lval.ident.clone())));
        }
        match &sym.kind {
            SymbolKind::Val(t) => self.asgn_rval_check(&a.rval, *t, fuel),
            SymbolKind::Func(..) => Err(
                Error::SemanticError(SemanticError::NotAssignable(a.lval.ident.clone())),
            ),
        }
    }

    /// Declare each constant, then check its initializer against the type.
    pub fn const_decl_check(&mut self, d: &ConstDecl, fuel: u64) -> (r: Result<(), Error>)
        requires
            old(self).wf(),
        ensures
            final(self).kept(old(self)),
            step_agrees(r, final(self)@, ck_const_from(old(self)@, *d, 0, fuel as nat)),
    {
        let mut i: usize = 0;
        while i < d.const_defs.len()
            invariant
                self.kept(old(self)),
                ck_const_from(self@, *d, i as int, fuel as nat) == ck_const_from(
                    old(self)@,
                    *d,
                    0,
                    fuel as nat,
                ),
            decreases d.const_defs.len() - i,
        {
            let def = &d.const_defs[i];
            let r = self.declare(Symbol::new_val(def.ident.clone(), true, d.btype));
            if r.is_err() {
                return r;
            }
            let r = self.asgn_rval_check(&def.rval, d.btype, fuel);
            if r.is_err() {
                return r;
            }
            i = i + 1;
        }
        Ok(())
    }

    /// Declare each variable, then check its initializer, if any.
    pub fn var_decl_check(&mut self, d: &VarDecl, fuel: u64) -> (r: Result<(), Error>)
        requires
            old(self).wf(),
        ensures
            final(self).kept(old(self)),
            step_agrees(r, final(self)@, ck_var_from(old(self)@, *d, 0, fuel as nat)),
    {
        let mut i: usize = 0;
        while i < d.var_defs.len()
            invariant
                self.kept(old(self)),
                ck_var_from(self@, *d, i as int, fuel as nat) == ck_var_from(
                    old(self)@,
                    *d,
                    0,
                    fuel as nat,
                ),
            decreases d.var_defs.len() - i,
        {
            let def = &d.var_defs[i];
            let r = self.declare(Symbol::new_val(def.ident.clone(), false, d.btype));
            if r.is_err() {
                return r;
            }
            match &def.rval_ {
                Some(rv) => {
                    let r = self.asgn_rval_check(rv, d.btype, fuel);
                    if r.is_err() {
                        return r;
                    }
                },
                None => {},
            }
            i = i + 1;
        }
        Ok(())
    }

    /// Statements of one block, in order, in the current scope.
    pub fn stmts_check(&mut self, ss: &Vec<Stmt>, fuel: u64) -> (r: Result<(), Error>)
        requires
            old(self).wf(),
        ensures
            final(self).kept(old(self)),
            r is Ok ==> stmts_ok(ss@, old(self).current_loop > 0, old(self).current_func),
            step_agrees(r, final(self)@, ck_stmts_from(old(self)@, ss@, 0, fuel as nat)),
        decreases fuel, 1int,
    {
        let mut i: usize = 0;
        while i < ss.len()
            invariant
                i <= ss.len(),
                self.kept(old(self)),
                ck_stmts_from(self@, ss@, i as int, fuel as nat) == ck_stmts_from(
                    old(self)@,
                    ss@,
                    0,
                    fuel as nat,
                ),
                stmts_ok(ss@.subrange(0, i as int), old(self).current_loop > 0, old(self).current_func),
            decreases ss.len() - i,
        {
            let r = self.stmt_check(&ss[i], fuel);
            if r.is_err() {
                return r;
            }
            proof {
                assert forall|k: int| 0 <= k < i + 1 implies jumps_ok(
                    #[trigger] ss@.subrange(0, i + 1)[k],
                    old(self).current_loop > 0,
                ) && returns_ok(ss@.subrange(0, i + 1)[k], old(self).current_func) by {
                    if k < i {
                        assert(ss@.subrange(0, i + 1)[k] == ss@.subrange(0, i as int)[k]);
                    }
                }
            }
            i = i + 1;
        }
        assert(ss@.subrange(0, i as int) =~= ss@);
        Ok(())
    }

    /// A nested block: a new scope under the current one.
    pub fn block_check(&mut self, b: &Block, fuel: u64) -> (r: Result<(), Error>)
        requires
            old(self).wf(),
        ensures
            final(self).kept(old(self)),
            r is Ok ==> stmts_ok(b.stmts@, old(self).current_loop > 0, old(self).current_func),
            step_agrees(r, final(self)@, ck_block(old(self)@, *b, fuel as nat)),
        decreases fuel, 0int,
    {
        if fuel == 0 {
            return Err(nesting());
        }
        let cur = self.current_block_id;
        let nb = match self.open_scope(cur) {
            Ok(nb) => nb,
            Err(x) => return Err(x),
        };
        self.current_block_id = nb;
        let r = self.stmts_check(&b.stmts, fuel - 1);
        self.current_block_id = cur;
        r
    }

    /// A function definition: its name in the current scope, then its body
    /// in a new scope under the global one, holding the parameters.
    pub fn func_def_check(&mut self, d: &FuncDef, fuel: u64) -> (r: Result<(), Error>)
        requires
            old(self).wf(),
        ensures
            final(self).kept(old(self)),
            r is Ok ==> stmts_ok(d.block.stmts@, false, Some(d.func_type)),
            step_agrees(r, final(self)@, ck_func_def(old(self)@, *d, fuel as nat)),
        decreases fuel, 0int,
    {
        if fuel == 0 {
            return Err(nesting());
        }
        let mut params: Vec<BType> = Vec::new();
        let mut i: usize = 0;
        while i < d.func_fparams.len()
            invariant
                i <= d.func_fparams.len(),
                params@ == d.func_fparams@.subrange(0, i as int).map_values(|p: FuncFParam| p.btype),
            decreases d.func_fparams.len() - i,
        {
            params.push(d.func_fparams[i].btype);
            i = i + 1;
            proof {
                assert(params@ =~= d.func_fparams@.subrange(0, i as int).map_values(
                    |p: FuncFParam| p.btype,
                ));
            }
        }
        assert(d.func_fparams@.subrange(0, i as int) =~= d.func_fparams@);
        let r = self.declare(Symbol::new_func(d.ident.clone(), d.func_type, params));
        if r.is_err() {
            return r;
        }
        self.func_block_check(d, fuel - 1)
    }

    /// The body of a function, outside any loop.
    pub fn func_block_check(&mut self, d: &FuncDef, fuel: u64) -> (r: Result<(), Error>)
        requires
            old(self).wf(),
        ensures
            final(self).kept(old(self)),
            r is Ok ==> stmts_ok(d.block.stmts@, false, Some(d.func_type)),
            step_agrees(r, final(self)@, ck_func_block(old(self)@, *d, fuel as nat)),
        decreases fuel, 0int,
    {
        if fuel == 0 {
            return Err(nesting());
        }
        let cur = self.current_block_id;
        let saved_loop = self.current_loop;
        let saved_func = self.current_func;
        let nb = match self.open_scope(self.global_block_id) {
            Ok(nb) => nb,
            Err(x) => return Err(x),
        };
        self.current_block_id = nb;
        self.current_loop = 0;
        self.current_func = Some(d.func_type);
        let ghost an2 = self@;
        let mut i: usize = 0;
        while i < d.func_fparams.len()
            invariant
                self.wf(),
                self.current_block_id == nb,
                self.global_block_id == old(self).global_block_id,
                self.current_loop == 0,
                self.current_func == Some(d.func_type),
                self.scopes@.len() >= old(self).scopes@.len(),
                cur == old(self).current_block_id,
                cur < self.scopes@.len(),
                saved_loop == old(self).current_loop,
                saved_func == old(self).current_func,
                opened_scope(old(self)@, old(self).global_block_id) == (
                    AnalyzerModel { current: old(self)@.current, loop_depth: old(self)@.loop_depth, func: old(self)@.func, ..an2 },
                    Ok::<usize, Error>(nb),
                ),
                an2.current == nb && an2.loop_depth == 0 && an2.func == Some(d.func_type),
                fuel > 0,
                ck_params_from(self@, *d, i as int) == ck_params_from(an2, *d, 0),
            decreases d.func_fparams.len() - i,
        {
            let p = &d.func_fparams[i];
            let r = self.declare(Symbol::new_val(p.ident.clone(), false, p.btype));
            if r.is_err() {
                self.current_block_id = cur;
                self.current_loop = saved_loop;
                self.current_func = saved_func;
                return r;
            }
            i = i + 1;
        }
        let r = self.stmts_check(&d.block.stmts, fuel - 1);
        self.current_block_id = cur;
        self.current_loop = saved_loop;
        self.current_func = saved_func;
        r
    }

    /// A loop: the condition is a boolean, the body is inside the loop.
    pub fn while_check(&mut self, w: &While, fuel: u64) -> (r: Result<(), Error>)
        requires
            old(self).wf(),
        ensures
            final(self).kept(old(self)),
            r is Ok ==> jumps_ok(*w.body, true) && returns_ok(*w.body, old(self).current_func),
            step_agrees(r, final(self)@, ck_while(old(self)@, *w, fuel as nat)),
        decreases fuel, 0int,
    {
        if fuel == 0 {
            return Err(nesting());
        }
        let r = self.expr_check(&w.cond, Some(BType::Bool), fuel);
        if r.is_err() {
            return r;
        }
        if self.current_loop == u64::MAX {
            return Err(nesting());
        }
        let saved = self.current_loop;
        self.current_loop = saved + 1;
        let r = self.stmt_check(&w.body, fuel - 1);
        self.current_loop = saved;
        r
    }

    pub fn ifelse_check(&mut self, ie: &IfElse, fuel: u64) -> (r: Result<(), Error>)
        requires
            old(self).wf(),
        ensures
            final(self).kept(old(self)),
            r is Ok ==> jumps_ok(*ie.if_, old(self).current_loop > 0) && returns_ok(
                *ie.if_,
                old(self).current_func,
            ) && match ie.else_ {
                Some(e) => jumps_ok(*e, old(self).current_loop > 0) && returns_ok(
                    *e,
                    old(self).current_func,
                ),
                None => true,
            },
            step_agrees(r, final(self)@, ck_ifelse(old(self)@, *ie, fuel as nat)),
        decreases fuel, 0int,
    {
        if fuel == 0 {
            return Err(nesting());
        }
        let r = self.expr_check(&ie.cond, Some(BType::Bool), fuel);
        if r.is_err() {
            return r;
        }
        let r = self.stmt_check(&ie.if_, fuel - 1);
        if r.is_err() {
            return r;
        }
        match &ie.else_ {
            Some(e) => self.stmt_check(e, fuel - 1),
            None => Ok(()),
        }
    }

    /// One statement.
    #[verifier::rlimit(60)]
    pub fn stmt_check(&mut self, s: &Stmt, fuel: u64) -> (r: Result<(), Error>)
        requires
            old(self).wf(),
        ensures
            final(self).kept(old(self)),
            r is Ok ==> jumps_ok(*s, old(self).current_loop > 0) && returns_ok(
                *s,
                old(self).current_func,
            ),
            step_agrees(r, final(self)@, ck_stmt(old(self)@, *s, fuel as nat)),
        decreases fuel, 0int,
    {
        if fuel == 0 {
            return Err(nesting());
        }
        match s {
            Stmt::Break => self.break_check(),
            Stmt::Continue => self.continue_check(),
            Stmt::ConstDecl(d) => self.const_decl_check(d, fuel - 1),
            Stmt::VarDecl(d) => self.var_decl_check(d, fuel - 1),
            Stmt::Asgn(a) => self.asgn_check(a, fuel - 1),
            Stmt::Return(o) => self.return_check(o, fuel - 1),
            Stmt::Block(b) => self.block_check(b, fuel - 1),
            Stmt::While(w) => self.while_check(w, fuel - 1),
            Stmt::FuncDef(d) => self.func_def_check(d, fuel - 1),
            Stmt::IfElse(ie) => self.ifelse_check(ie, fuel - 1),
            Stmt::Expr(Some(e)) => self.expr_check(e, None, fuel - 1),
            Stmt::Expr(None) => Ok(()),
        }
    }

    /// The global block, in the global scope.
    pub fn global_block_check(&mut self, b: &Block) -> (r: Result<(), Error>)
        requires
            old(self).wf(),
        ensures
            final(self).kept(old(self)),
            r is Ok ==> stmts_ok(b.stmts@, old(self).current_loop > 0, old(self).current_func),
            step_agrees(r, final(self)@, ck_global(old(self)@, *b, CHECK_FUEL as nat)),
    {
        reveal(ck_global);
        let cur = self.current_block_id;
        self.current_block_id = self.global_block_id;
        let r = self.stmts_check(&b.stmts, CHECK_FUEL);
        self.current_block_id = cur;
        r
    }

    /// The channel statements of a score, in the current scope.
    fn channel_stmts_check(&self, s: &Score, fuel: u64) -> (r: Result<(), Error>)
        requires
            self.wf(),
        ensures
            r == ck_channel_from(self@, *s, 0, fuel as nat),
    {
        let mut i: usize = 0;
        while i < s.channel_stmts.len()
            invariant
                self.wf(),
                ck_channel_from(self@, *s, i as int, fuel as nat) == ck_channel_from(
                    self@,
                    *s,
                    0,
                    fuel as nat,
                ),
            decreases s.channel_stmts.len() - i,
        {
            match self.channel_stmt_check(&s.channel_stmts[i], fuel) {
                Ok(()) => {},
                Err(x) => return Err(x),
            }
            i = i + 1;
        }
        Ok(())
    }

    /// The score: its block in a new scope under the global one, then its
    /// channel statements in that scope.
    pub fn score_check(&mut self, s: &Score) -> (r: Result<(), Error>)
        requires
            old(self).wf(),
        ensures
            final(self).kept(old(self)),
            r is Ok ==> stmts_ok(s.block.stmts@, old(self).current_loop > 0, old(self).current_func),
            step_agrees(r, final(self)@, ck_score(old(self)@, *s, CHECK_FUEL as nat)),
    {
        reveal(ck_score);
        let cur = self.current_block_id;
        let nb = match self.open_scope(self.global_block_id) {
            Ok(nb) => nb,
            Err(x) => return Err(x),
        };
        self.current_block_id = nb;
        let r = self.stmts_check(&s.block.stmts, CHECK_FUEL);
        if r.is_err() {
            self.current_block_id = cur;
            return r;
        }
        let r2 = self.channel_stmts_check(s, CHECK_FUEL);
        self.current_block_id = cur;
        r2
    }

    /// Check a whole program: the global block, then the score.
    pub fn check(&mut self, cu: &CompUnit) -> (r: Result<(), Error>)
        requires
            old(self).wf(),
        ensures
            final(self).kept(old(self)),
            r is Ok ==> stmts_ok(cu.block.stmts@, old(self).current_loop > 0, old(self).current_func)
                && stmts_ok(cu.score.block.stmts@, old(self).current_loop > 0, old(self).current_func),
            step_agrees(r, final(self)@, ck_program(old(self)@, *cu, CHECK_FUEL as nat)),
    {
        reveal(ck_program);
        let r = self.global_block_check(&cu.block);
        if r.is_err() {
            return r;
        }
        self.score_check(&cu.score)
    }
}

/// Analyze a program with a fresh analyzer. On success every `break` and
/// `continue` has an enclosing loop and every `return` fits its function.
pub fn analyze(cu: &CompUnit) -> (r: Result<(), Error>)
    ensures
        r == ck_program(initial_analyzer(), *cu, CHECK_FUEL as nat).1,
        r is Ok ==> stmts_ok(cu.block.stmts@, false, None) && stmts_ok(cu.score.block.stmts@, false, None),
{
    let mut a = Analyzer::new();
    assert(a@ == initial_analyzer());
    a.check(cu)
}

} // verus!
