//! The tree-walking interpreter. Every evaluation function is proved to
//! compute the matching function of the semantics in `sem`.
use crate::ast::{
    AddExpr, AddOp, AsgnRVal, BType, Block, ConstDecl, EqExpr, EqOp, FuncCall, FuncDef,
    FuncType, IfElse, LAndExpr, LOrExpr, Measure, MeasureRVal, MeasureUnit, MulExpr, MulOp, Note,
    Phrase, PhraseRVal, PrimaryExpr, RelExpr, RelOp, Stmt, Track, UnaryExpr, UnaryOp, VarDecl,
    While, Asgn,
};
use crate::error::{Error, InternalError, RuntimeError};
use crate::sem::{
    add_op, apply_unary, bind_params_from, lemma_find_from, cut, eq_op, find_from, limit,
    load, lookup, malformed, mul_op, push, rel_op, sem_add, sem_add_from, sem_args_from,
    sem_asgn, sem_asgn_rval, sem_block, sem_call, sem_const_from, sem_eq, sem_eq_from, sem_expr,
    sem_ifelse, sem_init, sem_land, sem_land_from, sem_lor_from, sem_measure, sem_measure_from,
    sem_mul, sem_mul_from, sem_note, sem_note_from, sem_phrase, sem_phrase_from, sem_rel,
    sem_rel_from, sem_return, sem_stmt, sem_stmts_from, sem_track, sem_track_from,
    sem_unary, sem_var_from, sem_while, store, type_error, unary_op, CtrModel,
    EntryModel, EnvModel, KindModel,
};
use crate::value::{
    fits, value_fits, value_kind, zero_of, zero_value, MeasureUnitValue, MeasureValue, NoteValue, PhraseValue, RetVal,
    TrackValue, Value, };
use vstd::prelude::*;

verus! {

/// A storage cell: declared type and current value.
#[derive(Debug)]
pub struct RVal {
    pub btype: BType,
    pub value: Value,
}

#[derive(Debug)]
pub enum EntryKind<'a> {
    Val { const_: bool, rval: RVal },
    Func(&'a FuncDef),
}

impl RVal {
    /// A fresh cell of type `btype`, holding that type's zero value.
    pub fn new_with_btype(btype: BType) -> (r: RVal)
        ensures
            r.btype == btype,
            r.value@ == zero_value(btype),
    {
        RVal { btype, value: zero_of(btype) }
    }

    /// The type of the current value by its kind: never `Bool`, which is
    /// held as an integer.
    pub fn get_btype(&self) -> (r: BType)
        ensures
            r == value_kind(self.value@),
    {
        match &self.value {
            Value::Int(_) => BType::Int,
            Value::Note(_) => BType::Note,
            Value::Measure(_) => BType::Measure,
            Value::Phrase(_) => BType::Phrase,
            Value::Track(_) => BType::Track,
        }
    }

    /// A copy of the current value.
    pub fn get_value(&self) -> (r: Value)
        ensures
            r@ == self.value@,
    {
        self.value.copy()
    }

    /// Store `v` if the cell's type admits it; otherwise leave the cell.
    pub fn set_value(&mut self, v: Value) -> (r: Result<(), Error>)
        ensures
            final(self).btype == old(self).btype,
            fits(old(self).btype, v@) ==> r is Ok && final(self).value@ == v@,
            !fits(old(self).btype, v@) ==> r == Err::<(), Error>(
                Error::RuntimeError(RuntimeError::TypeError),
            ) && final(self).value@ == old(self).value@,
    {
        if value_fits(self.btype, &v) {
            self.value = v;
            Ok(())
        } else {
            Err(Error::RuntimeError(RuntimeError::TypeError))
        }
    }
}

/// A name bound in the environment.
#[derive(Debug)]
pub struct Entry<'a> {
    pub ident: String,
    pub kind: EntryKind<'a>,
}

/// Control signal of a statement.
#[derive(Debug, PartialEq, Eq)]
pub enum Ctr {
    Return(RetVal),
    Continue,
    Break,
    Normal,
}

/// The interpreter's environment: one stack of entries, see `sem`.
#[derive(Debug)]
pub struct Interpreter<'a> {
    pub entries: Vec<Entry<'a>>,
    pub base: usize,
    pub globals_end: usize,
}

impl<'a> View for Entry<'a> {
    type V = EntryModel;

    open spec fn view(&self) -> EntryModel {
        EntryModel {
            ident: self.ident@,
            kind: match self.kind {
                EntryKind::Val { const_, rval } => KindModel::Val(const_, rval.btype, rval.value@),
                EntryKind::Func(f) => KindModel::Func(*f),
            },
        }
    }
}

impl<'a> View for Interpreter<'a> {
    type V = EnvModel;

    open spec fn view(&self) -> EnvModel {
        EnvModel {
            entries: self.entries@.map_values(|e: Entry<'a>| e@),
            base: self.base,
            globals_end: self.globals_end,
        }
    }
}

impl View for Ctr {
    type V = CtrModel;

    open spec fn view(&self) -> CtrModel {
        match self {
            Ctr::Return(v) => CtrModel::Return(v@),
            Ctr::Continue => CtrModel::Continue,
            Ctr::Break => CtrModel::Break,
            Ctr::Normal => CtrModel::Normal,
        }
    }
}

/// The result `r` and environment `s` are what `want` prescribes, after an
/// error as well as after success.
pub open spec fn agrees<T: View>(
    r: Result<T, Error>,
    s: EnvModel,
    want: (EnvModel, Result<T::V, Error>),
) -> bool {
    &&& match want.1 {
        Ok(v) => r is Ok && r->Ok_0@ == v,
        Err(x) => r == Err::<T, Error>(x),
    }
    &&& s == want.0
}

fn limit_error() -> (r: Error)
    ensures
        r == limit(),
{
    Error::RuntimeError(RuntimeError::EvaluationLimit)
}

fn type_err() -> (r: Error)
    ensures
        r == type_error(),
{
    Error::RuntimeError(RuntimeError::TypeError)
}

fn malformed_error() -> (r: Error)
    ensures
        r == malformed(),
{
    Error::InternalError(InternalError::MalformedExpr)
}

pub fn calc_unary_op(op: UnaryOp, x: i32) -> (r: i32)
    ensures
        r == unary_op(op, x),
{
    match op {
        UnaryOp::Plus => x,
        UnaryOp::Minus => 0i32.wrapping_sub(x),
        UnaryOp::Not => if x == 0 {
            1
        } else {
            0
        },
    }
}

pub fn calc_mul_op(op: MulOp, a: i32, b: i32) -> (r: Result<i32, Error>)
    ensures
        r == mul_op(op, a, b),
{
    match op {
        MulOp::Mul => Ok(a.wrapping_mul(b)),
        MulOp::Div => if b == 0 {
            Err(Error::RuntimeError(RuntimeError::ArithmeticError))
        } else {
            Ok(
                match a.checked_div(b) {
                    Some(q) => q,
                    None => i32::MIN,
                },
            )
        },
        MulOp::Mod => if b == 0 {
            Err(Error::RuntimeError(RuntimeError::ArithmeticError))
        } else {
            Ok(
                match a.checked_rem(b) {
                    Some(q) => q,
                    None => 0,
                },
            )
        },
    }
}

pub fn calc_add_op(op: AddOp, a: i32, b: i32) -> (r: i32)
    ensures
        r == add_op(op, a, b),
{
    match op {
        AddOp::Add => a.wrapping_add(b),
        AddOp::Sub => a.wrapping_sub(b),
    }
}

pub fn calc_rel_op(op: RelOp, a: i32, b: i32) -> (r: i32)
    ensures
        r == rel_op(op, a, b),
{
    let t = match op {
        RelOp::Gt => a > b,
        RelOp::Lt => a < b,
        RelOp::Ge => a >= b,
        RelOp::Le => a <= b,
    };
    if t {
        1
    } else {
        0
    }
}

pub fn calc_eq_op(op: EqOp, a: i32, b: i32) -> (r: i32)
    ensures
        r == eq_op(op, a, b),
{
    let t = match op {
        EqOp::Eq => a == b,
        EqOp::Ne => a != b,
    };
    if t {
        1
    } else {
        0
    }
}

impl<'a> Interpreter<'a> {
    /// An empty environment.
    pub fn new() -> (r: Interpreter<'a>)
        ensures
            r@.entries == Seq::<EntryModel>::empty(),
            r@.base == 0,
            r@.globals_end == 0,
    {
        let r = Interpreter { entries: Vec::new(), base: 0, globals_end: 0 };
        assert(r@.entries =~= Seq::<EntryModel>::empty());
        r
    }

    fn find(&self, lo: usize, hi: usize, name: &String) -> (r: Option<usize>)
        requires
            hi <= self.entries.len(),
        ensures
            match find_from(self@.entries, lo as int, hi as int, name@) {
                Some(k) => r == Some(k as usize) && lo <= k < hi,
                None => r is None,
            },
            r matches Some(k) ==> lo <= k < hi,
    {
        proof {
            lemma_find_from(self@.entries, lo as int, hi as int, name@);
        }
        let mut h = hi;
        while h > lo
            invariant
                h <= hi,
                hi <= self.entries.len(),
                find_from(self@.entries, lo as int, h as int, name@) == find_from(
                    self@.entries,
                    lo as int,
                    hi as int,
                    name@,
                ),
            decreases h,
        {
            if self.entries[h - 1].ident == *name {
                return Some(h - 1);
            }
            h = h - 1;
        }
        None
    }

    /// The entry a name denotes, see `sem::lookup`.
    pub fn lookup(&self, name: &String) -> (r: Option<usize>)
        ensures
            match lookup(self@, name@) {
                Some(k) => r == Some(k as usize) && 0 <= k < self.entries.len(),
                None => r is None,
            },
            r matches Some(k) ==> k < self.entries.len(),
    {
        let len = self.entries.len();
        match self.find(self.base, len, name) {
            Some(k) => Some(k),
            None => {
                let g = if self.globals_end <= len {
                    self.globals_end
                } else {
                    len
                };
                self.find(0, g, name)
            },
        }
    }

    /// The current value of a name.
    pub fn get_value(&self, name: &String) -> (r: Result<Value, Error>)
        ensures
            match load(self@, name@) {
                Ok(v) => r is Ok && r->Ok_0@ == v,
                Err(x) => r == Err::<Value, Error>(x),
            },
    {
        match self.lookup(name) {
            Some(k) => {
                assert(self@.entries[k as int] == self.entries@[k as int]@);
                match &self.entries[k].kind {
                    EntryKind::Val { rval, .. } => Ok(rval.get_value()),
                    EntryKind::Func(_) => Err(Error::InternalError(InternalError::Unbound)),
                }
            },
            None => Err(Error::InternalError(InternalError::Unbound)),
        }
    }

    /// Write `v` into the cell of entry `k`, if its type admits it.
    pub fn set_value(&mut self, k: usize, v: Value) -> (r: Result<(), Error>)
        ensures
            match store(old(self)@, k as int, v@) {
                Ok(env) => r is Ok && final(self)@ == env,
                Err(x) => r == Err::<(), Error>(x) && final(self)@ == old(self)@,
            },
    {
        if k >= self.entries.len() {
            return Err(Error::InternalError(InternalError::Unbound));
        }
        assert(self@.entries[k as int] == self.entries@[k as int]@);
        let (c, mut cell) = match &self.entries[k].kind {
            EntryKind::Val { const_, rval } => (*const_, RVal::new_with_btype(rval.btype)),
            EntryKind::Func(_) => return Err(Error::InternalError(InternalError::Unbound)),
        };
        let t = cell.btype;
        let ghost vm = v@;
        match cell.set_value(v) {
            Ok(()) => {},
            Err(x) => return Err(x),
        }
        let ident = self.entries[k].ident.clone();
        self.entries.set(k, Entry { ident, kind: EntryKind::Val { const_: c, rval: cell } });
        proof {
            assert(self@.entries =~= old(self)@.entries.update(
                k as int,
                EntryModel { ident: old(self)@.entries[k as int].ident, kind: KindModel::Val(c, t, vm) },
            ));
        }
        Ok(())
    }

    fn push_entry(&mut self, e: Entry<'a>)
        ensures
            final(self)@ == push(old(self)@, e@),
    {
        self.entries.push(e);
        proof {
            assert(self@.entries =~= old(self)@.entries.push(e@));
        }
    }

    fn cut_to(&mut self, n: usize)
        ensures
            final(self)@ == cut(old(self)@, n as int),
    {
        self.entries.truncate(n);
        proof {
            if n < old(self)@.entries.len() {
                assert(self@.entries =~= old(self)@.entries.subrange(0, n as int));
            } else {
                assert(self@.entries =~= old(self)@.entries);
            }
        }
    }
}

impl<'a> Interpreter<'a> {
    /// `||` over the operands, short-circuit; see `sem::sem_expr`.
    pub fn calc_expr(&mut self, e: &'a LOrExpr, fuel: u64) -> (r: Result<RetVal, Error>)
        ensures
            agrees(r, final(self)@, sem_expr(old(self)@, *e, fuel as nat)),
        decreases fuel, 0int,
    {
        if fuel == 0 {
            return Err(limit_error());
        }
        let n = e.land_exps.len();
        if n == 0 {
            return Err(malformed_error());
        }
        let f = fuel - 1;
        if n == 1 {
            return self.calc_land_expr(&e.land_exps[0], f);
        }
        let mut i: usize = 0;
        while i < n
            invariant
                i <= n,
                n == e.land_exps.len(),
                n > 1,
                f == fuel - 1,
                fuel > 0,
                sem_lor_from(self@, *e, i as int, f as nat) == sem_expr(old(self)@, *e, fuel as nat),
            decreases n - i,
        {
            let r = self.calc_land_expr(&e.land_exps[i], f);
            match r {
                Ok(RetVal::Value(Value::Int(a))) => {
                    if a != 0 {
                        return Ok(RetVal::Value(Value::Int(1)));
                    }
                },
                Ok(_) => return Err(type_err()),
                Err(x) => return Err(x),
            }
            i = i + 1;
        }
        Ok(RetVal::Value(Value::Int(0)))
    }

    /// `&&` over the operands, short-circuit; see `sem::sem_land`.
    pub fn calc_land_expr(&mut self, e: &'a LAndExpr, fuel: u64) -> (r: Result<RetVal, Error>)
        ensures
            agrees(r, final(self)@, sem_land(old(self)@, *e, fuel as nat)),
        decreases fuel, 0int,
    {
        if fuel == 0 {
            return Err(limit_error());
        }
        let n = e.eq_exps.len();
        if n == 0 {
            return Err(malformed_error());
        }
        let f = fuel - 1;
        if n == 1 {
            return self.calc_eq_expr(&e.eq_exps[0], f);
        }
        let mut i: usize = 0;
        while i < n
            invariant
                i <= n,
                n == e.eq_exps.len(),
                n > 1,
                f == fuel - 1,
                fuel > 0,
                sem_land_from(self@, *e, i as int, f as nat) == sem_land(old(self)@, *e, fuel as nat),
            decreases n - i,
        {
            let r = self.calc_eq_expr(&e.eq_exps[i], f);
            match r {
                Ok(RetVal::Value(Value::Int(a))) => {
                    if a == 0 {
                        return Ok(RetVal::Value(Value::Int(0)));
                    }
                },
                Ok(_) => return Err(type_err()),
                Err(x) => return Err(x),
            }
            i = i + 1;
        }
        Ok(RetVal::Value(Value::Int(1)))
    }

    /// `==` and `!=`, left to right; see `sem::sem_eq`.
    pub fn calc_eq_expr(&mut self, e: &'a EqExpr, fuel: u64) -> (r: Result<RetVal, Error>)
        ensures
            agrees(r, final(self)@, sem_eq(old(self)@, *e, fuel as nat)),
        decreases fuel, 0int,
    {
        if fuel == 0 {
            return Err(limit_error());
        }
        let n = e.rel_exps.len();
        if n == 0 || e.eq_ops.len() != n - 1 {
            return Err(malformed_error());
        }
        let f = fuel - 1;
        let first = match self.calc_rel_expr(&e.rel_exps[0], f) {
            Ok(v) => v,
            Err(x) => return Err(x),
        };
        if n == 1 {
            return Ok(first);
        }
        let mut acc = match first {
            RetVal::Value(Value::Int(a)) => a,
            _ => return Err(type_err()),
        };
        let mut i: usize = 1;
        while i < n
            invariant
                1 <= i <= n,
                n == e.rel_exps.len(),
                e.eq_ops.len() + 1 == n,
                f == fuel - 1,
                fuel > 0,
                sem_eq_from(self@, *e, i as int, acc, f as nat) == sem_eq(old(self)@, *e, fuel as nat),
            decreases n - i,
        {
            let b = match self.calc_rel_expr(&e.rel_exps[i], f) {
                Ok(RetVal::Value(Value::Int(b))) => b,
                Ok(_) => return Err(type_err()),
                Err(x) => return Err(x),
            };
            acc = calc_eq_op(e.eq_ops[i - 1], acc, b);
            i = i + 1;
        }
        Ok(RetVal::Value(Value::Int(acc)))
    }

    /// `<`, `<=`, `>`, `>=`, left to right; see `sem::sem_rel`.
    pub fn calc_rel_expr(&mut self, e: &'a RelExpr, fuel: u64) -> (r: Result<RetVal, Error>)
        ensures
            agrees(r, final(self)@, sem_rel(old(self)@, *e, fuel as nat)),
        decreases fuel, 0int,
    {
        if fuel == 0 {
            return Err(limit_error());
        }
        let n = e.add_exps.len();
        if n == 0 || e.rel_ops.len() != n - 1 {
            return Err(malformed_error());
        }
        let f = fuel - 1;
        let first = match self.calc_add_expr(&e.add_exps[0], f) {
            Ok(v) => v,
            Err(x) => return Err(x),
        };
        if n == 1 {
            return Ok(first);
        }
        let mut acc = match first {
            RetVal::Value(Value::Int(a)) => a,
            _ => return Err(type_err()),
        };
        let mut i: usize = 1;
        while i < n
            invariant
                1 <= i <= n,
                n == e.add_exps.len(),
                e.rel_ops.len() + 1 == n,
                f == fuel - 1,
                fuel > 0,
                sem_rel_from(self@, *e, i as int, acc, f as nat) == sem_rel(old(self)@, *e, fuel as nat),
            decreases n - i,
        {
            let b = match self.calc_add_expr(&e.add_exps[i], f) {
                Ok(RetVal::Value(Value::Int(b))) => b,
                Ok(_) => return Err(type_err()),
                Err(x) => return Err(x),
            };
            acc = calc_rel_op(e.rel_ops[i - 1], acc, b);
            i = i + 1;
        }
        Ok(RetVal::Value(Value::Int(acc)))
    }

    /// `+` and `-`, left to right, wrapping; see `sem::sem_add`.
    pub fn calc_add_expr(&mut self, e: &'a AddExpr, fuel: u64) -> (r: Result<RetVal, Error>)
        ensures
            agrees(r, final(self)@, sem_add(old(self)@, *e, fuel as nat)),
        decreases fuel, 0int,
    {
        if fuel == 0 {
            return Err(limit_error());
        }
        let n = e.mul_exps.len();
        if n == 0 || e.add_ops.len() != n - 1 {
            return Err(malformed_error());
        }
        let f = fuel - 1;
        let first = match self.calc_mul_expr(&e.mul_exps[0], f) {
            Ok(v) => v,
            Err(x) => return Err(x),
        };
        if n == 1 {
            return Ok(first);
        }
        let mut acc = match first {
            RetVal::Value(Value::Int(a)) => a,
            _ => return Err(type_err()),
        };
        let mut i: usize = 1;
        while i < n
            invariant
                1 <= i <= n,
                n == e.mul_exps.len(),
                e.add_ops.len() + 1 == n,
                f == fuel - 1,
                fuel > 0,
                sem_add_from(self@, *e, i as int, acc, f as nat) == sem_add(old(self)@, *e, fuel as nat),
            decreases n - i,
        {
            let b = match self.calc_mul_expr(&e.mul_exps[i], f) {
                Ok(RetVal::Value(Value::Int(b))) => b,
                Ok(_) => return Err(type_err()),
                Err(x) => return Err(x),
            };
            acc = calc_add_op(e.add_ops[i - 1], acc, b);
            i = i + 1;
        }
        Ok(RetVal::Value(Value::Int(acc)))
    }

    /// `*`, `/` and `%`, left to right; see `sem::sem_mul`.
    pub fn calc_mul_expr(&mut self, e: &'a MulExpr, fuel: u64) -> (r: Result<RetVal, Error>)
        ensures
            agrees(r, final(self)@, sem_mul(old(self)@, *e, fuel as nat)),
        decreases fuel, 0int,
    {
        if fuel == 0 {
            return Err(limit_error());
        }
        let n = e.unary_exps.len();
        if n == 0 || e.mul_ops.len() != n - 1 {
            return Err(malformed_error());
        }
        let f = fuel - 1;
        let first = match self.calc_unary_expr(&e.unary_exps[0], f) {
            Ok(v) => v,
            Err(x) => return Err(x),
        };
        if n == 1 {
            return Ok(first);
        }
        let mut acc = match first {
            RetVal::Value(Value::Int(a)) => a,
            _ => return Err(type_err()),
        };
        let mut i: usize = 1;
        while i < n
            invariant
                1 <= i <= n,
                n == e.unary_exps.len(),
                e.mul_ops.len() + 1 == n,
                f == fuel - 1,
                fuel > 0,
                sem_mul_from(self@, *e, i as int, acc, f as nat) == sem_mul(old(self)@, *e, fuel as nat),
            decreases n - i,
        {
            let b = match self.calc_unary_expr(&e.unary_exps[i], f) {
                Ok(RetVal::Value(Value::Int(b))) => b,
                Ok(_) => return Err(type_err()),
                Err(x) => return Err(x),
            };
            acc = match calc_mul_op(e.mul_ops[i - 1], acc, b) {
                Ok(c) => c,
                Err(x) => return Err(x),
            };
            i = i + 1;
        }
        Ok(RetVal::Value(Value::Int(acc)))
    }

    /// A primary operand and its prefix operators; see `sem::sem_unary`.
    pub fn calc_unary_expr(&mut self, u: &'a UnaryExpr, fuel: u64) -> (r: Result<RetVal, Error>)
        ensures
            agrees(r, final(self)@, sem_unary(old(self)@, *u, fuel as nat)),
        decreases fuel, 0int,
    {
        if fuel == 0 {
            return Err(limit_error());
        }
        let f = fuel - 1;
        let r = match &u.primary_exp {
            PrimaryExpr::Expr(e) => self.calc_expr(e, f),
            PrimaryExpr::FuncCall(c) => self.call_func(c, f),
            PrimaryExpr::LVal(l) => match self.get_value(&l.ident) {
                Ok(v) => Ok(RetVal::Value(v)),
                Err(x) => Err(x),
            },
            PrimaryExpr::Number(n) => Ok(RetVal::Value(Value::Int(*n))),
        };
        let v = match r {
            Ok(v) => v,
            Err(x) => return Err(x),
        };
        let ops = &u.unary_ops;
        if ops.len() == 0 {
            return Ok(v);
        }
        let mut x = match v {
            RetVal::Value(Value::Int(x)) => x,
            _ => return Err(type_err()),
        };
        let ghost x0 = x;
        let mut i: usize = ops.len();
        assert(ops@.subrange(0, i as int) =~= ops@);
        while i > 0
            invariant
                i <= ops.len(),
                apply_unary(ops@.subrange(0, i as int), x) == apply_unary(ops@, x0),
            decreases i,
        {
            proof {
                assert(ops@.subrange(0, i as int).drop_last() =~= ops@.subrange(0, i - 1));
            }
            x = calc_unary_op(ops[i - 1], x);
            i = i - 1;
        }
        Ok(RetVal::Value(Value::Int(x)))
    }
}

fn extend_ints(v: &mut Vec<i32>, w: &Vec<i32>)
    ensures
        final(v)@ == old(v)@ + w@,
{
    let mut i: usize = 0;
    while i < w.len()
        invariant
            i <= w.len(),
            v@ == old(v)@ + w@.subrange(0, i as int),
        decreases w.len() - i,
    {
        v.push(w[i]);
        i = i + 1;
        proof {
            assert(w@.subrange(0, i as int) =~= w@.subrange(0, i - 1).push(w@[i - 1]));
        }
    }
    assert(w@.subrange(0, w@.len() as int) =~= w@);
}

impl<'a> Interpreter<'a> {
    /// Call a function; see `sem::sem_call`. Arguments are evaluated left to
    /// right in the caller's frame and written into fresh parameter cells.
    pub fn call_func(&mut self, c: &'a FuncCall, fuel: u64) -> (r: Result<RetVal, Error>)
        ensures
            agrees(r, final(self)@, sem_call(old(self)@, *c, fuel as nat)),
        decreases fuel, 0int,
    {
        if fuel == 0 {
            return Err(limit_error());
        }
        let k = match self.lookup(&c.ident) {
            Some(k) => k,
            None => return Err(Error::InternalError(InternalError::Unbound)),
        };
        assert(self@.entries[k as int] == self.entries@[k as int]@);
        let def: &'a FuncDef = match &self.entries[k].kind {
            EntryKind::Func(d) => *d,
            EntryKind::Val { .. } => return Err(Error::InternalError(InternalError::Unbound)),
        };
        let n = c.func_rparams.len();
        if def.func_fparams.len() != n {
            return Err(Error::InternalError(InternalError::ArityMismatch));
        }
        let f = fuel - 1;
        let ghost env0 = self@;
        let mut vals: Vec<Value> = Vec::new();
        assert(vals@.map_values(|v: Value| v@) =~= Seq::empty());
        let mut i: usize = 0;
        while i < n
            invariant
                i <= n,
                n == c.func_rparams.len(),
                n == def.func_fparams.len(),
                vals@.len() == i,
                f == fuel - 1,
                fuel > 0,
                env0 == old(self)@,
                lookup(env0, c.ident@) == Some(k as int),
                env0.entries[k as int].kind == KindModel::Func(*def),
                sem_args_from(self@, *c, *def, i as int, vals@.map_values(|v: Value| v@), f as nat)
                    == sem_args_from(env0, *c, *def, 0, Seq::empty(), f as nat),
            decreases n - i,
        {
            let v = match self.interpret_asgn_rval(&c.func_rparams[i], f) {
                Ok(RetVal::Value(v)) => v,
                Ok(RetVal::Void) => return Err(type_err()),
                Err(x) => return Err(x),
            };
            if !value_fits(def.func_fparams[i].btype, &v) {
                return Err(type_err());
            }
            let ghost prev = vals@.map_values(|v: Value| v@);
            vals.push(v);
            proof {
                assert(vals@.map_values(|v: Value| v@) =~= prev.push(v@));
            }
            i = i + 1;
        }
        assert(vals@.map_values(|v: Value| v@) =~= vals@.map_values(|v: Value| v@));
        let ghost vm = vals@.map_values(|v: Value| v@);
        let ghost env1 = self@;
        let height = self.entries.len();
        let saved_base = self.base;
        let saved_globals = self.globals_end;
        let mut j: usize = 0;
        while j < n
            invariant
                j <= n,
                n == vals.len(),
                n == def.func_fparams.len(),
                vm == vals@.map_values(|v: Value| v@),
                self.base == saved_base,
                self.globals_end == saved_globals,
                bind_params_from(self@.entries, *def, vm, j as int) == bind_params_from(
                    env1.entries,
                    *def,
                    vm,
                    0,
                ),
            decreases n - j,
        {
            let param = &def.func_fparams[j];
            let v = vals[j].copy();
            let e = Entry {
                ident: param.ident.clone(),
                kind: EntryKind::Val { const_: false, rval: RVal { btype: param.btype, value: v } },
            };
            self.push_entry(e);
            j = j + 1;
        }
        self.base = height;
        let rb = self.interpret_block(&def.block, f);
        self.cut_to(height);
        self.base = saved_base;
        self.globals_end = saved_globals;
        match rb {
            Err(x) => Err(x),
            Ok(Ctr::Return(v)) => Ok(v),
            Ok(Ctr::Normal) => match def.func_type {
                FuncType::Void => Ok(RetVal::Void),
                FuncType::BType(_) => Err(Error::RuntimeError(RuntimeError::MissingReturn)),
            },
            Ok(_) => Err(Error::InternalError(InternalError::StrayJump)),
        }
    }

    /// Reduce a note literal; see `sem::sem_note`.
    pub fn interpret_note(&mut self, n: &'a Note, fuel: u64) -> (r: Result<NoteValue, Error>)
        ensures
            agrees(r, final(self)@, sem_note(old(self)@, *n, fuel as nat)),
        decreases fuel, 0int,
    {
        if fuel == 0 {
            return Err(limit_error());
        }
        let f = fuel - 1;
        let mut notes: Vec<i32> = Vec::new();
        let mut i: usize = 0;
        while i < n.notes.len()
            invariant
                f == fuel - 1,
                fuel > 0,
                i <= n.notes.len(),
                sem_note_from(self@, *n, i as int, notes@, f as nat) == sem_note_from(
                    old(self)@,
                    *n,
                    0,
                    Seq::empty(),
                    f as nat,
                ),
            decreases n.notes.len() - i,
        {
            match self.calc_expr(&n.notes[i], f) {
                Ok(RetVal::Value(Value::Int(p))) => notes.push(p),
                Ok(RetVal::Value(Value::Note(nv))) => extend_ints(&mut notes, &nv.notes),
                Ok(_) => return Err(type_err()),
                Err(x) => return Err(x),
            }
            i = i + 1;
        }
        let len = match &n.len {
            None => None,
            Some(e) => match self.calc_expr(e, f) {
                Ok(RetVal::Value(Value::Int(l))) => Some(l),
                Ok(_) => return Err(type_err()),
                Err(x) => return Err(x),
            },
        };
        Ok(NoteValue { notes, len })
    }

    /// Reduce a measure literal; see `sem::sem_measure`.
    pub fn interpret_measure(&mut self, m: &'a Measure, fuel: u64) -> (r: Result<MeasureValue, Error>)
        ensures
            agrees(r, final(self)@, sem_measure(old(self)@, *m, fuel as nat)),
        decreases fuel, 0int,
    {
        if fuel == 0 {
            return Err(limit_error());
        }
        let f = fuel - 1;
        let mut content: Vec<MeasureUnitValue> = Vec::new();
        assert(content@.map_values(|u: MeasureUnitValue| u@) =~= Seq::empty());
        let mut i: usize = 0;
        while i < m.content.len()
            invariant
                f == fuel - 1,
                fuel > 0,
                i <= m.content.len(),
                sem_measure_from(
                    self@,
                    *m,
                    i as int,
                    content@.map_values(|u: MeasureUnitValue| u@),
                    f as nat,
                ) == sem_measure_from(old(self)@, *m, 0, Seq::empty(), f as nat),
            decreases m.content.len() - i,
        {
            let unit = match &m.content[i] {
                MeasureUnit::Note(n) => match self.interpret_note(n, f) {
                    Ok(nv) => MeasureUnitValue::NoteValue(nv),
                    Err(x) => return Err(x),
                },
                MeasureUnit::Rest => MeasureUnitValue::Rest,
                MeasureUnit::TimeDilation => MeasureUnitValue::TimeDilation,
                MeasureUnit::TimeCompression => MeasureUnitValue::TimeCompression,
            };
            let ghost prev = content@.map_values(|u: MeasureUnitValue| u@);
            content.push(unit);
            proof {
                assert(content@.map_values(|u: MeasureUnitValue| u@) =~= prev.push(unit@));
            }
            i = i + 1;
        }
        Ok(MeasureValue { content })
    }

    /// Reduce a phrase literal; see `sem::sem_phrase`.
    pub fn interpret_phrase(&mut self, p: &'a Phrase, fuel: u64) -> (r: Result<PhraseValue, Error>)
        ensures
            agrees(r, final(self)@, sem_phrase(old(self)@, *p, fuel as nat)),
        decreases fuel, 0int,
    {
        if fuel == 0 {
            return Err(limit_error());
        }
        let f = fuel - 1;
        let mut content: Vec<MeasureValue> = Vec::new();
        assert(content@.map_values(|m: MeasureValue| m@) =~= Seq::empty());
        let mut i: usize = 0;
        while i < p.content.len()
            invariant
                f == fuel - 1,
                fuel > 0,
                i <= p.content.len(),
                sem_phrase_from(
                    self@,
                    *p,
                    i as int,
                    content@.map_values(|m: MeasureValue| m@),
                    f as nat,
                ) == sem_phrase_from(old(self)@, *p, 0, Seq::empty(), f as nat),
            decreases p.content.len() - i,
        {
            let mv = match &p.content[i] {
                MeasureRVal::Measure(m) => match self.interpret_measure(m, f) {
                    Ok(v) => v,
                    Err(x) => return Err(x),
                },
                MeasureRVal::LVal(l) => match self.get_value(&l.ident) {
                    Ok(Value::Measure(v)) => v,
                    Ok(_) => return Err(type_err()),
                    Err(x) => return Err(x),
                },
                MeasureRVal::FuncCall(c) => match self.call_func(c, f) {
                    Ok(RetVal::Value(Value::Measure(v))) => v,
                    Ok(_) => return Err(type_err()),
                    Err(x) => return Err(x),
                },
            };
            let ghost prev = content@.map_values(|m: MeasureValue| m@);
            content.push(mv);
            proof {
                assert(content@.map_values(|m: MeasureValue| m@) =~= prev.push(mv@));
            }
            i = i + 1;
        }
        Ok(PhraseValue { content })
    }

    /// Reduce a track literal; see `sem::sem_track`.
    pub fn interpret_track(&mut self, t: &'a Track, fuel: u64) -> (r: Result<TrackValue, Error>)
        ensures
            agrees(r, final(self)@, sem_track(old(self)@, *t, fuel as nat)),
        decreases fuel, 0int,
    {
        if fuel == 0 {
            return Err(limit_error());
        }
        let f = fuel - 1;
        let mut content: Vec<PhraseValue> = Vec::new();
        assert(content@.map_values(|p: PhraseValue| p@) =~= Seq::empty());
        let mut i: usize = 0;
        while i < t.content.len()
            invariant
                f == fuel - 1,
                fuel > 0,
                i <= t.content.len(),
                sem_track_from(
                    self@,
                    *t,
                    i as int,
                    content@.map_values(|p: PhraseValue| p@),
                    f as nat,
                ) == sem_track_from(old(self)@, *t, 0, Seq::empty(), f as nat),
            decreases t.content.len() - i,
        {
            let pv = match &t.content[i] {
                PhraseRVal::Phrase(p) => match self.interpret_phrase(p, f) {
                    Ok(v) => v,
                    Err(x) => return Err(x),
                },
                PhraseRVal::LVal(l) => match self.get_value(&l.ident) {
                    Ok(Value::Phrase(v)) => v,
                    Ok(_) => return Err(type_err()),
                    Err(x) => return Err(x),
                },
                PhraseRVal::FuncCall(c) => match self.call_func(c, f) {
                    Ok(RetVal::Value(Value::Phrase(v))) => v,
                    Ok(_) => return Err(type_err()),
                    Err(x) => return Err(x),
                },
            };
            let ghost prev = content@.map_values(|p: PhraseValue| p@);
            content.push(pv);
            proof {
                assert(content@.map_values(|p: PhraseValue| p@) =~= prev.push(pv@));
            }
            i = i + 1;
        }
        Ok(TrackValue { content })
    }

    /// Reduce a right-hand side to a value; see `sem::sem_asgn_rval`.
    pub fn interpret_asgn_rval(&mut self, a: &'a AsgnRVal, fuel: u64) -> (r: Result<RetVal, Error>)
        ensures
            agrees(r, final(self)@, sem_asgn_rval(old(self)@, *a, fuel as nat)),
        decreases fuel, 0int,
    {
        if fuel == 0 {
            return Err(limit_error());
        }
        let f = fuel - 1;
        match a {
            AsgnRVal::Expr(e) => self.calc_expr(e, f),
            AsgnRVal::Note(n) => match self.interpret_note(n, f) {
                Ok(v) => Ok(RetVal::Value(Value::Note(v))),
                Err(x) => Err(x),
            },
            AsgnRVal::Measure(m) => match self.interpret_measure(m, f) {
                Ok(v) => Ok(RetVal::Value(Value::Measure(v))),
                Err(x) => Err(x),
            },
            AsgnRVal::Phrase(p) => match self.interpret_phrase(p, f) {
                Ok(v) => Ok(RetVal::Value(Value::Phrase(v))),
                Err(x) => Err(x),
            },
            AsgnRVal::Track(t) => match self.interpret_track(t, f) {
                Ok(v) => Ok(RetVal::Value(Value::Track(v))),
                Err(x) => Err(x),
            },
        }
    }

    /// Evaluate an initializer into the cell of entry `k`; see `sem::sem_init`.
    fn interpret_init(&mut self, k: usize, a: &'a AsgnRVal, fuel: u64) -> (r: Result<Ctr, Error>)
        ensures
            agrees(r, final(self)@, sem_init(old(self)@, k as int, *a, fuel as nat)),
        decreases fuel, 1int,
    {
        let v = match self.interpret_asgn_rval(a, fuel) {
            Ok(RetVal::Value(v)) => v,
            Ok(RetVal::Void) => return Err(type_err()),
            Err(x) => return Err(x),
        };
        match self.set_value(k, v) {
            Ok(()) => Ok(Ctr::Normal),
            Err(x) => Err(x),
        }
    }

    /// Declare constants; see `sem::sem_const_from`.
    pub fn interpret_const_decl(&mut self, d: &'a ConstDecl, fuel: u64) -> (r: Result<Ctr, Error>)
        ensures
            agrees(r, final(self)@, sem_const_from(old(self)@, *d, 0, fuel as nat)),
        decreases fuel, 2int,
    {
        let mut i: usize = 0;
        while i < d.const_defs.len()
            invariant
                i <= d.const_defs.len(),
                sem_const_from(self@, *d, i as int, fuel as nat) == sem_const_from(
                    old(self)@,
                    *d,
                    0,
                    fuel as nat,
                ),
            decreases d.const_defs.len() - i,
        {
            let def = &d.const_defs[i];
            let k = self.entries.len();
            let cell = RVal::new_with_btype(d.btype);
            self.push_entry(
                Entry { ident: def.ident.clone(), kind: EntryKind::Val { const_: true, rval: cell } },
            );
            let r = self.interpret_init(k, &def.rval, fuel);
            if r.is_err() {
                return r;
            }
            i = i + 1;
        }
        Ok(Ctr::Normal)
    }

    /// Declare variables; see `sem::sem_var_from`.
    pub fn interpret_var_decl(&mut self, d: &'a VarDecl, fuel: u64) -> (r: Result<Ctr, Error>)
        ensures
            agrees(r, final(self)@, sem_var_from(old(self)@, *d, 0, fuel as nat)),
        decreases fuel, 2int,
    {
        let mut i: usize = 0;
        while i < d.var_defs.len()
            invariant
                i <= d.var_defs.len(),
                sem_var_from(self@, *d, i as int, fuel as nat) == sem_var_from(
                    old(self)@,
                    *d,
                    0,
                    fuel as nat,
                ),
            decreases d.var_defs.len() - i,
        {
            let def = &d.var_defs[i];
            let k = self.entries.len();
            let cell = RVal::new_with_btype(d.btype);
            self.push_entry(
                Entry { ident: def.ident.clone(), kind: EntryKind::Val { const_: false, rval: cell } },
            );
            match &def.rval_ {
                None => {},
                Some(rv) => {
                    let r = self.interpret_init(k, rv, fuel);
                    if r.is_err() {
                        return r;
                    }
                },
            }
            i = i + 1;
        }
        Ok(Ctr::Normal)
    }

    /// Assign to a variable; see `sem::sem_asgn`.
    pub fn interpret_asgn(&mut self, a: &'a Asgn, fuel: u64) -> (r: Result<Ctr, Error>)
        ensures
            agrees(r, final(self)@, sem_asgn(old(self)@, *a, fuel as nat)),
        decreases fuel, 1int,
    {
        let v = match self.interpret_asgn_rval(&a.rval, fuel) {
            Ok(RetVal::Value(v)) => v,
            Ok(RetVal::Void) => return Err(type_err()),
            Err(x) => return Err(x),
        };
        let k = match self.lookup(&a.lval.ident) {
            Some(k) => k,
            None => return Err(Error::InternalError(InternalError::Unbound)),
        };
        match self.set_value(k, v) {
            Ok(()) => Ok(Ctr::Normal),
            Err(x) => Err(x),
        }
    }

    /// Run one branch of a conditional; see `sem::sem_ifelse`.
    pub fn interpret_ifelse(&mut self, ie: &'a IfElse, fuel: u64) -> (r: Result<Ctr, Error>)
        ensures
            agrees(r, final(self)@, sem_ifelse(old(self)@, *ie, fuel as nat)),
        decreases fuel, 1int,
    {
        let c = match self.calc_expr(&ie.cond, fuel) {
            Ok(RetVal::Value(Value::Int(c))) => c,
            Ok(_) => return Err(type_err()),
            Err(x) => return Err(x),
        };
        if c != 0 {
            self.interpret_stmt(&*ie.if_, fuel)
        } else {
            match &ie.else_ {
                Some(s2) => self.interpret_stmt(&**s2, fuel),
                None => Ok(Ctr::Normal),
            }
        }
    }

    /// Run a loop; see `sem::sem_while`.
    pub fn interpret_while(&mut self, w: &'a While, fuel: u64) -> (r: Result<Ctr, Error>)
        ensures
            agrees(r, final(self)@, sem_while(old(self)@, *w, fuel as nat)),
        decreases fuel, 0int,
    {
        let mut f = fuel;
        loop
            invariant
                f <= fuel,
                sem_while(self@, *w, f as nat) == sem_while(old(self)@, *w, fuel as nat),
            decreases f,
        {
            if f == 0 {
                return Err(limit_error());
            }
            let g = f - 1;
            let c = match self.calc_expr(&w.cond, g) {
                Ok(RetVal::Value(Value::Int(c))) => c,
                Ok(_) => return Err(type_err()),
                Err(x) => return Err(x),
            };
            if c == 0 {
                return Ok(Ctr::Normal);
            }
            match self.interpret_stmt(&*w.body, g) {
                Err(x) => return Err(x),
                Ok(Ctr::Break) => return Ok(Ctr::Normal),
                Ok(Ctr::Return(v)) => return Ok(Ctr::Return(v)),
                Ok(_) => {},
            }
            f = g;
        }
    }

    /// `return`, with or without a value; see `sem::sem_return`.
    pub fn interpret_return(&mut self, o: &'a Option<LOrExpr>, fuel: u64) -> (r: Result<Ctr, Error>)
        ensures
            agrees(r, final(self)@, sem_return(old(self)@, *o, fuel as nat)),
        decreases fuel, 1int,
    {
        match o {
            None => Ok(Ctr::Return(RetVal::Void)),
            Some(e) => match self.calc_expr(e, fuel) {
                Ok(v) => Ok(Ctr::Return(v)),
                Err(x) => Err(x),
            },
        }
    }

    /// Run one statement; see `sem::sem_stmt`.
    pub fn interpret_stmt(&mut self, s: &'a Stmt, fuel: u64) -> (r: Result<Ctr, Error>)
        ensures
            agrees(r, final(self)@, sem_stmt(old(self)@, *s, fuel as nat)),
        decreases fuel, 0int,
    {
        if fuel == 0 {
            return Err(limit_error());
        }
        let f = fuel - 1;
        match s {
            Stmt::FuncDef(d) => {
                self.push_entry(Entry { ident: d.ident.clone(), kind: EntryKind::Func(d) });
                Ok(Ctr::Normal)
            },
            Stmt::Expr(None) => Ok(Ctr::Normal),
            Stmt::Expr(Some(e)) => match self.calc_expr(e, f) {
                Ok(_) => Ok(Ctr::Normal),
                Err(x) => Err(x),
            },
            Stmt::ConstDecl(d) => self.interpret_const_decl(d, f),
            Stmt::VarDecl(d) => self.interpret_var_decl(d, f),
            Stmt::Asgn(a) => self.interpret_asgn(a, f),
            Stmt::Block(b) => self.interpret_block(b, f),
            Stmt::IfElse(ie) => self.interpret_ifelse(ie, f),
            Stmt::While(w) => self.interpret_while(w, f),
            Stmt::Break => Ok(Ctr::Break),
            Stmt::Continue => Ok(Ctr::Continue),
            Stmt::Return(o) => self.interpret_return(o, f),
        }
    }

    /// Run statements in order until one signals other than `Normal`; see
    /// `sem::sem_stmts_from`.
    pub fn interpret_stmts(&mut self, ss: &'a Vec<Stmt>, fuel: u64) -> (r: Result<Ctr, Error>)
        ensures
            agrees(r, final(self)@, sem_stmts_from(old(self)@, ss@, 0, fuel as nat)),
        decreases fuel, 1int,
    {
        let mut i: usize = 0;
        while i < ss.len()
            invariant
                i <= ss.len(),
                sem_stmts_from(self@, ss@, i as int, fuel as nat) == sem_stmts_from(
                    old(self)@,
                    ss@,
                    0,
                    fuel as nat,
                ),
            decreases ss.len() - i,
        {
            let r = self.interpret_stmt(&ss[i], fuel);
            match r {
                Ok(Ctr::Normal) => {},
                _ => return r,
            }
            i = i + 1;
        }
        Ok(Ctr::Normal)
    }

    /// Run a block in a scope of its own; see `sem::sem_block`.
    pub fn interpret_block(&mut self, b: &'a Block, fuel: u64) -> (r: Result<Ctr, Error>)
        ensures
            agrees(r, final(self)@, sem_block(old(self)@, *b, fuel as nat)),
        decreases fuel, 0int,
    {
        if fuel == 0 {
            return Err(limit_error());
        }
        let height = self.entries.len();
        let r = self.interpret_stmts(&b.stmts, fuel - 1);
        self.cut_to(height);
        r
    }
}

} // verus!
