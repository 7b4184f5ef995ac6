//! Syntax tree of a program, as the parser delivers it.
//!
//! The tree is immutable: name resolution and scoping live in the
//! analyzer's and the interpreter's own tables, not in the nodes.
use vstd::prelude::*;

verus! {

pub type IntConst = i32;

pub type Expr = LOrExpr;

/// The declared type of a constant, variable or parameter.
#[derive(Clone, Copy, Debug, PartialEq, Eq, Structural)]
pub enum BType {
    Int,
    Bool,
    Note,
    Measure,
    Phrase,
    Track,
}

/// The return type of a function.
#[derive(Clone, Copy, Debug, PartialEq, Eq, Structural)]
pub enum FuncType {
    BType(BType),
    Void,
}

#[derive(Clone, Copy, Debug, PartialEq, Eq, Structural)]
pub enum UnaryOp {
    Plus,
    Minus,
    Not,
}

#[derive(Clone, Copy, Debug, PartialEq, Eq, Structural)]
pub enum MulOp {
    Mul,
    Div,
    Mod,
}

#[derive(Clone, Copy, Debug, PartialEq, Eq, Structural)]
pub enum AddOp {
    Add,
    Sub,
}

#[derive(Clone, Copy, Debug, PartialEq, Eq, Structural)]
pub enum RelOp {
    Gt,
    Lt,
    Ge,
    Le,
}

#[derive(Clone, Copy, Debug, PartialEq, Eq, Structural)]
pub enum EqOp {
    Eq,
    Ne,
}

/// An occurrence of an identifier.
#[derive(Debug)]
pub struct LVal {
    pub ident: String,
}

/// A call site: callee name and argument list.
#[derive(Debug)]
pub struct FuncCall {
    pub ident: String,
    pub func_rparams: Vec<AsgnRVal>,
}

#[derive(Debug)]
pub enum PrimaryExpr {
    Expr(Expr),
    FuncCall(FuncCall),
    LVal(LVal),
    Number(IntConst),
}

/// `unary_ops[0]` is the outermost (leftmost) operator.
#[derive(Debug)]
pub struct UnaryExpr {
    pub unary_ops: Vec<UnaryOp>,
    pub primary_exp: PrimaryExpr,
}

/// `unary_exps[0] mul_ops[0] unary_exps[1] mul_ops[1] ...`, left-associative.
#[derive(Debug)]
pub struct MulExpr {
    pub mul_ops: Vec<MulOp>,
    pub unary_exps: Vec<UnaryExpr>,
}

#[derive(Debug)]
pub struct AddExpr {
    pub add_ops: Vec<AddOp>,
    pub mul_exps: Vec<MulExpr>,
}

#[derive(Debug)]
pub struct RelExpr {
    pub rel_ops: Vec<RelOp>,
    pub add_exps: Vec<AddExpr>,
}

#[derive(Debug)]
pub struct EqExpr {
    pub eq_ops: Vec<EqOp>,
    pub rel_exps: Vec<RelExpr>,
}

/// Operands joined by `&&`.
#[derive(Debug)]
pub struct LAndExpr {
    pub eq_exps: Vec<EqExpr>,
}

/// Operands joined by `||`.
#[derive(Debug)]
pub struct LOrExpr {
    pub land_exps: Vec<LAndExpr>,
}

/// A note or chord: pitch expressions and an optional length multiplier.
#[derive(Debug)]
pub struct Note {
    pub notes: Vec<Expr>,
    pub len: Option<Expr>,
}

#[derive(Debug)]
pub enum MeasureUnit {
    /// `<`: following units last half as long.
    TimeDilation,
    /// `>`: following units last twice as long.
    TimeCompression,
    /// `.`: a silent unit.
    Rest,
    Note(Note),
}

#[derive(Debug)]
pub struct Measure {
    pub content: Vec<MeasureUnit>,
}

/// Something that produces a measure.
#[derive(Debug)]
pub enum MeasureRVal {
    Measure(Measure),
    LVal(LVal),
    FuncCall(FuncCall),
}

#[derive(Debug)]
pub struct Phrase {
    pub content: Vec<MeasureRVal>,
}

/// Something that produces a phrase.
#[derive(Debug)]
pub enum PhraseRVal {
    Phrase(Phrase),
    LVal(LVal),
    FuncCall(FuncCall),
}

#[derive(Debug)]
pub struct Track {
    pub content: Vec<PhraseRVal>,
}

/// Something that produces a track.
#[derive(Debug)]
pub enum TrackRVal {
    Track(Track),
    LVal(LVal),
    FuncCall(FuncCall),
}

/// The right-hand side of an assignment, an initializer or an argument.
#[derive(Debug)]
pub enum AsgnRVal {
    Expr(Expr),
    Note(Note),
    Measure(Measure),
    Phrase(Phrase),
    Track(Track),
}

#[derive(Debug)]
pub struct ConstDef {
    pub ident: String,
    pub rval: AsgnRVal,
}

#[derive(Debug)]
pub struct ConstDecl {
    pub btype: BType,
    pub const_defs: Vec<ConstDef>,
}

#[derive(Debug)]
pub struct VarDef {
    pub ident: String,
    pub rval_: Option<AsgnRVal>,
}

#[derive(Debug)]
pub struct VarDecl {
    pub btype: BType,
    pub var_defs: Vec<VarDef>,
}

#[derive(Debug)]
pub struct Asgn {
    pub lval: LVal,
    pub rval: AsgnRVal,
}

#[derive(Debug)]
pub struct IfElse {
    pub cond: Expr,
    pub if_: Box<Stmt>,
    pub else_: Option<Box<Stmt>>,
}

#[derive(Debug)]
pub struct While {
    pub cond: Expr,
    pub body: Box<Stmt>,
}

#[derive(Debug)]
pub struct FuncFParam {
    pub ident: String,
    pub btype: BType,
}

#[derive(Debug)]
pub struct FuncDef {
    pub func_type: FuncType,
    pub ident: String,
    pub func_fparams: Vec<FuncFParam>,
    pub block: Block,
}

#[derive(Debug)]
pub enum Stmt {
    FuncDef(FuncDef),
    Expr(Option<Expr>),
    ConstDecl(ConstDecl),
    VarDecl(VarDecl),
    Asgn(Asgn),
    Block(Block),
    IfElse(IfElse),
    While(While),
    Break,
    Continue,
    Return(Option<Expr>),
}

/// A lexical region owning a sequence of statements.
#[derive(Debug)]
pub struct Block {
    pub stmts: Vec<Stmt>,
}

#[derive(Debug)]
pub struct SetChannelTrack {
    pub channel: Expr,
    pub track: TrackRVal,
}

#[derive(Debug)]
pub struct SetChannelInstrument {
    pub channel: Expr,
    pub instrument: Expr,
}

#[derive(Debug)]
pub struct SetTimeSignature {
    pub top_num: Expr,
    pub bottom_num: Expr,
}

#[derive(Debug)]
pub enum ScoreStmt {
    SetChannelTrack(SetChannelTrack),
    SetChannelInstrument(SetChannelInstrument),
    SetTimeSignature(SetTimeSignature),
    SetTempo(Expr),
}

/// The composition: its own block, then the channel statements in order.
#[derive(Debug)]
pub struct Score {
    pub block: Block,
    pub channel_stmts: Vec<ScoreStmt>,
}

/// A whole program: the global block, then the score.
#[derive(Debug)]
pub struct CompUnit {
    pub block: Block,
    pub score: Score,
}

impl Block {
    pub fn new(stmts: Vec<Stmt>) -> (r: Block)
        ensures
            r.stmts == stmts,
    {
        Block { stmts }
    }
}

impl LVal {
    pub fn new(ident: String) -> (r: LVal)
        ensures
            r.ident == ident,
    {
        LVal { ident }
    }
}

impl FuncCall {
    pub fn new(ident: String, func_rparams: Vec<AsgnRVal>) -> (r: FuncCall)
        ensures
            r.ident == ident,
            r.func_rparams == func_rparams,
    {
        FuncCall { ident, func_rparams }
    }
}

impl FuncFParam {
    pub fn new(btype: BType, ident: String) -> (r: FuncFParam)
        ensures
            r.ident == ident,
            r.btype == btype,
    {
        FuncFParam { ident, btype }
    }
}

impl ConstDecl {
    pub fn new(btype: BType, const_defs: Vec<ConstDef>) -> (r: ConstDecl)
        ensures
            r.btype == btype,
            r.const_defs == const_defs,
    {
        ConstDecl { btype, const_defs }
    }
}

impl VarDecl {
    pub fn new(btype: BType, var_defs: Vec<VarDef>) -> (r: VarDecl)
        ensures
            r.btype == btype,
            r.var_defs == var_defs,
    {
        VarDecl { btype, var_defs }
    }
}

} // verus!
