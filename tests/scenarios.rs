use yam::ast::{
    AddExpr, AddOp, AsgnRVal, BType, Block, CompUnit, ConstDecl, ConstDef, EqExpr, FuncCall,
    FuncDef, FuncFParam, FuncType, IfElse, LAndExpr, LOrExpr, LVal, Measure, MeasureRVal,
    MeasureUnit, MulExpr, MulOp, Note, Phrase, PhraseRVal, PrimaryExpr, RelExpr, RelOp, Score,
    ScoreStmt, SetChannelInstrument, SetChannelTrack, SetTimeSignature, Stmt, Track, TrackRVal,
    UnaryExpr, UnaryOp, VarDecl, VarDef, While, Asgn,
};
use yam::error::{Error, RuntimeError, SemanticError};
use yam::interpret::{Ctr, Interpreter};
use yam::plan::{MetaEvent, ScorePlan};
use yam::schedule::NoteEvent;
use yam::semantic::analyzer::analyze;
use yam::value::{RetVal, Value};

fn unary(ops: Vec<UnaryOp>, p: PrimaryExpr) -> LOrExpr {
    LOrExpr {
        land_exps: vec![LAndExpr {
            eq_exps: vec![EqExpr {
                eq_ops: vec![],
                rel_exps: vec![RelExpr {
                    rel_ops: vec![],
                    add_exps: vec![AddExpr {
                        add_ops: vec![],
                        mul_exps: vec![MulExpr {
                            mul_ops: vec![],
                            unary_exps: vec![UnaryExpr { unary_ops: ops, primary_exp: p }],
                        }],
                    }],
                }],
            }],
        }],
    }
}

fn num(n: i32) -> LOrExpr {
    unary(vec![], PrimaryExpr::Number(n))
}

fn var(name: &str) -> LOrExpr {
    unary(vec![], PrimaryExpr::LVal(LVal::new(name.to_string())))
}

fn call(name: &str, args: Vec<AsgnRVal>) -> LOrExpr {
    unary(vec![], PrimaryExpr::FuncCall(FuncCall::new(name.to_string(), args)))
}

fn paren(e: LOrExpr) -> UnaryExpr {
    UnaryExpr { unary_ops: vec![], primary_exp: PrimaryExpr::Expr(e) }
}

fn mul(a: LOrExpr, op: MulOp, b: LOrExpr) -> LOrExpr {
    wrap_mul(MulExpr { mul_ops: vec![op], unary_exps: vec![paren(a), paren(b)] })
}

fn wrap_mul(m: MulExpr) -> LOrExpr {
    wrap_add(AddExpr { add_ops: vec![], mul_exps: vec![m] })
}

fn add(a: LOrExpr, op: AddOp, b: LOrExpr) -> LOrExpr {
    let ma = MulExpr { mul_ops: vec![], unary_exps: vec![paren(a)] };
    let mb = MulExpr { mul_ops: vec![], unary_exps: vec![paren(b)] };
    wrap_add(AddExpr { add_ops: vec![op], mul_exps: vec![ma, mb] })
}

fn wrap_add(a: AddExpr) -> LOrExpr {
    wrap_rel(RelExpr { rel_ops: vec![], add_exps: vec![a] })
}

fn wrap_rel(r: RelExpr) -> LOrExpr {
    LOrExpr {
        land_exps: vec![LAndExpr { eq_exps: vec![EqExpr { eq_ops: vec![], rel_exps: vec![r] }] }],
    }
}

fn rel(a: LOrExpr, op: RelOp, b: LOrExpr) -> LOrExpr {
    let aa = AddExpr { add_ops: vec![], mul_exps: vec![MulExpr { mul_ops: vec![], unary_exps: vec![paren(a)] }] };
    let bb = AddExpr { add_ops: vec![], mul_exps: vec![MulExpr { mul_ops: vec![], unary_exps: vec![paren(b)] }] };
    wrap_rel(RelExpr { rel_ops: vec![op], add_exps: vec![aa, bb] })
}

fn eq_of(e: LOrExpr) -> EqExpr {
    EqExpr {
        eq_ops: vec![],
        rel_exps: vec![RelExpr {
            rel_ops: vec![],
            add_exps: vec![AddExpr {
                add_ops: vec![],
                mul_exps: vec![MulExpr { mul_ops: vec![], unary_exps: vec![paren(e)] }],
            }],
        }],
    }
}

fn or(a: LOrExpr, b: LOrExpr) -> LOrExpr {
    LOrExpr {
        land_exps: vec![LAndExpr { eq_exps: vec![eq_of(a)] }, LAndExpr { eq_exps: vec![eq_of(b)] }],
    }
}

fn and(a: LOrExpr, b: LOrExpr) -> LOrExpr {
    LOrExpr { land_exps: vec![LAndExpr { eq_exps: vec![eq_of(a), eq_of(b)] }] }
}

fn note(pitches: Vec<i32>, len: Option<i32>) -> MeasureUnit {
    MeasureUnit::Note(Note { notes: pitches.into_iter().map(num).collect(), len: len.map(num) })
}

fn track_of(units: Vec<MeasureUnit>) -> Track {
    Track {
        content: vec![PhraseRVal::Phrase(Phrase {
            content: vec![MeasureRVal::Measure(Measure { content: units })],
        })],
    }
}

fn var_decl(t: BType, name: &str, init: Option<LOrExpr>) -> Stmt {
    Stmt::VarDecl(VarDecl::new(
        t,
        vec![VarDef { ident: name.to_string(), rval_: init.map(AsgnRVal::Expr) }],
    ))
}

fn const_decl(t: BType, name: &str, init: LOrExpr) -> Stmt {
    Stmt::ConstDecl(ConstDecl::new(
        t,
        vec![ConstDef { ident: name.to_string(), rval: AsgnRVal::Expr(init) }],
    ))
}

fn assign(name: &str, e: LOrExpr) -> Stmt {
    Stmt::Asgn(Asgn { lval: LVal::new(name.to_string()), rval: AsgnRVal::Expr(e) })
}

fn func(ret: FuncType, name: &str, params: Vec<(BType, &str)>, body: Vec<Stmt>) -> Stmt {
    Stmt::FuncDef(FuncDef {
        func_type: ret,
        ident: name.to_string(),
        func_fparams: params.into_iter().map(|(t, n)| FuncFParam::new(t, n.to_string())).collect(),
        block: Block::new(body),
    })
}

fn header() -> Vec<ScoreStmt> {
    vec![
        ScoreStmt::SetTempo(num(120)),
        ScoreStmt::SetTimeSignature(SetTimeSignature { top_num: num(4), bottom_num: num(4) }),
        ScoreStmt::SetChannelInstrument(SetChannelInstrument { channel: num(0), instrument: num(0) }),
    ]
}

fn program(globals: Vec<Stmt>, score_block: Vec<Stmt>, stmts: Vec<ScoreStmt>) -> CompUnit {
    CompUnit { block: Block::new(globals), score: Score { block: Block::new(score_block), channel_stmts: stmts } }
}

fn run(cu: &CompUnit) -> Result<ScorePlan, Error> {
    let mut it = Interpreter::new();
    it.execute(cu)
}

fn on(delta: u64, pitch: u8) -> NoteEvent {
    NoteEvent { delta, on: true, pitch }
}

fn off(delta: u64, pitch: u8) -> NoteEvent {
    NoteEvent { delta, on: false, pitch }
}

fn one_track_program(units: Vec<MeasureUnit>) -> CompUnit {
    let mut stmts = header();
    stmts.push(ScoreStmt::SetChannelTrack(SetChannelTrack {
        channel: num(0),
        track: TrackRVal::Track(track_of(units)),
    }));
    program(vec![], vec![], stmts)
}

#[test]
fn single_note_program() {
    let cu = one_track_program(vec![note(vec![60], None)]);
    assert!(analyze(&cu).is_ok());
    let plan = run(&cu).unwrap();
    assert_eq!(
        plan.meta,
        vec![MetaEvent::Tempo(120), MetaEvent::TimeSignature(4, 4), MetaEvent::Instrument(0, 0)]
    );
    assert_eq!(plan.channels.len(), 1);
    assert_eq!(plan.channels[0].channel, 0);
    assert_eq!(plan.channels[0].events, vec![on(0, 60), off(1024, 60)]);
}

#[test]
fn chord() {
    let cu = one_track_program(vec![note(vec![60, 64, 67], None)]);
    let plan = run(&cu).unwrap();
    assert_eq!(
        plan.channels[0].events,
        vec![on(0, 60), on(0, 64), on(0, 67), off(1024, 60), off(0, 64), off(0, 67)]
    );
}

#[test]
fn length_multiplier() {
    let cu = one_track_program(vec![note(vec![60], Some(3)), note(vec![62], None)]);
    let plan = run(&cu).unwrap();
    // The second note starts one unit later, while the first still sounds;
    // the first is released 3072 ticks after it started.
    assert_eq!(
        plan.channels[0].events,
        vec![on(0, 60), on(1024, 62), off(1024, 62), off(1024, 60)]
    );
}

#[test]
fn rest_and_dilation() {
    let cu = one_track_program(vec![MeasureUnit::TimeDilation, MeasureUnit::Rest, note(vec![60], None)]);
    let plan = run(&cu).unwrap();
    assert_eq!(plan.channels[0].events, vec![on(512, 60), off(512, 60)]);
}

#[test]
fn compression_doubles_the_step() {
    let cu = one_track_program(vec![MeasureUnit::TimeCompression, note(vec![60], None)]);
    let plan = run(&cu).unwrap();
    assert_eq!(plan.channels[0].events, vec![on(0, 60), off(2048, 60)]);
}

#[test]
fn total_advance_follows_modifiers() {
    // `>` doubles to 2048, `.` advances 2048, `<` halves to 1024, the note
    // advances 1024: 3072 ticks in all.
    let cu = one_track_program(vec![
        MeasureUnit::TimeCompression,
        MeasureUnit::Rest,
        MeasureUnit::TimeDilation,
        note(vec![60], None),
    ]);
    let plan = run(&cu).unwrap();
    assert_eq!(plan.channels[0].elapsed, 3072);
    assert_eq!(plan.channels[0].events, vec![on(2048, 60), off(1024, 60)]);
}

#[test]
fn second_assignment_continues_the_channel() {
    let mut stmts = header();
    for _ in 0..2 {
        stmts.push(ScoreStmt::SetChannelTrack(SetChannelTrack {
            channel: num(0),
            track: TrackRVal::Track(track_of(vec![MeasureUnit::Rest, note(vec![60], None)])),
        }));
    }
    let plan = run(&program(vec![], vec![], stmts)).unwrap();
    assert_eq!(plan.channels.len(), 1);
    assert_eq!(
        plan.channels[0].events,
        vec![on(1024, 60), off(1024, 60), on(1024, 60), off(1024, 60)]
    );
}

#[test]
fn time_signature_sets_the_step() {
    let mut stmts = vec![ScoreStmt::SetTimeSignature(SetTimeSignature { top_num: num(3), bottom_num: num(8) })];
    stmts.push(ScoreStmt::SetChannelTrack(SetChannelTrack {
        channel: num(1),
        track: TrackRVal::Track(track_of(vec![note(vec![60], None)])),
    }));
    let plan = run(&program(vec![], vec![], stmts)).unwrap();
    assert_eq!(plan.denominator, 8);
    assert_eq!(plan.channels[0].channel, 1);
    assert_eq!(plan.channels[0].events, vec![on(0, 60), off(512, 60)]);
}

#[test]
fn short_circuit_or() {
    // int x = 0; int f() { x = 5; return 1; }  score: int y = 1 || f();
    let globals = vec![
        var_decl(BType::Int, "x", Some(num(0))),
        func(FuncType::BType(BType::Int), "f", vec![], vec![assign("x", num(5)), Stmt::Return(Some(num(1)))]),
    ];
    let score_block = vec![var_decl(BType::Int, "y", Some(or(num(1), call("f", vec![]))))];
    let stmts = vec![ScoreStmt::SetTempo(add(mul(var("y"), MulOp::Mul, num(100)), AddOp::Add, var("x")))];
    let cu = program(globals, score_block, stmts);
    assert!(analyze(&cu).is_ok());
    let plan = run(&cu).unwrap();
    // y = 1 and x = 0: the call never ran.
    assert_eq!(plan.meta, vec![MetaEvent::Tempo(100)]);
}

#[test]
fn short_circuit_and() {
    let globals = vec![
        var_decl(BType::Int, "x", Some(num(0))),
        func(FuncType::BType(BType::Int), "f", vec![], vec![assign("x", num(5)), Stmt::Return(Some(num(1)))]),
    ];
    let score_block = vec![var_decl(BType::Int, "y", Some(and(num(0), call("f", vec![]))))];
    let stmts = vec![ScoreStmt::SetTempo(add(var("y"), AddOp::Add, var("x")))];
    let plan = run(&program(globals, score_block, stmts)).unwrap();
    assert_eq!(plan.meta, vec![MetaEvent::Tempo(0)]);
}

#[test]
fn or_runs_right_operand_when_needed() {
    let globals = vec![
        var_decl(BType::Int, "x", Some(num(0))),
        func(FuncType::BType(BType::Int), "f", vec![], vec![assign("x", num(5)), Stmt::Return(Some(num(1)))]),
    ];
    let score_block = vec![var_decl(BType::Int, "y", Some(or(num(0), call("f", vec![]))))];
    let stmts = vec![ScoreStmt::SetTempo(add(mul(var("y"), MulOp::Mul, num(100)), AddOp::Add, var("x")))];
    let plan = run(&program(globals, score_block, stmts)).unwrap();
    assert_eq!(plan.meta, vec![MetaEvent::Tempo(105)]);
}

fn fact_def() -> Stmt {
    // int fact(int n) { if (n <= 1) return 1; return n * fact(n - 1); }
    func(
        FuncType::BType(BType::Int),
        "fact",
        vec![(BType::Int, "n")],
        vec![
            Stmt::IfElse(IfElse {
                cond: rel(var("n"), RelOp::Le, num(1)),
                if_: Box::new(Stmt::Return(Some(num(1)))),
                else_: None,
            }),
            Stmt::Return(Some(mul(
                var("n"),
                MulOp::Mul,
                call("fact", vec![AsgnRVal::Expr(add(var("n"), AddOp::Sub, num(1)))]),
            ))),
        ],
    )
}

#[test]
fn recursive_factorial() {
    let cu = program(
        vec![fact_def()],
        vec![],
        vec![ScoreStmt::SetTempo(call("fact", vec![AsgnRVal::Expr(num(5))]))],
    );
    assert!(analyze(&cu).is_ok());
    let plan = run(&cu).unwrap();
    assert_eq!(plan.meta, vec![MetaEvent::Tempo(120)]);
}

#[test]
fn while_with_break_and_continue() {
    // int i = 0; int s = 0;
    // while (1) { i = i + 1; if (i > 10) break; if (i % 2 == 0) continue; s = s + i; }
    let body = Stmt::Block(Block::new(vec![
        assign("i", add(var("i"), AddOp::Add, num(1))),
        Stmt::IfElse(IfElse { cond: rel(var("i"), RelOp::Gt, num(10)), if_: Box::new(Stmt::Break), else_: None }),
        Stmt::IfElse(IfElse {
            cond: rel(mul(var("i"), MulOp::Mod, num(2)), RelOp::Lt, num(1)),
            if_: Box::new(Stmt::Continue),
            else_: None,
        }),
        assign("s", add(var("s"), AddOp::Add, var("i"))),
    ]));
    let score_block = vec![
        var_decl(BType::Int, "i", Some(num(0))),
        var_decl(BType::Int, "s", Some(num(0))),
        Stmt::While(While { cond: num(1), body: Box::new(body) }),
    ];
    let cu = program(vec![], score_block, vec![ScoreStmt::SetTempo(var("s"))]);
    assert!(analyze(&cu).is_ok());
    let plan = run(&cu).unwrap();
    assert_eq!(plan.meta, vec![MetaEvent::Tempo(25)]);
}

#[test]
fn inner_block_shadows_outer() {
    let score_block = vec![
        var_decl(BType::Int, "a", Some(num(1))),
        Stmt::Block(Block::new(vec![var_decl(BType::Int, "a", Some(num(2))), assign("a", num(3))])),
    ];
    let cu = program(vec![], score_block, vec![ScoreStmt::SetTempo(var("a"))]);
    assert!(analyze(&cu).is_ok());
    assert_eq!(run(&cu).unwrap().meta, vec![MetaEvent::Tempo(1)]);
}

#[test]
fn function_sees_globals_not_callers_locals() {
    // int a = 7;  int g() { return a; }  score: int a = 9; tempo(g())
    let globals = vec![
        var_decl(BType::Int, "a", Some(num(7))),
        func(FuncType::BType(BType::Int), "g", vec![], vec![Stmt::Return(Some(var("a")))]),
    ];
    let score_block = vec![var_decl(BType::Int, "a", Some(num(9)))];
    let cu = program(globals, score_block, vec![ScoreStmt::SetTempo(call("g", vec![]))]);
    assert!(analyze(&cu).is_ok());
    assert_eq!(run(&cu).unwrap().meta, vec![MetaEvent::Tempo(7)]);
}

#[test]
fn unary_operators_apply_innermost_first() {
    // -!0: !0 is 1, then negated.
    let mut it = Interpreter::new();
    let e = unary(vec![UnaryOp::Minus, UnaryOp::Not], PrimaryExpr::Number(0));
    assert_eq!(it.calc_expr(&e, 100), Ok(RetVal::Value(Value::Int(-1))));
    let e2 = unary(vec![UnaryOp::Not, UnaryOp::Minus], PrimaryExpr::Number(5));
    assert_eq!(it.calc_expr(&e2, 100), Ok(RetVal::Value(Value::Int(0))));
}

#[test]
fn arithmetic_wraps() {
    let mut it = Interpreter::new();
    let e = add(num(i32::MAX), AddOp::Add, num(1));
    assert_eq!(it.calc_expr(&e, 100), Ok(RetVal::Value(Value::Int(i32::MIN))));
    let d = mul(num(-7), MulOp::Div, num(2));
    assert_eq!(it.calc_expr(&d, 100), Ok(RetVal::Value(Value::Int(-3))));
    let m = mul(num(-7), MulOp::Mod, num(2));
    assert_eq!(it.calc_expr(&m, 100), Ok(RetVal::Value(Value::Int(-1))));
}

#[test]
fn relational_and_equality_give_one_or_zero() {
    let lt = rel(num(2), RelOp::Lt, num(3));
    let ge = rel(num(2), RelOp::Ge, num(3));
    let mut it = Interpreter::new();
    assert_eq!(it.calc_expr(&lt, 100), Ok(RetVal::Value(Value::Int(1))));
    assert_eq!(it.calc_expr(&ge, 100), Ok(RetVal::Value(Value::Int(0))));
    let e = LOrExpr {
        land_exps: vec![LAndExpr {
            eq_exps: vec![EqExpr {
                eq_ops: vec![yam::ast::EqOp::Ne],
                rel_exps: vec![eq_of(num(4)).rel_exps.remove(0), eq_of(num(4)).rel_exps.remove(0)],
            }],
        }],
    };
    assert_eq!(it.calc_expr(&e, 100), Ok(RetVal::Value(Value::Int(0))));
}

#[test]
fn evaluation_is_deterministic() {
    let e = add(mul(num(6), MulOp::Mul, num(7)), AddOp::Sub, num(2));
    let mut a = Interpreter::new();
    let mut b = Interpreter::new();
    assert_eq!(a.calc_expr(&e, 100), b.calc_expr(&e, 100));
    assert_eq!(a.calc_expr(&e, 100), Ok(RetVal::Value(Value::Int(40))));
}

#[test]
fn assignment_twice_is_assignment_once() {
    let decl = var_decl(BType::Int, "x", None);
    let mut it = Interpreter::new();
    assert_eq!(it.interpret_stmt(&decl, 100), Ok(Ctr::Normal));
    let k = it.lookup(&"x".to_string()).unwrap();
    assert_eq!(it.set_value(k, Value::Int(4)), Ok(()));
    let once = it.get_value(&"x".to_string());
    assert_eq!(it.set_value(k, Value::Int(4)), Ok(()));
    assert_eq!(it.get_value(&"x".to_string()), once);
    assert_eq!(once, Ok(Value::Int(4)));
    assert_eq!(it.set_value(k, Value::Track(yam::value::TrackValue { content: vec![] })), Err(Error::RuntimeError(RuntimeError::TypeError)));
}

#[test]
fn evaluation_limit() {
    let mut it = Interpreter::new();
    assert_eq!(it.calc_expr(&num(1), 2), Err(Error::RuntimeError(RuntimeError::EvaluationLimit)));
}

fn runtime_error_of(stmts: Vec<ScoreStmt>) -> Error {
    run(&program(vec![], vec![], stmts)).unwrap_err()
}

#[test]
fn division_by_zero() {
    let e = runtime_error_of(vec![ScoreStmt::SetTempo(mul(num(1), MulOp::Div, num(0)))]);
    assert_eq!(e, Error::RuntimeError(RuntimeError::ArithmeticError));
    let e = runtime_error_of(vec![ScoreStmt::SetTempo(mul(num(1), MulOp::Mod, num(0)))]);
    assert_eq!(e, Error::RuntimeError(RuntimeError::ArithmeticError));
}

#[test]
fn bad_score_arguments() {
    assert_eq!(runtime_error_of(vec![ScoreStmt::SetTempo(num(256))]), Error::RuntimeError(RuntimeError::BadTempo));
    assert_eq!(
        runtime_error_of(vec![ScoreStmt::SetTimeSignature(SetTimeSignature { top_num: num(4), bottom_num: num(3) })]),
        Error::RuntimeError(RuntimeError::BadTimeSignature)
    );
    assert_eq!(
        runtime_error_of(vec![ScoreStmt::SetChannelInstrument(SetChannelInstrument { channel: num(16), instrument: num(0) })]),
        Error::RuntimeError(RuntimeError::BadChannel)
    );
    assert_eq!(
        runtime_error_of(vec![ScoreStmt::SetChannelInstrument(SetChannelInstrument { channel: num(0), instrument: num(128) })]),
        Error::RuntimeError(RuntimeError::BadInstrument)
    );
    assert_eq!(
        runtime_error_of(vec![ScoreStmt::SetChannelTrack(SetChannelTrack {
            channel: num(-1),
            track: TrackRVal::Track(track_of(vec![])),
        })]),
        Error::RuntimeError(RuntimeError::BadChannel)
    );
}

#[test]
fn pitches_are_clamped_and_negative_lengths_are_zero() {
    let plan = run(&one_track_program(vec![note(vec![128, -5], None)])).unwrap();
    assert_eq!(plan.channels[0].events, vec![on(0, 127), on(0, 0), off(1024, 0), off(0, 127)]);
    let plan = run(&one_track_program(vec![note(vec![60], Some(-1))])).unwrap();
    assert_eq!(plan.channels[0].events, vec![on(0, 60), off(0, 60)]);
}

#[test]
fn global_initializer_calls_see_globals() {
    // int x = 1; int f() { return x; } int y = f(); int r = fact(5);
    let globals = vec![
        var_decl(BType::Int, "x", Some(num(1))),
        func(FuncType::BType(BType::Int), "f", vec![], vec![Stmt::Return(Some(var("x")))]),
        var_decl(BType::Int, "y", Some(call("f", vec![]))),
        fact_def(),
        var_decl(BType::Int, "r", Some(call("fact", vec![AsgnRVal::Expr(num(5))]))),
    ];
    let stmts = vec![ScoreStmt::SetTempo(add(var("r"), AddOp::Add, var("y")))];
    let cu = program(globals, vec![], stmts);
    assert!(analyze(&cu).is_ok());
    assert_eq!(run(&cu).unwrap().meta, vec![MetaEvent::Tempo(121)]);
}

#[test]
fn slowest_tempos_share_one_stored_event() {
    let tempo_event = |q: i32| {
        let plan = run(&program(vec![], vec![], vec![ScoreStmt::SetTempo(num(q))])).unwrap();
        let f = yam::midi::render_midi(&plan).unwrap();
        let e = f.track(0).unwrap().events().next().map(|e| format!("{:?}", e.event()));
        e.unwrap()
    };
    assert_eq!(tempo_event(0), tempo_event(3));
    assert_eq!(tempo_event(1), tempo_event(3));
    assert_ne!(tempo_event(4), tempo_event(3));
    assert_ne!(tempo_event(4), tempo_event(5));
}

#[test]
fn missing_return() {
    let globals = vec![func(FuncType::BType(BType::Int), "h", vec![], vec![])];
    let cu = program(globals, vec![], vec![ScoreStmt::SetTempo(call("h", vec![]))]);
    assert_eq!(run(&cu).unwrap_err(), Error::RuntimeError(RuntimeError::MissingReturn));
}

#[test]
fn void_function_returns_nothing() {
    let globals = vec![
        var_decl(BType::Int, "x", Some(num(1))),
        func(FuncType::Void, "set", vec![(BType::Int, "v")], vec![assign("x", var("v"))]),
    ];
    let score_block = vec![Stmt::Expr(Some(call("set", vec![AsgnRVal::Expr(num(42))])))];
    let cu = program(globals, score_block, vec![ScoreStmt::SetTempo(var("x"))]);
    assert!(analyze(&cu).is_ok());
    assert_eq!(run(&cu).unwrap().meta, vec![MetaEvent::Tempo(42)]);
}

#[test]
fn musical_values_through_variables_and_calls() {
    // measure m() { return m0; } with a global measure m0 and a phrase built from both
    let globals = vec![
        Stmt::ConstDecl(ConstDecl::new(
            BType::Measure,
            vec![ConstDef { ident: "m0".to_string(), rval: AsgnRVal::Measure(Measure { content: vec![note(vec![60], None)] }) }],
        )),
        func(FuncType::BType(BType::Measure), "m", vec![], vec![Stmt::Return(Some(var("m0")))]),
    ];
    let phrase = Phrase {
        content: vec![
            MeasureRVal::LVal(LVal::new("m0".to_string())),
            MeasureRVal::FuncCall(FuncCall::new("m".to_string(), vec![])),
        ],
    };
    let stmts = vec![ScoreStmt::SetChannelTrack(SetChannelTrack {
        channel: num(2),
        track: TrackRVal::Track(Track { content: vec![PhraseRVal::Phrase(phrase)] }),
    })];
    let cu = program(globals, vec![], stmts);
    assert!(analyze(&cu).is_ok());
    let plan = run(&cu).unwrap();
    assert_eq!(plan.channels[0].events, vec![on(0, 60), off(1024, 60), on(0, 60), off(1024, 60)]);
}

#[test]
fn note_variable_flattens_into_chord() {
    let globals = vec![Stmt::ConstDecl(ConstDecl::new(
        BType::Note,
        vec![ConstDef { ident: "c".to_string(), rval: AsgnRVal::Note(Note { notes: vec![num(60), num(64)], len: None }) }],
    ))];
    let units = vec![MeasureUnit::Note(Note { notes: vec![var("c"), num(67)], len: None })];
    let mut cu = one_track_program(units);
    cu.block = Block::new(globals);
    assert!(analyze(&cu).is_ok());
    let plan = run(&cu).unwrap();
    assert_eq!(
        plan.channels[0].events,
        vec![on(0, 60), on(0, 64), on(0, 67), off(1024, 60), off(0, 64), off(0, 67)]
    );
}

fn semantic_error_of(globals: Vec<Stmt>, score_block: Vec<Stmt>) -> Error {
    analyze(&program(globals, score_block, vec![])).unwrap_err()
}

#[test]
fn redeclaration_in_one_block() {
    let e = semantic_error_of(vec![var_decl(BType::Int, "a", None), var_decl(BType::Int, "a", None)], vec![]);
    assert_eq!(e, Error::SemanticError(SemanticError::Redeclared("a".to_string())));
}

#[test]
fn break_outside_loop() {
    assert_eq!(semantic_error_of(vec![], vec![Stmt::Break]), Error::SemanticError(SemanticError::LoopOnlyKeyword));
    assert_eq!(semantic_error_of(vec![], vec![Stmt::Continue]), Error::SemanticError(SemanticError::LoopOnlyKeyword));
    // A loop around a function definition does not let its body jump.
    let inner = func(FuncType::Void, "f", vec![], vec![Stmt::Break]);
    let w = Stmt::While(While { cond: num(0), body: Box::new(Stmt::Block(Block::new(vec![inner]))) });
    assert_eq!(semantic_error_of(vec![], vec![w]), Error::SemanticError(SemanticError::LoopOnlyKeyword));
}

#[test]
fn return_checks() {
    assert_eq!(
        semantic_error_of(vec![], vec![Stmt::Return(None)]),
        Error::SemanticError(SemanticError::ReturnOutsideFunction)
    );
    let f = func(FuncType::Void, "f", vec![], vec![Stmt::Return(Some(num(1)))]);
    assert_eq!(semantic_error_of(vec![f], vec![]), Error::SemanticError(SemanticError::ReturnTypeMismatch));
    let g = func(FuncType::BType(BType::Int), "g", vec![], vec![Stmt::Return(None)]);
    assert_eq!(semantic_error_of(vec![g], vec![]), Error::SemanticError(SemanticError::ReturnTypeMismatch));
}

#[test]
fn names_must_resolve() {
    let e = semantic_error_of(vec![], vec![assign("nope", num(1))]);
    assert_eq!(e, Error::SemanticError(SemanticError::Undefined("nope".to_string())));
    let e = semantic_error_of(vec![], vec![Stmt::Expr(Some(call("nope", vec![])))]);
    assert_eq!(e, Error::SemanticError(SemanticError::UnknownFunction("nope".to_string())));
}

#[test]
fn constants_are_not_assignable() {
    let e = semantic_error_of(vec![const_decl(BType::Int, "k", num(1))], vec![assign("k", num(2))]);
    assert_eq!(e, Error::SemanticError(SemanticError::NotAssignable("k".to_string())));
}

#[test]
fn call_arity_must_match() {
    let e = semantic_error_of(vec![fact_def()], vec![Stmt::Expr(Some(call("fact", vec![])))]);
    assert_eq!(e, Error::SemanticError(SemanticError::ArityMismatch("fact".to_string())));
}

#[test]
fn operators_on_musical_values() {
    let m = Stmt::VarDecl(VarDecl::new(BType::Measure, vec![VarDef { ident: "m".to_string(), rval_: None }]));
    let bad = Stmt::VarDecl(VarDecl::new(
        BType::Measure,
        vec![VarDef { ident: "n".to_string(), rval_: Some(AsgnRVal::Expr(add(var("m"), AddOp::Add, var("m")))) }],
    ));
    let e = semantic_error_of(vec![m, bad], vec![]);
    assert_eq!(e, Error::SemanticError(SemanticError::NonArithmeticOperand));
}

#[test]
fn declared_type_must_match() {
    let bad = Stmt::VarDecl(VarDecl::new(
        BType::Int,
        vec![VarDef { ident: "n".to_string(), rval_: Some(AsgnRVal::Measure(Measure { content: vec![] })) }],
    ));
    let e = semantic_error_of(vec![bad], vec![]);
    assert_eq!(
        e,
        Error::SemanticError(SemanticError::TypeMismatch { expected: BType::Int, found: FuncType::BType(BType::Measure) })
    );
}

#[test]
fn render_writes_meta_and_channel_tracks() {
    let cu = one_track_program(vec![note(vec![60], None)]);
    let plan = run(&cu).unwrap();
    let f = yam::midi::render_midi(&plan).unwrap();
    assert_eq!(f.tracks_len(), 2);
    // tempo, time signature, program change, end of track
    assert_eq!(f.track(0).unwrap().events_len(), 4);
    // note on, note off, end of track
    assert_eq!(f.track(1).unwrap().events_len(), 3);
}

#[test]
fn interpret_produces_a_file() {
    let cu = one_track_program(vec![note(vec![60, 64], None)]);
    let mut it = Interpreter::new();
    let f = it.interpret(&cu).unwrap();
    assert_eq!(f.tracks_len(), 2);
    assert_eq!(f.track(1).unwrap().events_len(), 5);
}

#[test]
fn void_call_where_a_value_is_needed() {
    let globals = vec![
        func(FuncType::Void, "v", vec![], vec![]),
        var_decl(BType::Int, "x", Some(call("v", vec![]))),
    ];
    let e = semantic_error_of(globals, vec![]);
    assert_eq!(
        e,
        Error::SemanticError(SemanticError::TypeMismatch { expected: BType::Int, found: FuncType::Void })
    );
}

#[test]
fn musical_return_needs_a_single_operand() {
    let m = Stmt::VarDecl(VarDecl::new(BType::Measure, vec![VarDef { ident: "m".to_string(), rval_: None }]));
    let f = func(
        FuncType::BType(BType::Measure),
        "f",
        vec![],
        vec![Stmt::Return(Some(add(var("m"), AddOp::Add, num(1))))],
    );
    let e = semantic_error_of(vec![m, f], vec![]);
    assert_eq!(e, Error::SemanticError(SemanticError::NonArithmeticOperand));
}

#[test]
fn phrase_element_must_be_a_measure() {
    let globals = vec![var_decl(BType::Int, "k", Some(num(1)))];
    let p = Stmt::VarDecl(VarDecl::new(
        BType::Phrase,
        vec![VarDef {
            ident: "p".to_string(),
            rval_: Some(AsgnRVal::Phrase(Phrase { content: vec![MeasureRVal::LVal(LVal::new("k".to_string()))] })),
        }],
    ));
    let e = semantic_error_of(globals, vec![p]);
    assert_eq!(
        e,
        Error::SemanticError(SemanticError::TypeMismatch { expected: BType::Measure, found: FuncType::BType(BType::Int) })
    );
}

#[test]
fn function_body_cannot_see_enclosing_locals() {
    // A function defined in the score block cannot read the score's locals.
    let f = func(FuncType::BType(BType::Int), "f", vec![], vec![Stmt::Return(Some(var("local")))]);
    let e = semantic_error_of(vec![], vec![var_decl(BType::Int, "local", Some(num(1))), f]);
    assert_eq!(e, Error::SemanticError(SemanticError::Undefined("local".to_string())));
}

#[test]
fn duplicate_parameters() {
    let f = func(FuncType::Void, "f", vec![(BType::Int, "a"), (BType::Int, "a")], vec![]);
    assert_eq!(semantic_error_of(vec![f], vec![]), Error::SemanticError(SemanticError::Redeclared("a".to_string())));
}

#[test]
fn shadowing_across_blocks_is_allowed() {
    let inner = Stmt::Block(Block::new(vec![var_decl(BType::Int, "a", None)]));
    let cu = program(vec![var_decl(BType::Int, "a", None)], vec![var_decl(BType::Int, "a", None), inner], vec![]);
    assert!(analyze(&cu).is_ok());
}

#[test]
fn sustained_notes_are_each_released_once() {
    // Note(60) len 2, Note(62), Note(60) len 3, rest: every Note-On has one
    // Note-Off of its pitch, `step × multiplier` ticks later.
    let cu = one_track_program(vec![
        note(vec![60], Some(2)),
        note(vec![62], None),
        note(vec![60], Some(3)),
        MeasureUnit::Rest,
    ]);
    let plan = run(&cu).unwrap();
    let events = &plan.channels[0].events;
    assert_eq!(
        *events,
        vec![on(0, 60), on(1024, 62), off(1024, 60), off(0, 62), on(0, 60), off(3072, 60)]
    );
    let mut tick = 0;
    let mut ticks = vec![];
    for e in events {
        tick += e.delta;
        ticks.push(tick);
    }
    assert_eq!(ticks, vec![0, 1024, 2048, 2048, 2048, 5120]);
    for p in [60u8, 62u8] {
        let ons = events.iter().filter(|e| e.on && e.pitch == p).count();
        let offs = events.iter().filter(|e| !e.on && e.pitch == p).count();
        assert_eq!(ons, offs);
    }
}

#[test]
fn meta_track_holds_the_statements_in_order() {
    let mut stmts = header();
    stmts.push(ScoreStmt::SetChannelInstrument(SetChannelInstrument { channel: num(1), instrument: num(40) }));
    let cu = program(vec![], vec![], stmts);
    let plan = run(&cu).unwrap();
    let f = yam::midi::render_midi(&plan).unwrap();
    let meta: Vec<(u32, String)> = f
        .track(0)
        .unwrap()
        .events()
        .map(|e| (e.delta_time(), format!("{:?}", e.event())))
        .collect();
    assert_eq!(meta.len(), 5);
    assert!(meta.iter().all(|(d, _)| *d == 0));
    assert!(meta[0].1.contains("SetTempo"));
    assert!(meta[1].1.contains("TimeSignature"));
    assert!(meta[2].1.contains("ProgramChange"));
    assert!(meta[2].1.contains("Channel(0)"));
    assert!(meta[2].1.contains("Program(0)"));
    assert!(meta[3].1.contains("ProgramChange"));
    assert!(meta[3].1.contains("Channel(1)"));
    assert!(meta[3].1.contains("Program(40)"));
    assert!(meta[4].1.contains("EndOfTrack"));
}

#[test]
fn channel_track_holds_the_note_events() {
    let cu = one_track_program(vec![note(vec![60], None)]);
    let plan = run(&cu).unwrap();
    let f = yam::midi::render_midi(&plan).unwrap();
    let ch: Vec<(u32, String)> = f
        .track(1)
        .unwrap()
        .events()
        .map(|e| (e.delta_time(), format!("{:?}", e.event())))
        .collect();
    assert_eq!(ch.len(), 3);
    assert_eq!(ch[0].0, 0);
    assert!(ch[0].1.contains("NoteOn"));
    assert!(ch[0].1.contains("NoteNumber(60)"));
    assert!(ch[0].1.contains("Velocity(72)"));
    assert_eq!(ch[1].0, 1024);
    assert!(ch[1].1.contains("NoteOff"));
    assert!(ch[2].1.contains("EndOfTrack"));
}

#[test]
fn wrongly_typed_return_value() {
    let f = func(FuncType::BType(BType::Measure), "f", vec![], vec![Stmt::Return(Some(num(1)))]);
    assert_eq!(semantic_error_of(vec![f], vec![]), Error::SemanticError(SemanticError::ReturnTypeMismatch));
}

#[test]
fn operator_on_a_note() {
    let n = Stmt::VarDecl(VarDecl::new(BType::Note, vec![VarDef { ident: "n".to_string(), rval_: None }]));
    let bad = var_decl(BType::Int, "k", Some(add(var("n"), AddOp::Add, num(1))));
    assert_eq!(semantic_error_of(vec![n, bad], vec![]), Error::SemanticError(SemanticError::NonArithmeticOperand));
}

#[test]
fn cell_type_is_the_kind_of_its_value() {
    let cell = yam::interpret::RVal::new_with_btype(BType::Bool);
    assert_eq!(cell.get_btype(), BType::Int);
    let m = yam::interpret::RVal::new_with_btype(BType::Measure);
    assert_eq!(m.get_btype(), BType::Measure);
}
