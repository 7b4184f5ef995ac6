//! Running a whole program: the globals, the score's block, then the
//! channel statements, which build the plan of the MIDI file.
use crate::ast::{CompUnit, Expr, Score, ScoreStmt, TrackRVal};
use crate::error::{Error, InternalError, RuntimeError};
use crate::interpret::{agrees, Ctr, Interpreter};
use crate::midi::{plan_tracks, render_midi, writable, file_tracks};
use crate::plan::ScorePlan;
use crate::sem::{
    as_int, initial_plan, sem_channel_stmt, sem_expr, sem_globals_from, sem_program, sem_score,
    sem_score_from, sem_stmts_from, sem_track_rval, type_error, CtrModel, };
use crate::value::{RetVal, TrackValue, Value};
use vstd::prelude::*;

verus! {

/// The evaluation depth bound of a whole program: in practice, none.
pub const FUEL: u64 = 0xFFFF_FFFF_FFFF_FFFF;

impl<'a> Interpreter<'a> {
    fn eval_int(&mut self, e: &'a Expr, fuel: u64) -> (r: Result<i32, Error>)
        ensures
            match sem_expr(old(self)@, *e, fuel as nat) {
                (env1, Ok(v)) => match as_int(v) {
                    Some(n) => r == Ok::<i32, Error>(n) && final(self)@ == env1,
                    None => r == Err::<i32, Error>(type_error()),
                },
                (_, Err(x)) => r == Err::<i32, Error>(x),
            },
            final(self)@ == sem_expr(old(self)@, *e, fuel as nat).0,
    {
        match self.calc_expr(e, fuel) {
            Ok(RetVal::Value(Value::Int(n))) => Ok(n),
            Ok(_) => Err(Error::RuntimeError(RuntimeError::TypeError)),
            Err(x) => Err(x),
        }
    }

    fn interpret_track_rval(&mut self, t: &'a TrackRVal, fuel: u64) -> (r: Result<TrackValue, Error>)
        ensures
            agrees(r, final(self)@, sem_track_rval(old(self)@, *t, fuel as nat)),
    {
        match t {
            TrackRVal::Track(tr) => self.interpret_track(tr, fuel),
            TrackRVal::LVal(l) => match self.get_value(&l.ident) {
                Ok(Value::Track(v)) => Ok(v),
                Ok(_) => Err(Error::RuntimeError(RuntimeError::TypeError)),
                Err(x) => Err(x),
            },
            TrackRVal::FuncCall(c) => match self.call_func(c, fuel) {
                Ok(RetVal::Value(Value::Track(v))) => Ok(v),
                Ok(_) => Err(Error::RuntimeError(RuntimeError::TypeError)),
                Err(x) => Err(x),
            },
        }
    }

    /// Apply one channel statement to `plan`; see `sem::sem_channel_stmt`.
    pub fn interpret_channel_stmt(&mut self, st: &'a ScoreStmt, plan: &mut ScorePlan, fuel: u64) -> (r:
        Result<(), Error>)
        ensures
            match sem_channel_stmt(old(self)@, *st, old(plan)@, fuel as nat) {
                (env1, Ok(p)) => r is Ok && final(self)@ == env1 && final(plan)@ == p,
                (_, Err(x)) => r == Err::<(), Error>(x),
            },
            final(self)@ == sem_channel_stmt(old(self)@, *st, old(plan)@, fuel as nat).0,
    {
        reveal(sem_channel_stmt);
        match st {
            ScoreStmt::SetTempo(e) => {
                let n = match self.eval_int(e, fuel) {
                    Ok(n) => n,
                    Err(x) => return Err(x),
                };
                match plan.set_tempo(n) {
                    Ok(()) => Ok(()),
                    Err(x) => Err(Error::RuntimeError(x)),
                }
            },
            ScoreStmt::SetTimeSignature(ts) => {
                let top = match self.eval_int(&ts.top_num, fuel) {
                    Ok(n) => n,
                    Err(x) => return Err(x),
                };
                let bottom = match self.eval_int(&ts.bottom_num, fuel) {
                    Ok(n) => n,
                    Err(x) => return Err(x),
                };
                match plan.set_time_signature(top, bottom) {
                    Ok(()) => Ok(()),
                    Err(x) => Err(Error::RuntimeError(x)),
                }
            },
            ScoreStmt::SetChannelInstrument(ci) => {
                let ch = match self.eval_int(&ci.channel, fuel) {
                    Ok(n) => n,
                    Err(x) => return Err(x),
                };
                if ch < 0 || ch > 15 {
                    return Err(Error::RuntimeError(RuntimeError::BadChannel));
                }
                let ins = match self.eval_int(&ci.instrument, fuel) {
                    Ok(n) => n,
                    Err(x) => return Err(x),
                };
                match plan.set_channel_instrument(ch, ins) {
                    Ok(()) => Ok(()),
                    Err(x) => Err(Error::RuntimeError(x)),
                }
            },
            ScoreStmt::SetChannelTrack(ct) => {
                let ch = match self.eval_int(&ct.channel, fuel) {
                    Ok(n) => n,
                    Err(x) => return Err(x),
                };
                if ch < 0 || ch > 15 {
                    return Err(Error::RuntimeError(RuntimeError::BadChannel));
                }
                let t = match self.interpret_track_rval(&ct.track, fuel) {
                    Ok(t) => t,
                    Err(x) => return Err(x),
                };
                match plan.set_channel_track(ch, &t) {
                    Ok(()) => Ok(()),
                    Err(x) => Err(Error::RuntimeError(x)),
                }
            },
        }
    }

    /// Run the score: its block, its channel statements, then release what
    /// still sounds; see `sem::sem_score`. The block's names stay visible to
    /// the channel statements.
    pub fn interpret_score(&mut self, s: &'a Score, fuel: u64) -> (r: Result<ScorePlan, Error>)
        ensures
            agrees(r, final(self)@, sem_score(old(self)@, *s, fuel as nat)),
    {
        let r = self.interpret_stmts(&s.block.stmts, fuel);
        match r {
            Ok(Ctr::Normal) => {},
            Ok(_) => return Err(Error::InternalError(InternalError::StrayJump)),
            Err(x) => return Err(x),
        }
        let ghost env1 = self@;
        let mut plan = ScorePlan::new();
        assert(plan@ == initial_plan());
        let mut i: usize = 0;
        while i < s.channel_stmts.len()
            invariant
                i <= s.channel_stmts.len(),
                sem_stmts_from(old(self)@, s.block.stmts@, 0, fuel as nat) == (env1, Ok::<
                    CtrModel,
                    Error,
                >(CtrModel::Normal)),
                sem_score_from(self@, *s, i as int, plan@, fuel as nat) == sem_score_from(
                    env1,
                    *s,
                    0,
                    initial_plan(),
                    fuel as nat,
                ),
            decreases s.channel_stmts.len() - i,
        {
            match self.interpret_channel_stmt(&s.channel_stmts[i], &mut plan, fuel) {
                Ok(()) => {},
                Err(x) => return Err(x),
            }
            i = i + 1;
        }
        match plan.finish() {
            Ok(()) => Ok(plan),
            Err(x) => Err(Error::RuntimeError(x)),
        }
    }

    /// Run a whole program in this environment; see `sem::sem_program`.
    /// Every statement of the global block runs, in order.
    pub fn execute(&mut self, cu: &'a CompUnit) -> (r: Result<ScorePlan, Error>)
        ensures
            match sem_program(old(self)@, *cu, FUEL as nat) {
                Ok(p) => r is Ok && r->Ok_0@ == p,
                Err(x) => r == Err::<ScorePlan, Error>(x),
            },
    {
        let ss = &cu.block.stmts;
        let mut i: usize = 0;
        while i < ss.len()
            invariant
                i <= ss.len(),
                ss@ == cu.block.stmts@,
                sem_globals_from(self@, ss@, i as int, FUEL as nat) == sem_globals_from(
                    old(self)@,
                    ss@,
                    0,
                    FUEL as nat,
                ),
            decreases ss.len() - i,
        {
            let ghost before = self@;
            self.globals_end = self.entries.len();
            let r = self.interpret_stmt(&ss[i], FUEL);
            match r {
                Ok(Ctr::Normal) => {},
                Ok(_) => {
                    assert(sem_globals_from(before, ss@, i as int, FUEL as nat).1 matches Ok(c)
                        && c != CtrModel::Normal);
                    return Err(Error::InternalError(InternalError::StrayJump));
                },
                Err(x) => return Err(x),
            }
            i = i + 1;
        }
        let n = self.entries.len();
        self.base = n;
        self.globals_end = n;
        self.interpret_score(&cu.score, FUEL)
    }

    /// Run a whole program and write its MIDI file: the meta track, then one
    /// track per channel. The program's own errors come as
    /// `sem::sem_program` gives them; the writer's as `MidiWriter`, exactly
    /// when the plan is not writable.
    pub fn interpret(&mut self, cu: &'a CompUnit) -> (r: Result<midi_file::MidiFile, Error>)
        ensures
            match sem_program(old(self)@, *cu, FUEL as nat) {
                Ok(p) => (r is Err ==> r == Err::<midi_file::MidiFile, Error>(
                    Error::RuntimeError(RuntimeError::MidiWriter),
                )) && (p.channels.len() + 1 < u32::MAX ==> (r is Ok <==> writable(p)))
                    && (r matches Ok(f) ==> file_tracks(f) == plan_tracks(p)),
                Err(x) => r == Err::<midi_file::MidiFile, Error>(x),
            },
    {
        let plan = match self.execute(cu) {
            Ok(p) => p,
            Err(x) => return Err(x),
        };
        render_midi(&plan)
    }
}

} // verus!
