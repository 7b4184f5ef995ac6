//! Properties that relate several evaluations, proved over the semantics.
use crate::ast::LOrExpr;
use crate::schedule::{
    drain, play_measure_from, play_phrase_from, play_track_from, play_unit,
    release_first, sound_from, ChannelModel,
};
use crate::sem::{sem_expr, sem_land, sem_lor_from, store, EnvModel};
use crate::value::{UnitModel, ValueModel};
use vstd::prelude::*;

verus! {

/// `||` short-circuits: when its first operand is non-zero, the value is 1
/// and the environment is the one the first operand left, so no later
/// operand ran.
pub proof fn lemma_or_short_circuit(env: EnvModel, e: LOrExpr, fuel: nat, env1: EnvModel, a: i32)
    requires
        fuel > 0,
        e.land_exps@.len() >= 2,
        sem_land(env, e.land_exps@[0], (fuel - 1) as nat) == (env1, Ok::<
            Option<ValueModel>,
            crate::error::Error,
        >(Some(ValueModel::Int(a)))),
        a != 0,
    ensures
        sem_expr(env, e, fuel) == (env1, Ok::<Option<ValueModel>, crate::error::Error>(
            Some(ValueModel::Int(1)),
        )),
{
    assert(sem_expr(env, e, fuel) == sem_lor_from(env, e, 0, (fuel - 1) as nat));
}

/// `&&` short-circuits: when its first operand is zero, the value is 0 and
/// the environment is the one the first operand left.
pub proof fn lemma_and_short_circuit(
    env: EnvModel,
    e: crate::ast::LAndExpr,
    fuel: nat,
    env1: EnvModel,
)
    requires
        fuel > 0,
        e.eq_exps@.len() >= 2,
        crate::sem::sem_eq(env, e.eq_exps@[0], (fuel - 1) as nat) == (env1, Ok::<
            Option<ValueModel>,
            crate::error::Error,
        >(Some(ValueModel::Int(0)))),
    ensures
        sem_land(env, e, fuel) == (env1, Ok::<Option<ValueModel>, crate::error::Error>(
            Some(ValueModel::Int(0)),
        )),
{
    assert(sem_land(env, e, fuel) == crate::sem::sem_land_from(env, e, 0, (fuel - 1) as nat));
}

/// `&&` of two non-zero operands is 1, after both ran in order.
pub proof fn lemma_and_both_true(
    env: EnvModel,
    e: crate::ast::LAndExpr,
    fuel: nat,
    env1: EnvModel,
    env2: EnvModel,
    a: i32,
    b: i32,
)
    requires
        fuel > 0,
        e.eq_exps@.len() == 2,
        crate::sem::sem_eq(env, e.eq_exps@[0], (fuel - 1) as nat) == (env1, Ok::<
            Option<ValueModel>,
            crate::error::Error,
        >(Some(ValueModel::Int(a)))),
        crate::sem::sem_eq(env1, e.eq_exps@[1], (fuel - 1) as nat) == (env2, Ok::<
            Option<ValueModel>,
            crate::error::Error,
        >(Some(ValueModel::Int(b)))),
        a != 0,
        b != 0,
    ensures
        sem_land(env, e, fuel) == (env2, Ok::<Option<ValueModel>, crate::error::Error>(
            Some(ValueModel::Int(1)),
        )),
{
    let f = (fuel - 1) as nat;
    assert(crate::sem::sem_land_from(env1, e, 1, f) == crate::sem::sem_land_from(env2, e, 2, f));
    assert(sem_land(env, e, fuel) == crate::sem::sem_land_from(env, e, 0, f));
}

/// `||` of two zero operands is 0, after both ran in order.
pub proof fn lemma_or_both_false(
    env: EnvModel,
    e: LOrExpr,
    fuel: nat,
    env1: EnvModel,
    env2: EnvModel,
)
    requires
        fuel > 0,
        e.land_exps@.len() == 2,
        sem_land(env, e.land_exps@[0], (fuel - 1) as nat) == (env1, Ok::<
            Option<ValueModel>,
            crate::error::Error,
        >(Some(ValueModel::Int(0)))),
        sem_land(env1, e.land_exps@[1], (fuel - 1) as nat) == (env2, Ok::<
            Option<ValueModel>,
            crate::error::Error,
        >(Some(ValueModel::Int(0)))),
    ensures
        sem_expr(env, e, fuel) == (env2, Ok::<Option<ValueModel>, crate::error::Error>(
            Some(ValueModel::Int(0)),
        )),
{
    let f = (fuel - 1) as nat;
    assert(sem_lor_from(env1, e, 1, f) == sem_lor_from(env2, e, 2, f));
    assert(sem_expr(env, e, fuel) == sem_lor_from(env, e, 0, f));
}

/// Writing the same value into a cell twice leaves it as writing it once.
pub proof fn lemma_store_idempotent(env: EnvModel, k: int, v: ValueModel)
    requires
        store(env, k, v) is Ok,
    ensures
        store(store(env, k, v)->Ok_0, k, v) == store(env, k, v),
{
    let env1 = store(env, k, v)->Ok_0;
    assert(env1.entries[k].kind == crate::sem::KindModel::Val(
        match env.entries[k].kind {
            crate::sem::KindModel::Val(c, _, _) => c,
            _ => false,
        },
        match env.entries[k].kind {
            crate::sem::KindModel::Val(_, t, _) => t,
            _ => crate::ast::BType::Int,
        },
        v,
    ));
    assert(env1.entries.update(k, env1.entries[k]) =~= env1.entries);
}

/// How far a unit moves the clock, and the unit length after it.
pub open spec fn unit_advance(u: UnitModel, step: u64) -> (int, u64) {
    match u {
        UnitModel::TimeDilation => (0, step / 2),
        UnitModel::TimeCompression => (0, (step * 2) as u64),
        UnitModel::Rest | UnitModel::Note(_, _) => (step as int, step),
    }
}

pub open spec fn measure_advance_from(m: Seq<UnitModel>, k: int, step: u64) -> (int, u64)
    decreases m.len() - k,
{
    if k >= m.len() || k < 0 {
        (0, step)
    } else {
        let (a, s1) = unit_advance(m[k], step);
        let (b, s2) = measure_advance_from(m, k + 1, s1);
        (a + b, s2)
    }
}

pub open spec fn phrase_advance_from(p: Seq<Seq<UnitModel>>, j: int, step: u64) -> (int, u64)
    decreases p.len() - j,
{
    if j >= p.len() || j < 0 {
        (0, step)
    } else {
        let (a, s1) = measure_advance_from(p[j], 0, step);
        let (b, s2) = phrase_advance_from(p, j + 1, s1);
        (a + b, s2)
    }
}

/// The sum of the unit lengths of a track, each unit's length being the
/// one that the `<` and `>` before it left; and the length after it.
pub open spec fn track_advance_from(t: Seq<Seq<Seq<UnitModel>>>, i: int, step: u64) -> (int, u64)
    decreases t.len() - i,
{
    if i >= t.len() || i < 0 {
        (0, step)
    } else {
        let (a, s1) = phrase_advance_from(t[i], 0, step);
        let (b, s2) = track_advance_from(t, i + 1, s1);
        (a + b, s2)
    }
}

proof fn lemma_drain_clock(s: ChannelModel, term: u64)
    requires
        drain(s, term) is Ok,
    ensures
        drain(s, term)->Ok_0.elapsed == term,
        drain(s, term)->Ok_0.tick_step == s.tick_step,
    decreases s.pending.len(),
{
    if s.pending.len() > 0 && s.pending[0].0 <= term {
        let s2 = release_first(s)->Ok_0;
        lemma_drain_clock(s2, term);
    }
}

proof fn lemma_sound_clock(s: ChannelModel, ps: Seq<i32>, i: int, target: u64)
    requires
        sound_from(s, ps, i, target) is Ok,
    ensures
        sound_from(s, ps, i, target)->Ok_0.elapsed == s.elapsed,
        sound_from(s, ps, i, target)->Ok_0.tick_step == s.tick_step,
    decreases ps.len() - i,
{
    if 0 <= i < ps.len() {
        let s2 = ChannelModel {
            events: s.events.push(
                crate::schedule::NoteEvent { delta: s.delta, on: true, pitch: crate::schedule::pitch_of(ps[i]) },
            ),
            delta: 0,
            pending: crate::schedule::insert_sorted(s.pending, (target, crate::schedule::pitch_of(ps[i]))),
            ..s
        };
        lemma_sound_clock(s2, ps, i + 1, target);
    }
}

proof fn lemma_unit_clock(s: ChannelModel, u: UnitModel)
    requires
        play_unit(s, u) is Ok,
    ensures
        play_unit(s, u)->Ok_0.elapsed == s.elapsed + unit_advance(u, s.tick_step).0,
        play_unit(s, u)->Ok_0.tick_step == unit_advance(u, s.tick_step).1,
{
    match u {
        UnitModel::Rest => {
            lemma_drain_clock(s, (s.elapsed + s.tick_step) as u64);
        },
        UnitModel::Note(ps, len) => {
            let m = crate::schedule::multiplier(len);
            let target = (s.elapsed + s.tick_step * m) as u64;
            lemma_sound_clock(s, ps, 0, target);
            let s2 = sound_from(s, ps, 0, target)->Ok_0;
            lemma_drain_clock(s2, (s2.elapsed + s2.tick_step) as u64);
        },
        _ => {},
    }
}

proof fn lemma_measure_clock(s: ChannelModel, m: Seq<UnitModel>, k: int)
    requires
        play_measure_from(s, m, k) is Ok,
    ensures
        play_measure_from(s, m, k)->Ok_0.elapsed == s.elapsed + measure_advance_from(
            m,
            k,
            s.tick_step,
        ).0,
        play_measure_from(s, m, k)->Ok_0.tick_step == measure_advance_from(m, k, s.tick_step).1,
    decreases m.len() - k,
{
    if 0 <= k < m.len() {
        lemma_unit_clock(s, m[k]);
        let s2 = play_unit(s, m[k])->Ok_0;
        lemma_measure_clock(s2, m, k + 1);
    }
}

proof fn lemma_phrase_clock(s: ChannelModel, p: Seq<Seq<UnitModel>>, j: int)
    requires
        play_phrase_from(s, p, j) is Ok,
    ensures
        play_phrase_from(s, p, j)->Ok_0.elapsed == s.elapsed + phrase_advance_from(
            p,
            j,
            s.tick_step,
        ).0,
        play_phrase_from(s, p, j)->Ok_0.tick_step == phrase_advance_from(p, j, s.tick_step).1,
    decreases p.len() - j,
{
    if 0 <= j < p.len() {
        lemma_measure_clock(s, p[j], 0);
        let s2 = play_measure_from(s, p[j], 0)->Ok_0;
        lemma_phrase_clock(s2, p, j + 1);
    }
}

/// Over a track, the clock moves by exactly the sum of the unit lengths,
/// each unit's length being the one that the `<` and `>` met before it in
/// iteration order left.
pub proof fn lemma_track_advance(s: ChannelModel, t: Seq<Seq<Seq<UnitModel>>>, i: int)
    requires
        play_track_from(s, t, i) is Ok,
    ensures
        play_track_from(s, t, i)->Ok_0.elapsed == s.elapsed + track_advance_from(
            t,
            i,
            s.tick_step,
        ).0,
        play_track_from(s, t, i)->Ok_0.tick_step == track_advance_from(t, i, s.tick_step).1,
    decreases t.len() - i,
{
    if 0 <= i < t.len() {
        lemma_phrase_clock(s, t[i], 0);
        let s2 = play_phrase_from(s, t[i], 0)->Ok_0;
        lemma_track_advance(s2, t, i + 1);
    }
}

/// How many events of `evs` have pitch `p` and are Note-On (`on`) or
/// Note-Off (`!on`).
pub open spec fn count_events(evs: Seq<crate::schedule::NoteEvent>, p: u8, on: bool) -> nat
    decreases evs.len(),
{
    if evs.len() == 0 {
        0
    } else {
        count_events(evs.drop_last(), p, on) + if evs.last().pitch == p && evs.last().on == on {
            1nat
        } else {
            0nat
        }
    }
}

/// How many pending releases are for pitch `p`.
pub open spec fn count_pending(ps: Seq<(u64, u8)>, p: u8) -> nat
    decreases ps.len(),
{
    if ps.len() == 0 {
        0
    } else {
        (if ps[0].1 == p {
            1nat
        } else {
            0nat
        }) + count_pending(ps.drop_first(), p)
    }
}

/// Every Note-On so far is matched by a Note-Off of its pitch, or is still
/// pending release.
pub open spec fn notes_balanced(s: ChannelModel) -> bool {
    forall|p: u8|
        #[trigger] count_events(s.events, p, true) == count_events(s.events, p, false)
            + count_pending(s.pending, p)
}

proof fn lemma_count_push(evs: Seq<crate::schedule::NoteEvent>, e: crate::schedule::NoteEvent, p: u8, on: bool)
    ensures
        count_events(evs.push(e), p, on) == count_events(evs, p, on) + if e.pitch == p && e.on
            == on {
            1nat
        } else {
            0nat
        },
{
    assert(evs.push(e).drop_last() =~= evs);
}

proof fn lemma_count_insert(ps: Seq<(u64, u8)>, i: int, x: (u64, u8), p: u8)
    requires
        0 <= i <= ps.len(),
    ensures
        count_pending(ps.insert(i, x), p) == count_pending(ps, p) + if x.1 == p {
            1nat
        } else {
            0nat
        },
    decreases i,
{
    if i == 0 {
        assert(ps.insert(0, x).drop_first() =~= ps);
    } else {
        lemma_count_insert(ps.drop_first(), i - 1, x, p);
        assert(ps.insert(i, x)[0] == ps[0]);
        assert(ps.insert(i, x).drop_first() =~= ps.drop_first().insert(i - 1, x));
    }
}

proof fn lemma_insert_pos_range(ps: Seq<(u64, u8)>, x: (u64, u8), j: int)
    requires
        0 <= j,
    ensures
        0 <= crate::schedule::insert_pos_from(ps, x, j) <= ps.len(),
    decreases ps.len() - j,
{
    if j < ps.len() && !crate::schedule::pair_lt(x, ps[j]) {
        lemma_insert_pos_range(ps, x, j + 1);
    }
}

proof fn lemma_release_balanced(s: ChannelModel)
    requires
        s.pending.len() > 0,
        notes_balanced(s),
        release_first(s) is Ok,
    ensures
        notes_balanced(release_first(s)->Ok_0),
{
    let s2 = release_first(s)->Ok_0;
    let e = s2.events.last();
    assert(s2.events =~= s.events.push(e));
    assert forall|p: u8| #[trigger] count_events(s2.events, p, true) == count_events(
        s2.events,
        p,
        false,
    ) + count_pending(s2.pending, p) by {
        lemma_count_push(s.events, e, p, true);
        lemma_count_push(s.events, e, p, false);
        assert(count_events(s.events, p, true) == count_events(s.events, p, false) + count_pending(
            s.pending,
            p,
        ));
    }
}

proof fn lemma_drain_balanced(s: ChannelModel, term: u64)
    requires
        notes_balanced(s),
        drain(s, term) is Ok,
    ensures
        notes_balanced(drain(s, term)->Ok_0),
    decreases s.pending.len(),
{
    if s.pending.len() > 0 && s.pending[0].0 <= term {
        lemma_release_balanced(s);
        lemma_drain_balanced(release_first(s)->Ok_0, term);
    } else {
        let s2 = drain(s, term)->Ok_0;
        assert(s2.events == s.events && s2.pending == s.pending);
    }
}

proof fn lemma_flush_balanced(s: ChannelModel)
    requires
        notes_balanced(s),
        crate::schedule::flush(s) is Ok,
    ensures
        notes_balanced(crate::schedule::flush(s)->Ok_0),
        crate::schedule::flush(s)->Ok_0.pending.len() == 0,
    decreases s.pending.len(),
{
    if s.pending.len() > 0 {
        lemma_release_balanced(s);
        lemma_flush_balanced(release_first(s)->Ok_0);
    }
}

proof fn lemma_sound_balanced(s: ChannelModel, ps: Seq<i32>, i: int, target: u64)
    requires
        notes_balanced(s),
        sound_from(s, ps, i, target) is Ok,
    ensures
        notes_balanced(sound_from(s, ps, i, target)->Ok_0),
    decreases ps.len() - i,
{
    if 0 <= i < ps.len() {
        let e = crate::schedule::NoteEvent { delta: s.delta, on: true, pitch: crate::schedule::pitch_of(ps[i]) };
        let x = (target, crate::schedule::pitch_of(ps[i]));
        let s2 = ChannelModel {
            events: s.events.push(e),
            delta: 0,
            pending: crate::schedule::insert_sorted(s.pending, x),
            ..s
        };
        lemma_insert_pos_range(s.pending, x, 0);
        assert forall|p: u8| #[trigger] count_events(s2.events, p, true) == count_events(
            s2.events,
            p,
            false,
        ) + count_pending(s2.pending, p) by {
            lemma_count_push(s.events, e, p, true);
            lemma_count_push(s.events, e, p, false);
            lemma_count_insert(
                s.pending,
                crate::schedule::insert_pos_from(s.pending, x, 0),
                x,
                p,
            );
            assert(count_events(s.events, p, true) == count_events(s.events, p, false)
                + count_pending(s.pending, p));
        }
        lemma_sound_balanced(s2, ps, i + 1, target);
    }
}

proof fn lemma_unit_balanced(s: ChannelModel, u: UnitModel)
    requires
        notes_balanced(s),
        play_unit(s, u) is Ok,
    ensures
        notes_balanced(play_unit(s, u)->Ok_0),
{
    match u {
        UnitModel::Rest => {
            lemma_drain_balanced(s, (s.elapsed + s.tick_step) as u64);
        },
        UnitModel::Note(ps, len) => {
            let m = crate::schedule::multiplier(len);
            let target = (s.elapsed + s.tick_step * m) as u64;
            lemma_sound_balanced(s, ps, 0, target);
            let s2 = sound_from(s, ps, 0, target)->Ok_0;
            lemma_drain_balanced(s2, (s2.elapsed + s2.tick_step) as u64);
        },
        _ => {
            let s2 = play_unit(s, u)->Ok_0;
            assert(s2.events == s.events && s2.pending == s.pending);
        },
    }
}

proof fn lemma_measure_balanced(s: ChannelModel, m: Seq<UnitModel>, k: int)
    requires
        notes_balanced(s),
        play_measure_from(s, m, k) is Ok,
    ensures
        notes_balanced(play_measure_from(s, m, k)->Ok_0),
    decreases m.len() - k,
{
    if 0 <= k < m.len() {
        lemma_unit_balanced(s, m[k]);
        lemma_measure_balanced(play_unit(s, m[k])->Ok_0, m, k + 1);
    }
}

proof fn lemma_phrase_balanced(s: ChannelModel, p: Seq<Seq<UnitModel>>, j: int)
    requires
        notes_balanced(s),
        play_phrase_from(s, p, j) is Ok,
    ensures
        notes_balanced(play_phrase_from(s, p, j)->Ok_0),
    decreases p.len() - j,
{
    if 0 <= j < p.len() {
        lemma_measure_balanced(s, p[j], 0);
        lemma_phrase_balanced(play_measure_from(s, p[j], 0)->Ok_0, p, j + 1);
    }
}

proof fn lemma_track_balanced(s: ChannelModel, t: Seq<Seq<Seq<UnitModel>>>, i: int)
    requires
        notes_balanced(s),
        play_track_from(s, t, i) is Ok,
    ensures
        notes_balanced(play_track_from(s, t, i)->Ok_0),
    decreases t.len() - i,
{
    if 0 <= i < t.len() {
        lemma_phrase_balanced(s, t[i], 0);
        lemma_track_balanced(play_phrase_from(s, t[i], 0)->Ok_0, t, i + 1);
    }
}

/// Every Note-On is matched by a Note-Off of the same pitch: on a channel
/// that starts empty, after its tracks are played and the remaining notes
/// released, each pitch has as many Note-Off events as Note-On events.
pub proof fn lemma_notes_matched(s: ChannelModel, t: Seq<Seq<Seq<UnitModel>>>)
    requires
        s.events.len() == 0,
        s.pending.len() == 0,
        play_track_from(s, t, 0) is Ok,
        crate::schedule::flush(play_track_from(s, t, 0)->Ok_0) is Ok,
    ensures
        forall|p: u8|
            #[trigger] count_events(
                crate::schedule::flush(play_track_from(s, t, 0)->Ok_0)->Ok_0.events,
                p,
                true,
            ) == count_events(
                crate::schedule::flush(play_track_from(s, t, 0)->Ok_0)->Ok_0.events,
                p,
                false,
            ),
{
    assert(notes_balanced(s));
    lemma_track_balanced(s, t, 0);
    let s2 = play_track_from(s, t, 0)->Ok_0;
    lemma_flush_balanced(s2);
    let s3 = crate::schedule::flush(s2)->Ok_0;
    assert forall|p: u8| #[trigger] count_events(s3.events, p, true) == count_events(
        s3.events,
        p,
        false,
    ) by {
        assert(count_pending(s3.pending, p) == 0);
    }
}

/// The tick of the last event: the sum of all deltas.
pub open spec fn abs_time(evs: Seq<crate::schedule::NoteEvent>) -> int
    decreases evs.len(),
{
    if evs.len() == 0 {
        0
    } else {
        abs_time(evs.drop_last()) + evs.last().delta
    }
}

pub open spec fn pending_sorted(ps: Seq<(u64, u8)>) -> bool {
    forall|i: int, j: int| 0 <= i < j < ps.len() ==> !crate::schedule::pair_lt(ps[j], ps[i])
}

/// The channel's clock is consistent: the last event's tick plus the ticks
/// since it is the clock, and the pending releases are in order and not in
/// the past.
pub open spec fn clock_ok(s: ChannelModel) -> bool {
    &&& abs_time(s.events) + s.delta == s.elapsed
    &&& pending_sorted(s.pending)
    &&& forall|k: int| 0 <= k < s.pending.len() ==> (#[trigger] s.pending[k]).0 >= s.elapsed
}

proof fn lemma_abs_push(evs: Seq<crate::schedule::NoteEvent>, e: crate::schedule::NoteEvent)
    ensures
        abs_time(evs.push(e)) == abs_time(evs) + e.delta,
{
    assert(evs.push(e).drop_last() =~= evs);
}

proof fn lemma_insert_pos(ps: Seq<(u64, u8)>, x: (u64, u8), j: int)
    requires
        0 <= j <= ps.len(),
    ensures
        j <= crate::schedule::insert_pos_from(ps, x, j) <= ps.len(),
        forall|k: int|
            j <= k < crate::schedule::insert_pos_from(ps, x, j) ==> !crate::schedule::pair_lt(
                x,
                #[trigger] ps[k],
            ),
        crate::schedule::insert_pos_from(ps, x, j) < ps.len() ==> crate::schedule::pair_lt(
            x,
            ps[crate::schedule::insert_pos_from(ps, x, j)],
        ),
    decreases ps.len() - j,
{
    if j < ps.len() && !crate::schedule::pair_lt(x, ps[j]) {
        lemma_insert_pos(ps, x, j + 1);
    }
}

proof fn lemma_insert_sorted(ps: Seq<(u64, u8)>, x: (u64, u8))
    requires
        pending_sorted(ps),
    ensures
        pending_sorted(crate::schedule::insert_sorted(ps, x)),
{
    lemma_insert_pos(ps, x, 0);
    let pos = crate::schedule::insert_pos_from(ps, x, 0);
    let q = ps.insert(pos, x);
    assert forall|i: int, j: int| 0 <= i < j < q.len() implies !crate::schedule::pair_lt(
        q[j],
        q[i],
    ) by {
        if i < pos && j < pos {
            assert(q[i] == ps[i] && q[j] == ps[j]);
        } else if i < pos && j == pos {
            assert(q[i] == ps[i] && q[j] == x);
        } else if i < pos {
            assert(q[i] == ps[i] && q[j] == ps[j - 1]);
        } else if i == pos {
            assert(q[i] == x && q[j] == ps[j - 1]);
            if j - 1 > pos {
                assert(!crate::schedule::pair_lt(ps[j - 1], ps[pos]));
            }
        } else {
            assert(q[i] == ps[i - 1] && q[j] == ps[j - 1]);
        }
    }
}

/// A released note's Note-Off lands on its release tick: the tick of the
/// new last event is the release tick of the pending entry it came from.
pub proof fn lemma_release_on_time(s: ChannelModel)
    requires
        clock_ok(s),
        s.pending.len() > 0,
        release_first(s) is Ok,
    ensures
        clock_ok(release_first(s)->Ok_0),
        abs_time(release_first(s)->Ok_0.events) == s.pending[0].0,
        release_first(s)->Ok_0.events.last() == (crate::schedule::NoteEvent {
            delta: release_first(s)->Ok_0.events.last().delta,
            on: false,
            pitch: s.pending[0].1,
        }),
{
    let s2 = release_first(s)->Ok_0;
    let e = s2.events.last();
    assert(s2.events =~= s.events.push(e));
    lemma_abs_push(s.events, e);
    assert(s.pending[0].0 >= s.elapsed);
    assert forall|k: int| 0 <= k < s2.pending.len() implies (#[trigger] s2.pending[k]).0
        >= s2.elapsed by {
        assert(s2.pending[k] == s.pending[k + 1]);
        assert(!crate::schedule::pair_lt(s.pending[k + 1], s.pending[0]));
    }
}

proof fn lemma_drain_clock_ok(s: ChannelModel, term: u64)
    requires
        clock_ok(s),
        s.elapsed <= term,
        drain(s, term) is Ok,
    ensures
        clock_ok(drain(s, term)->Ok_0),
    decreases s.pending.len(),
{
    if s.pending.len() > 0 && s.pending[0].0 <= term {
        lemma_release_on_time(s);
        lemma_drain_clock_ok(release_first(s)->Ok_0, term);
    } else {
        let s2 = drain(s, term)->Ok_0;
        assert forall|k: int| 0 <= k < s2.pending.len() implies (#[trigger] s2.pending[k]).0
            >= s2.elapsed by {
            if k > 0 {
                assert(!crate::schedule::pair_lt(s.pending[k], s.pending[0]));
            }
        }
    }
}

proof fn lemma_flush_clock_ok(s: ChannelModel)
    requires
        clock_ok(s),
        crate::schedule::flush(s) is Ok,
    ensures
        clock_ok(crate::schedule::flush(s)->Ok_0),
    decreases s.pending.len(),
{
    if s.pending.len() > 0 {
        lemma_release_on_time(s);
        lemma_flush_clock_ok(release_first(s)->Ok_0);
    }
}

/// A note starts on the clock and is due `step × multiplier` ticks later:
/// each pitch of a chord gets a Note-On at the current tick and a pending
/// release at `target`.
pub proof fn lemma_sound_on_time(s: ChannelModel, ps: Seq<i32>, i: int, target: u64)
    requires
        clock_ok(s),
        target >= s.elapsed,
        sound_from(s, ps, i, target) is Ok,
    ensures
        clock_ok(sound_from(s, ps, i, target)->Ok_0),
        0 <= i < ps.len() ==> {
            let s2 = ChannelModel {
                events: s.events.push(
                    crate::schedule::NoteEvent { delta: s.delta, on: true, pitch: crate::schedule::pitch_of(ps[i]) },
                ),
                delta: 0,
                pending: crate::schedule::insert_sorted(s.pending, (target, crate::schedule::pitch_of(ps[i]))),
                ..s
            };
            abs_time(s2.events) == s.elapsed && s2.pending.contains((target, crate::schedule::pitch_of(ps[i])))
        },
    decreases ps.len() - i,
{
    if 0 <= i < ps.len() {
        let x = (target, crate::schedule::pitch_of(ps[i]));
        let e = crate::schedule::NoteEvent { delta: s.delta, on: true, pitch: crate::schedule::pitch_of(ps[i]) };
        let s2 = ChannelModel {
            events: s.events.push(e),
            delta: 0,
            pending: crate::schedule::insert_sorted(s.pending, x),
            ..s
        };
        lemma_abs_push(s.events, e);
        lemma_insert_sorted(s.pending, x);
        lemma_insert_pos(s.pending, x, 0);
        let pos = crate::schedule::insert_pos_from(s.pending, x, 0);
        assert(s2.pending[pos] == x);
        assert forall|k: int| 0 <= k < s2.pending.len() implies (#[trigger] s2.pending[k]).0
            >= s2.elapsed by {
            if k < pos {
                assert(s2.pending[k] == s.pending[k]);
            } else if k > pos {
                assert(s2.pending[k] == s.pending[k - 1]);
            }
        }
        lemma_sound_on_time(s2, ps, i + 1, target);
    }
}

proof fn lemma_unit_clock_ok(s: ChannelModel, u: UnitModel)
    requires
        clock_ok(s),
        play_unit(s, u) is Ok,
    ensures
        clock_ok(play_unit(s, u)->Ok_0),
{
    match u {
        UnitModel::Rest => {
            lemma_drain_clock_ok(s, (s.elapsed + s.tick_step) as u64);
        },
        UnitModel::Note(ps, len) => {
            let m = crate::schedule::multiplier(len);
            let target = (s.elapsed + s.tick_step * m) as u64;
            assert(s.tick_step * m >= 0) by (nonlinear_arith)
                requires
                    m >= 0,
            ;
            lemma_sound_on_time(s, ps, 0, target);
            lemma_sound_clock(s, ps, 0, target);
            let s2 = sound_from(s, ps, 0, target)->Ok_0;
            lemma_drain_clock_ok(s2, (s2.elapsed + s2.tick_step) as u64);
        },
        _ => {},
    }
}

proof fn lemma_measure_clock_ok(s: ChannelModel, m: Seq<UnitModel>, k: int)
    requires
        clock_ok(s),
        play_measure_from(s, m, k) is Ok,
    ensures
        clock_ok(play_measure_from(s, m, k)->Ok_0),
    decreases m.len() - k,
{
    if 0 <= k < m.len() {
        lemma_unit_clock_ok(s, m[k]);
        lemma_measure_clock_ok(play_unit(s, m[k])->Ok_0, m, k + 1);
    }
}

proof fn lemma_phrase_clock_ok(s: ChannelModel, p: Seq<Seq<UnitModel>>, j: int)
    requires
        clock_ok(s),
        play_phrase_from(s, p, j) is Ok,
    ensures
        clock_ok(play_phrase_from(s, p, j)->Ok_0),
    decreases p.len() - j,
{
    if 0 <= j < p.len() {
        lemma_measure_clock_ok(s, p[j], 0);
        lemma_phrase_clock_ok(play_measure_from(s, p[j], 0)->Ok_0, p, j + 1);
    }
}

/// The clock stays consistent over a whole track and the final release, so
/// at every release of the channel `lemma_release_on_time` applies: each
/// Note-Off lands on the release tick its note was given when it started.
pub proof fn lemma_track_clock_ok(s: ChannelModel, t: Seq<Seq<Seq<UnitModel>>>, i: int)
    requires
        clock_ok(s),
        play_track_from(s, t, i) is Ok,
    ensures
        clock_ok(play_track_from(s, t, i)->Ok_0),
        crate::schedule::flush(play_track_from(s, t, i)->Ok_0) is Ok ==> clock_ok(
            crate::schedule::flush(play_track_from(s, t, i)->Ok_0)->Ok_0,
        ),
    decreases t.len() - i,
{
    if 0 <= i < t.len() {
        lemma_phrase_clock_ok(s, t[i], 0);
        lemma_track_clock_ok(play_phrase_from(s, t[i], 0)->Ok_0, t, i + 1);
    } else {
        if crate::schedule::flush(play_track_from(s, t, i)->Ok_0) is Ok {
            lemma_flush_clock_ok(s);
        }
    }
}

} // verus!
