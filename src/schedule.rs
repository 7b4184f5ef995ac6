//! Turning an evaluated track into timed note events on one channel.
//!
//! Time is counted in ticks, `PPQ` to a quarter note. A unit of a measure
//! lasts `tick_step` ticks, `MEASURE_TICKS / denominator` at the start of
//! each track assignment; `<` halves it and `>` doubles it for the rest of
//! that assignment. A note sounds for `tick_step * multiplier` ticks but
//! advances time by one `tick_step` only, so later units play while it
//! sustains. Notes still sounding when an assignment ends stay pending on
//! the channel: a later assignment to the same channel continues the same
//! timeline, and the score's end releases whatever is left.
use crate::error::RuntimeError;
use crate::value::{MeasureUnitValue, TrackValue, UnitModel};
use vstd::prelude::*;

verus! {

pub const PPQ: u64 = 1024;

pub const MEASURE_TICKS: u64 = 4096;

pub const DEFAULT_VELOCITY: u8 = 72;

pub const DEFAULT_DENOMINATOR: u64 = 4;

/// A note event on a channel's track, `delta` ticks after the previous one.
#[derive(Clone, Copy, Debug, PartialEq, Eq, Structural)]
pub struct NoteEvent {
    pub delta: u64,
    pub on: bool,
    pub pitch: u8,
}

/// The accumulating state of one MIDI channel.
#[derive(Debug)]
pub struct ChannelTrack {
    pub channel: u8,
    /// Events emitted so far, in order.
    pub events: Vec<NoteEvent>,
    /// Ticks since the last emitted event.
    pub delta: u64,
    /// Ticks since the channel's first assignment began.
    pub elapsed: u64,
    /// `(release tick, pitch)` of sounding notes, ascending.
    pub pending: Vec<(u64, u8)>,
    /// Length of the next unit.
    pub tick_step: u64,
}

pub struct ChannelModel {
    pub channel: u8,
    pub events: Seq<NoteEvent>,
    pub delta: u64,
    pub elapsed: u64,
    pub pending: Seq<(u64, u8)>,
    pub tick_step: u64,
}

impl View for ChannelTrack {
    type V = ChannelModel;

    open spec fn view(&self) -> ChannelModel {
        ChannelModel {
            channel: self.channel,
            events: self.events@,
            delta: self.delta,
            elapsed: self.elapsed,
            pending: self.pending@,
            tick_step: self.tick_step,
        }
    }
}

/// `r` and the state `s` left behind agree with the outcome `want`.
pub open spec fn outcome(
    r: Result<(), RuntimeError>,
    s: ChannelModel,
    want: Result<ChannelModel, RuntimeError>,
) -> bool {
    match want {
        Ok(w) => r is Ok && s == w,
        Err(e) => r == Err::<(), RuntimeError>(e),
    }
}

pub open spec fn pair_lt(a: (u64, u8), b: (u64, u8)) -> bool {
    a.0 < b.0 || (a.0 == b.0 && a.1 < b.1)
}

/// The first index at or after `j` whose entry is greater than `x`.
pub open spec fn insert_pos_from(p: Seq<(u64, u8)>, x: (u64, u8), j: int) -> int
    decreases p.len() - j,
{
    if j >= p.len() || j < 0 {
        p.len() as int
    } else if pair_lt(x, p[j]) {
        j
    } else {
        insert_pos_from(p, x, j + 1)
    }
}

/// `p` with `x` inserted before the first entry greater than it.
pub open spec fn insert_sorted(p: Seq<(u64, u8)>, x: (u64, u8)) -> Seq<(u64, u8)> {
    p.insert(insert_pos_from(p, x, 0), x)
}

/// Ticks from `elapsed` to `t`, or none if `t` is not later.
pub open spec fn gap(t: u64, elapsed: u64) -> u64 {
    if t >= elapsed {
        (t - elapsed) as u64
    } else {
        0
    }
}

/// Emit the Note-Off of the first pending note, at its release tick.
pub open spec fn release_first(s: ChannelModel) -> Result<ChannelModel, RuntimeError> {
    let (t, p) = s.pending[0];
    let d = s.delta + gap(t, s.elapsed);
    if d > u64::MAX {
        Err(RuntimeError::TickOverflow)
    } else {
        Ok(
            ChannelModel {
                events: s.events.push(NoteEvent { delta: d as u64, on: false, pitch: p }),
                delta: 0,
                elapsed: if t >= s.elapsed { t } else { s.elapsed },
                pending: s.pending.drop_first(),
                ..s
            },
        )
    }
}

/// Release, in order, every pending note due by tick `term`, then move the
/// clock to `term`.
pub open spec fn drain(s: ChannelModel, term: u64) -> Result<ChannelModel, RuntimeError>
    decreases s.pending.len(),
{
    if s.pending.len() > 0 && s.pending[0].0 <= term {
        match release_first(s) {
            Ok(s2) => drain(s2, term),
            Err(e) => Err(e),
        }
    } else {
        let d = s.delta + gap(term, s.elapsed);
        if d > u64::MAX {
            Err(RuntimeError::TickOverflow)
        } else {
            Ok(ChannelModel { delta: d as u64, elapsed: term, ..s })
        }
    }
}

/// Let `step` ticks pass.
pub open spec fn advance(s: ChannelModel, step: u64) -> Result<ChannelModel, RuntimeError> {
    if s.elapsed + step > u64::MAX {
        Err(RuntimeError::TickOverflow)
    } else {
        drain(s, (s.elapsed + step) as u64)
    }
}

/// Release every pending note.
pub open spec fn flush(s: ChannelModel) -> Result<ChannelModel, RuntimeError>
    decreases s.pending.len(),
{
    if s.pending.len() > 0 {
        match release_first(s) {
            Ok(s2) => flush(s2),
            Err(e) => Err(e),
        }
    } else {
        Ok(s)
    }
}

/// The MIDI note number of a pitch: values outside `0..=127` are clamped
/// into it, as the MIDI writer clamps note numbers.
pub open spec fn pitch_of(p: i32) -> u8 {
    if p < 0 {
        0
    } else if p > 127 {
        127
    } else {
        p as u8
    }
}

pub fn to_pitch(p: i32) -> (r: u8)
    ensures
        r == pitch_of(p),
{
    if p < 0 {
        0
    } else if p > 127 {
        127
    } else {
        p as u8
    }
}

/// Start the pitches `ps[i..]` of a chord, all released at tick `target`.
/// Starting notes never fails; the result is a `Result` so that it composes
/// with the steps that can.
pub open spec fn sound_from(s: ChannelModel, ps: Seq<i32>, i: int, target: u64) -> Result<
    ChannelModel,
    RuntimeError,
>
    decreases ps.len() - i,
{
    if i >= ps.len() || i < 0 {
        Ok(s)
    } else {
        sound_from(
            ChannelModel {
                events: s.events.push(NoteEvent { delta: s.delta, on: true, pitch: pitch_of(ps[i]) }),
                delta: 0,
                pending: insert_sorted(s.pending, (target, pitch_of(ps[i]))),
                ..s
            },
            ps,
            i + 1,
            target,
        )
    }
}

/// The length multiplier of a note: 1 when absent; a negative one counts
/// as 0, a note released as soon as it starts.
pub open spec fn multiplier(len: Option<i32>) -> int {
    match len {
        Some(l) => if l < 0 {
            0
        } else {
            l as int
        },
        None => 1,
    }
}

/// Play one unit.
pub open spec fn play_unit(s: ChannelModel, u: UnitModel) -> Result<ChannelModel, RuntimeError> {
    match u {
        UnitModel::TimeDilation => Ok(ChannelModel { tick_step: s.tick_step / 2, ..s }),
        UnitModel::TimeCompression => if s.tick_step * 2 > u64::MAX {
            Err(RuntimeError::TickOverflow)
        } else {
            Ok(ChannelModel { tick_step: (s.tick_step * 2) as u64, ..s })
        },
        UnitModel::Rest => advance(s, s.tick_step),
        UnitModel::Note(ps, len) => {
            let m = multiplier(len);
            if s.tick_step * m > u64::MAX || s.elapsed + s.tick_step * m > u64::MAX {
                Err(RuntimeError::TickOverflow)
            } else {
                match sound_from(s, ps, 0, (s.elapsed + s.tick_step * m) as u64) {
                    Ok(s2) => advance(s2, s2.tick_step),
                    Err(e) => Err(e),
                }
            }
        },
    }
}

/// Play the units `m[k..]` of a measure.
pub open spec fn play_measure_from(s: ChannelModel, m: Seq<UnitModel>, k: int) -> Result<
    ChannelModel,
    RuntimeError,
>
    decreases m.len() - k,
{
    if k >= m.len() || k < 0 {
        Ok(s)
    } else {
        match play_unit(s, m[k]) {
            Ok(s2) => play_measure_from(s2, m, k + 1),
            Err(e) => Err(e),
        }
    }
}

/// Play the measures `p[j..]` of a phrase.
pub open spec fn play_phrase_from(s: ChannelModel, p: Seq<Seq<UnitModel>>, j: int) -> Result<
    ChannelModel,
    RuntimeError,
>
    decreases p.len() - j,
{
    if j >= p.len() || j < 0 {
        Ok(s)
    } else {
        match play_measure_from(s, p[j], 0) {
            Ok(s2) => play_phrase_from(s2, p, j + 1),
            Err(e) => Err(e),
        }
    }
}

/// Play the phrases `t[i..]` of a track.
pub open spec fn play_track_from(s: ChannelModel, t: Seq<Seq<Seq<UnitModel>>>, i: int) -> Result<
    ChannelModel,
    RuntimeError,
>
    decreases t.len() - i,
{
    if i >= t.len() || i < 0 {
        Ok(s)
    } else {
        match play_phrase_from(s, t[i], 0) {
            Ok(s2) => play_track_from(s2, t, i + 1),
            Err(e) => Err(e),
        }
    }
}

impl ChannelTrack {
    /// A channel with no events, at tick 0.
    pub fn new(channel: u8) -> (r: ChannelTrack)
        ensures
            r@.channel == channel,
            r@.events == Seq::<NoteEvent>::empty(),
            r@.delta == 0,
            r@.elapsed == 0,
            r@.pending == Seq::<(u64, u8)>::empty(),
            r@.tick_step == MEASURE_TICKS / DEFAULT_DENOMINATOR,
    {
        ChannelTrack {
            channel,
            events: Vec::new(),
            delta: 0,
            elapsed: 0,
            pending: Vec::new(),
            tick_step: MEASURE_TICKS / DEFAULT_DENOMINATOR,
        }
    }

    fn insert_pending(&mut self, target: u64, pitch: u8)
        ensures
            final(self)@ == (ChannelModel {
                pending: insert_sorted(old(self)@.pending, (target, pitch)),
                ..old(self)@
            }),
    {
        let ghost p = self.pending@;
        let mut j: usize = 0;
        while j < self.pending.len() && !(target < self.pending[j].0 || (target
            == self.pending[j].0 && pitch < self.pending[j].1))
            invariant
                self@ == old(self)@,
                p == self.pending@,
                j <= p.len(),
                insert_pos_from(p, (target, pitch), j as int) == insert_pos_from(p, (target, pitch), 0),
            decreases p.len() - j,
        {
            j = j + 1;
        }
        self.pending.insert(j, (target, pitch));
    }

    fn release_first(&mut self) -> (r: Result<(), RuntimeError>)
        requires
            old(self)@.pending.len() > 0,
        ensures
            outcome(r, final(self)@, release_first(old(self)@)),
    {
        let (t, p) = self.pending[0];
        let g = if t >= self.elapsed {
            t - self.elapsed
        } else {
            0
        };
        match self.delta.checked_add(g) {
            None => Err(RuntimeError::TickOverflow),
            Some(d) => {
                self.events.push(NoteEvent { delta: d, on: false, pitch: p });
                self.delta = 0;
                if t >= self.elapsed {
                    self.elapsed = t;
                }
                self.pending.remove(0);
                proof {
                    assert(self.pending@ =~= old(self)@.pending.drop_first());
                }
                Ok(())
            },
        }
    }

    fn drain(&mut self, term: u64) -> (r: Result<(), RuntimeError>)
        ensures
            outcome(r, final(self)@, drain(old(self)@, term)),
    {
        while self.pending.len() > 0 && self.pending[0].0 <= term
            invariant
                drain(self@, term) == drain(old(self)@, term),
            decreases self.pending.len(),
        {
            let r = self.release_first();
            if r.is_err() {
                return r;
            }
        }
        let g = if term >= self.elapsed {
            term - self.elapsed
        } else {
            0
        };
        match self.delta.checked_add(g) {
            None => Err(RuntimeError::TickOverflow),
            Some(d) => {
                self.delta = d;
                self.elapsed = term;
                Ok(())
            },
        }
    }

    fn advance(&mut self, step: u64) -> (r: Result<(), RuntimeError>)
        ensures
            outcome(r, final(self)@, advance(old(self)@, step)),
    {
        match self.elapsed.checked_add(step) {
            None => Err(RuntimeError::TickOverflow),
            Some(term) => self.drain(term),
        }
    }

    /// Release every note still sounding, in order of release tick.
    pub fn flush(&mut self) -> (r: Result<(), RuntimeError>)
        ensures
            outcome(r, final(self)@, flush(old(self)@)),
    {
        while self.pending.len() > 0
            invariant
                flush(self@) == flush(old(self)@),
            decreases self.pending.len(),
        {
            let r = self.release_first();
            if r.is_err() {
                return r;
            }
        }
        Ok(())
    }

    fn sound(&mut self, ps: &Vec<i32>, target: u64) -> (r: Result<(), RuntimeError>)
        ensures
            outcome(r, final(self)@, sound_from(old(self)@, ps@, 0, target)),
    {
        let mut i: usize = 0;
        while i < ps.len()
            invariant
                i <= ps.len(),
                sound_from(self@, ps@, i as int, target) == sound_from(old(self)@, ps@, 0, target),
            decreases ps.len() - i,
        {
            let p = to_pitch(ps[i]);
            self.events.push(NoteEvent { delta: self.delta, on: true, pitch: p });
            self.delta = 0;
            self.insert_pending(target, p);
            i = i + 1;
        }
        Ok(())
    }

    /// Play one unit of a measure.
    pub fn play_unit(&mut self, u: &MeasureUnitValue) -> (r: Result<(), RuntimeError>)
        ensures
            outcome(r, final(self)@, play_unit(old(self)@, u@)),
    {
        match u {
            MeasureUnitValue::TimeDilation => {
                self.tick_step = self.tick_step / 2;
                Ok(())
            },
            MeasureUnitValue::TimeCompression => match self.tick_step.checked_mul(2) {
                None => Err(RuntimeError::TickOverflow),
                Some(t) => {
                    self.tick_step = t;
                    Ok(())
                },
            },
            MeasureUnitValue::Rest => self.advance(self.tick_step),
            MeasureUnitValue::NoteValue(n) => {
                let m: i32 = match n.len {
                    Some(l) => if l < 0 {
                        0
                    } else {
                        l
                    },
                    None => 1,
                };
                let ticks = match self.tick_step.checked_mul(m as u64) {
                    None => return Err(RuntimeError::TickOverflow),
                    Some(t) => t,
                };
                let target = match self.elapsed.checked_add(ticks) {
                    None => return Err(RuntimeError::TickOverflow),
                    Some(t) => t,
                };
                let r = self.sound(&n.notes, target);
                if r.is_err() {
                    return r;
                }
                self.advance(self.tick_step)
            },
        }
    }

    /// Play a whole track: its phrases, their measures, their units, in order.
    pub fn play_track(&mut self, t: &TrackValue) -> (r: Result<(), RuntimeError>)
        ensures
            outcome(r, final(self)@, play_track_from(old(self)@, t@, 0)),
    {
        let mut i: usize = 0;
        while i < t.content.len()
            invariant
                i <= t.content.len(),
                play_track_from(self@, t@, i as int) == play_track_from(old(self)@, t@, 0),
            decreases t.content.len() - i,
        {
            let phrase = &t.content[i];
            let ghost s_phrase = self@;
            let mut j: usize = 0;
            while j < phrase.content.len()
                invariant
                    i < t.content.len(),
                    phrase == t.content[i as int],
                    play_track_from(s_phrase, t@, i as int) == play_track_from(old(self)@, t@, 0),
                    j <= phrase.content.len(),
                    play_phrase_from(self@, phrase@, j as int) == play_phrase_from(
                        s_phrase,
                        phrase@,
                        0,
                    ),
                decreases phrase.content.len() - j,
            {
                let measure = &phrase.content[j];
                let ghost s_measure = self@;
                let mut k: usize = 0;
                while k < measure.content.len()
                    invariant
                        i < t.content.len(),
                        phrase == t.content[i as int],
                        j < phrase.content.len(),
                        play_track_from(s_phrase, t@, i as int) == play_track_from(old(self)@, t@, 0),
                        play_phrase_from(s_measure, phrase@, j as int) == play_phrase_from(
                            s_phrase,
                            phrase@,
                            0,
                        ),
                        measure == phrase.content[j as int],
                        k <= measure.content.len(),
                        play_measure_from(self@, measure@, k as int) == play_measure_from(
                            s_measure,
                            measure@,
                            0,
                        ),
                    decreases measure.content.len() - k,
                {
                    let r = self.play_unit(&measure.content[k]);
                    if r.is_err() {
                        proof {
                            assert(measure@[k as int] == measure.content@[k as int]@);
                            assert(phrase@[j as int] == measure@);
                            assert(t@[i as int] == phrase@);
                            let e = play_measure_from(s_measure, measure@, 0);
                            assert(e is Err);
                            assert(play_phrase_from(s_measure, phrase@, j as int) == e);
                            assert(play_track_from(s_phrase, t@, i as int) == e);
                        }
                        return r;
                    }
                    k = k + 1;
                }
                j = j + 1;
            }
            i = i + 1;
        }
        Ok(())
    }
}

} // verus!
