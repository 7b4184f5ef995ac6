//! The score's statements applied to evaluated arguments: the meta track
//! (tempo, time signature, instruments) and one timeline per channel.
use crate::error::RuntimeError;
use crate::schedule::{
    flush, play_track_from, ChannelModel, ChannelTrack, DEFAULT_DENOMINATOR,
    MEASURE_TICKS,
};
use crate::value::TrackValue;
use vstd::prelude::*;

verus! {

/// An event of the meta track, all at delta 0.
#[derive(Clone, Copy, Debug, PartialEq, Eq, Structural)]
pub enum MetaEvent {
    /// Quarter notes per minute.
    Tempo(u8),
    /// Numerator and denominator.
    TimeSignature(u8, u16),
    /// General-MIDI program for a channel.
    Instrument(u8, u8),
}

/// Everything a score produces, in the order the MIDI file will hold it.
#[derive(Debug)]
pub struct ScorePlan {
    pub meta: Vec<MetaEvent>,
    /// Channel timelines, in order of their first assignment.
    pub channels: Vec<ChannelTrack>,
    /// Denominator of the current time signature.
    pub denominator: u64,
}

pub struct PlanModel {
    pub meta: Seq<MetaEvent>,
    pub channels: Seq<ChannelModel>,
    pub denominator: u64,
}

impl View for ScorePlan {
    type V = PlanModel;

    open spec fn view(&self) -> PlanModel {
        PlanModel {
            meta: self.meta@,
            channels: self.channels@.map_values(|c: ChannelTrack| c@),
            denominator: self.denominator,
        }
    }
}

pub open spec fn plan_outcome(
    r: Result<(), RuntimeError>,
    p: PlanModel,
    want: Result<PlanModel, RuntimeError>,
) -> bool {
    match want {
        Ok(w) => r is Ok && p == w,
        Err(e) => r == Err::<(), RuntimeError>(e),
    }
}

/// The denominators a time signature may have.
pub open spec fn valid_denominator(d: int) -> bool {
    d == 1 || d == 2 || d == 4 || d == 8 || d == 16 || d == 32 || d == 64 || d == 128 || d == 256
        || d == 512 || d == 1024
}

/// Ticks of one unit at the start of a track under denominator `d`.
pub open spec fn base_step(d: u64) -> u64 {
    if d == 0 {
        MEASURE_TICKS
    } else {
        MEASURE_TICKS / d
    }
}

/// Index of channel `ch`'s timeline, or the length when it has none yet.
pub open spec fn channel_index_from(cs: Seq<ChannelModel>, ch: u8, k: int) -> int
    decreases cs.len() - k,
{
    if k >= cs.len() || k < 0 {
        cs.len() as int
    } else if cs[k].channel == ch {
        k
    } else {
        channel_index_from(cs, ch, k + 1)
    }
}

pub open spec fn fresh_channel(ch: u8) -> ChannelModel {
    ChannelModel {
        channel: ch,
        events: Seq::empty(),
        delta: 0,
        elapsed: 0,
        pending: Seq::empty(),
        tick_step: MEASURE_TICKS / DEFAULT_DENOMINATOR,
    }
}

pub open spec fn set_tempo(p: PlanModel, n: i32) -> Result<PlanModel, RuntimeError> {
    if 0 <= n <= 255 {
        Ok(PlanModel { meta: p.meta.push(MetaEvent::Tempo(n as u8)), ..p })
    } else {
        Err(RuntimeError::BadTempo)
    }
}

pub open spec fn set_time_signature(p: PlanModel, top: i32, bottom: i32) -> Result<
    PlanModel,
    RuntimeError,
> {
    if 1 <= top <= 255 && valid_denominator(bottom as int) {
        Ok(
            PlanModel {
                meta: p.meta.push(MetaEvent::TimeSignature(top as u8, bottom as u16)),
                denominator: bottom as u64,
                ..p
            },
        )
    } else {
        Err(RuntimeError::BadTimeSignature)
    }
}

pub open spec fn set_channel_instrument(p: PlanModel, ch: i32, instr: i32) -> Result<
    PlanModel,
    RuntimeError,
> {
    if !(0 <= ch <= 15) {
        Err(RuntimeError::BadChannel)
    } else if !(0 <= instr <= 127) {
        Err(RuntimeError::BadInstrument)
    } else {
        Ok(PlanModel { meta: p.meta.push(MetaEvent::Instrument(ch as u8, instr as u8)), ..p })
    }
}

/// Append the events of track `t` to channel `ch`'s timeline.
pub open spec fn set_channel_track(p: PlanModel, ch: i32, t: Seq<Seq<Seq<crate::value::UnitModel>>>) -> Result<
    PlanModel,
    RuntimeError,
> {
    if !(0 <= ch <= 15) {
        Err(RuntimeError::BadChannel)
    } else {
        let k = channel_index_from(p.channels, ch as u8, 0);
        let start = if k < p.channels.len() {
            p.channels[k]
        } else {
            fresh_channel(ch as u8)
        };
        match play_track_from(ChannelModel { tick_step: base_step(p.denominator), ..start }, t, 0) {
            Ok(s) => Ok(
                PlanModel {
                    channels: if k < p.channels.len() {
                        p.channels.update(k, s)
                    } else {
                        p.channels.push(s)
                    },
                    ..p
                },
            ),
            Err(e) => Err(e),
        }
    }
}

/// Release what still sounds on the channels `cs[k..]`.
pub open spec fn flush_from(cs: Seq<ChannelModel>, k: int) -> Result<Seq<ChannelModel>, RuntimeError>
    decreases cs.len() - k,
{
    if k >= cs.len() || k < 0 {
        Ok(cs)
    } else {
        match flush(cs[k]) {
            Ok(c) => flush_from(cs.update(k, c), k + 1),
            Err(e) => Err(e),
        }
    }
}

impl ScorePlan {
    /// An empty score under the default time signature.
    pub fn new() -> (r: ScorePlan)
        ensures
            r@.meta == Seq::<MetaEvent>::empty(),
            r@.channels == Seq::<ChannelModel>::empty(),
            r@.denominator == DEFAULT_DENOMINATOR,
    {
        let r = ScorePlan { meta: Vec::new(), channels: Vec::new(), denominator: DEFAULT_DENOMINATOR };
        assert(r@.channels =~= Seq::<ChannelModel>::empty());
        r
    }

    pub fn set_tempo(&mut self, n: i32) -> (r: Result<(), RuntimeError>)
        ensures
            plan_outcome(r, final(self)@, set_tempo(old(self)@, n)),
    {
        if n < 0 || n > 255 {
            return Err(RuntimeError::BadTempo);
        }
        self.meta.push(MetaEvent::Tempo(n as u8));
        Ok(())
    }

    pub fn set_time_signature(&mut self, top: i32, bottom: i32) -> (r: Result<(), RuntimeError>)
        ensures
            plan_outcome(r, final(self)@, set_time_signature(old(self)@, top, bottom)),
    {
        let ok_bottom = bottom == 1 || bottom == 2 || bottom == 4 || bottom == 8 || bottom == 16
            || bottom == 32 || bottom == 64 || bottom == 128 || bottom == 256 || bottom == 512
            || bottom == 1024;
        if top < 1 || top > 255 || !ok_bottom {
            return Err(RuntimeError::BadTimeSignature);
        }
        self.meta.push(MetaEvent::TimeSignature(top as u8, bottom as u16));
        self.denominator = bottom as u64;
        Ok(())
    }

    pub fn set_channel_instrument(&mut self, ch: i32, instr: i32) -> (r: Result<(), RuntimeError>)
        ensures
            plan_outcome(r, final(self)@, set_channel_instrument(old(self)@, ch, instr)),
    {
        if ch < 0 || ch > 15 {
            return Err(RuntimeError::BadChannel);
        }
        if instr < 0 || instr > 127 {
            return Err(RuntimeError::BadInstrument);
        }
        self.meta.push(MetaEvent::Instrument(ch as u8, instr as u8));
        Ok(())
    }

    pub fn set_channel_track(&mut self, ch: i32, t: &TrackValue) -> (r: Result<(), RuntimeError>)
        ensures
            plan_outcome(r, final(self)@, set_channel_track(old(self)@, ch, t@)),
    {
        if ch < 0 || ch > 15 {
            return Err(RuntimeError::BadChannel);
        }
        let c = ch as u8;
        let ghost cs = self@.channels;
        let mut k: usize = 0;
        while k < self.channels.len() && self.channels[k].channel != c
            invariant
                self@ == old(self)@,
                cs == self@.channels,
                k <= self.channels.len(),
                channel_index_from(cs, c, k as int) == channel_index_from(cs, c, 0),
            decreases self.channels.len() - k,
        {
            k = k + 1;
        }
        let base = if self.denominator == 0 {
            MEASURE_TICKS
        } else {
            MEASURE_TICKS / self.denominator
        };
        if k < self.channels.len() {
            let mut track = self.channels.remove(k);
            assert(track@ == cs[k as int]);
            track.tick_step = base;
            let r = track.play_track(t);
            if r.is_err() {
                return r;
            }
            self.channels.insert(k, track);
            proof {
                assert(self@.channels =~= cs.update(k as int, track@));
            }
            Ok(())
        } else {
            let mut track = ChannelTrack::new(c);
            track.tick_step = base;
            let r = track.play_track(t);
            if r.is_err() {
                return r;
            }
            self.channels.push(track);
            proof {
                assert(self@.channels =~= cs.push(track@));
            }
            Ok(())
        }
    }

    /// Release, on every channel, the notes still sounding.
    pub fn finish(&mut self) -> (r: Result<(), RuntimeError>)
        ensures
            match flush_from(old(self)@.channels, 0) {
                Ok(cs) => r is Ok && final(self)@ == (PlanModel { channels: cs, ..old(self)@ }),
                Err(e) => r == Err::<(), RuntimeError>(e),
            },
    {
        let mut k: usize = 0;
        while k < self.channels.len()
            invariant
                k <= self.channels.len(),
                self@.meta == old(self)@.meta,
                self@.denominator == old(self)@.denominator,
                flush_from(self@.channels, k as int) == flush_from(old(self)@.channels, 0),
            decreases self.channels.len() - k,
        {
            let ghost cs = self@.channels;
            let mut track = self.channels.remove(k);
            assert(track@ == cs[k as int]);
            let r = track.flush();
            if r.is_err() {
                return r;
            }
            self.channels.insert(k, track);
            proof {
                assert(self@.channels =~= cs.update(k as int, track@));
            }
            k = k + 1;
        }
        Ok(())
    }
}

} // verus!
