//! Writing a plan into a Standard MIDI File through the `midi_file` crate.
//!
//! The file has the crate's default division of 1024 ticks per quarter
//! note. The meta track comes first, then one track per channel in the
//! order of the channels' first assignment.
use crate::error::{Error, RuntimeError};
use crate::plan::{MetaEvent, ScorePlan};
use crate::schedule::{ChannelTrack, NoteEvent, DEFAULT_VELOCITY};
use midi_file::MidiFile;
use vstd::prelude::*;

verus! {

/// The largest delta time a MIDI file can store.
pub const MAX_DELTA: u64 = 0x0FFF_FFFF;

#[verifier::external_type_specification]
#[verifier::external_body]
pub struct ExMidiFile(midi_file::MidiFile);

/// A track of the MIDI writer, under construction.
#[verifier::external_body]
pub struct MidiTrack {
    inner: midi_file::file::Track,
}

/// The note value that a time signature's denominator names.
#[derive(Clone, Copy, Debug, PartialEq, Eq, Structural)]
pub enum Denominator {
    Whole,
    Half,
    Quarter,
    Eighth,
    Sixteenth,
    D32,
    D64,
    D128,
    D256,
    D512,
    D1024,
}

/// The note value named by a denominator, for the denominators a time
/// signature may have.
pub open spec fn denominator_of(d: u16) -> Option<Denominator> {
    if d == 1 {
        Some(Denominator::Whole)
    } else if d == 2 {
        Some(Denominator::Half)
    } else if d == 4 {
        Some(Denominator::Quarter)
    } else if d == 8 {
        Some(Denominator::Eighth)
    } else if d == 16 {
        Some(Denominator::Sixteenth)
    } else if d == 32 {
        Some(Denominator::D32)
    } else if d == 64 {
        Some(Denominator::D64)
    } else if d == 128 {
        Some(Denominator::D128)
    } else if d == 256 {
        Some(Denominator::D256)
    } else if d == 512 {
        Some(Denominator::D512)
    } else if d == 1024 {
        Some(Denominator::D1024)
    } else {
        None
    }
}

pub fn to_denominator(d: u16) -> (r: Option<Denominator>)
    ensures
        r == denominator_of(d),
{
    match d {
        1 => Some(Denominator::Whole),
        2 => Some(Denominator::Half),
        4 => Some(Denominator::Quarter),
        8 => Some(Denominator::Eighth),
        16 => Some(Denominator::Sixteenth),
        32 => Some(Denominator::D32),
        64 => Some(Denominator::D64),
        128 => Some(Denominator::D128),
        256 => Some(Denominator::D256),
        512 => Some(Denominator::D512),
        1024 => Some(Denominator::D1024),
        _ => None,
    }
}

/// An event as the writer stores it.
#[derive(Clone, Copy, Debug, PartialEq, Eq, Structural)]
pub enum EventModel {
    /// Channel, note number, velocity.
    NoteOn(u8, u8, u8),
    NoteOff(u8, u8, u8),
    /// Tempo in quarter notes per minute, at least 3 (see `stored_tempo`).
    Tempo(u8),
    /// Numerator and denominator, with a click every quarter note.
    TimeSignature(u8, Denominator),
    /// Channel and program.
    ProgramChange(u8, u8),
    EndOfTrack,
}

/// The events a track holds, with their delta times, in order.
pub uninterp spec fn track_events(t: MidiTrack) -> Seq<(u32, EventModel)>;

/// The tracks a file holds, each as its events.
pub uninterp spec fn file_tracks(f: midi_file::MidiFile) -> Seq<Seq<(u32, EventModel)>>;

/// The file is in the multi-track format, which takes any number of tracks.
pub uninterp spec fn is_multi_track(f: midi_file::MidiFile) -> bool;

/// The writer's channel numbers: larger values are clamped to 15.
pub open spec fn channel_of(x: u8) -> u8 {
    if x > 15 {
        15
    } else {
        x
    }
}

/// The writer's 7-bit numbers: larger values are clamped to 127.
pub open spec fn seven_bit(x: u8) -> u8 {
    if x > 127 {
        127
    } else {
        x
    }
}

/// The tempo a file stores for `q` quarter notes per minute: the slowest
/// it can store stands for every tempo up to 3.
pub open spec fn stored_tempo(q: u8) -> u8 {
    if q <= 3 {
        3
    } else {
        q
    }
}

/// A track as a file stores it: ended by an end-of-track event.
pub open spec fn with_end(es: Seq<(u32, EventModel)>) -> Seq<(u32, EventModel)> {
    if es.len() > 0 && es.last().1 == EventModel::EndOfTrack {
        es
    } else {
        es.push((0, EventModel::EndOfTrack))
    }
}

/// Relies on `MidiFile::new`: a file with no tracks, in the multi-track
/// format.
#[verifier::external_body]
fn new_file() -> (r: MidiFile)
    ensures
        file_tracks(r) == Seq::<Seq<(u32, EventModel)>>::empty(),
        is_multi_track(r),
{
    MidiFile::new()
}

/// Relies on `Track::default`: a track with no events.
#[verifier::external_body]
fn new_track() -> (r: MidiTrack)
    ensures
        track_events(r) == Seq::<(u32, EventModel)>::empty(),
{
    MidiTrack { inner: midi_file::file::Track::default() }
}

/// Relies on `Track::push_note_on`: it appends a note-on event, and fails,
/// adding nothing, exactly when the delta time exceeds the largest one a
/// file can store. `Channel`, `NoteNumber` and `Velocity` clamp their values.
#[verifier::external_body]
fn push_note_on(t: &mut MidiTrack, delta: u32, channel: u8, pitch: u8, velocity: u8) -> (r: bool)
    ensures
        r <==> delta <= MAX_DELTA,
        track_events(*final(t)) == if r {
            track_events(*old(t)).push(
                (delta, EventModel::NoteOn(channel_of(channel), seven_bit(pitch), seven_bit(velocity))),
            )
        } else {
            track_events(*old(t))
        },
{
    t.inner.push_note_on(
        delta,
        midi_file::core::Channel::new(channel),
        midi_file::core::NoteNumber::new(pitch),
        midi_file::core::Velocity::new(velocity),
    ).is_ok()
}

/// Relies on `Track::push_note_off`: as `push_note_on`, for a note-off event.
#[verifier::external_body]
fn push_note_off(t: &mut MidiTrack, delta: u32, channel: u8, pitch: u8, velocity: u8) -> (r: bool)
    ensures
        r <==> delta <= MAX_DELTA,
        track_events(*final(t)) == if r {
            track_events(*old(t)).push(
                (delta, EventModel::NoteOff(channel_of(channel), seven_bit(pitch), seven_bit(velocity))),
            )
        } else {
            track_events(*old(t))
        },
{
    t.inner.push_note_off(
        delta,
        midi_file::core::Channel::new(channel),
        midi_file::core::NoteNumber::new(pitch),
        midi_file::core::Velocity::new(velocity),
    ).is_ok()
}

/// Relies on `Track::push_tempo` at delta 0, which does not fail. It stores
/// the tempo as microseconds per quarter note, 60,000,000 / q, clamped to
/// at most 16,777,215 (after `QuartersPerMinute` turns 0 into 1): every
/// tempo up to 3 is stored as the same slowest event, `Tempo(3)` here, and
/// every tempo from 4 up as an event of its own.
#[verifier::external_body]
fn push_tempo(t: &mut MidiTrack, quarters_per_minute: u8) -> (r: bool)
    ensures
        r,
        track_events(*final(t)) == track_events(*old(t)).push(
            (0, EventModel::Tempo(stored_tempo(quarters_per_minute))),
        ),
{
    t.inner.push_tempo(0, midi_file::file::QuartersPerMinute::new(quarters_per_minute)).is_ok()
}

/// Relies on `Track::push_time_signature` at delta 0, with a quarter-note
/// metronome click; it fails, adding nothing, exactly when the numerator is 0.
#[verifier::external_body]
fn push_time_signature(t: &mut MidiTrack, numerator: u8, denominator: Denominator) -> (r: bool)
    ensures
        r <==> numerator > 0,
        track_events(*final(t)) == if r {
            track_events(*old(t)).push((0, EventModel::TimeSignature(numerator, denominator)))
        } else {
            track_events(*old(t))
        },
{
    let d = match denominator {
        Denominator::Whole => midi_file::core::DurationName::Whole,
        Denominator::Half => midi_file::core::DurationName::Half,
        Denominator::Quarter => midi_file::core::DurationName::Quarter,
        Denominator::Eighth => midi_file::core::DurationName::Eighth,
        Denominator::Sixteenth => midi_file::core::DurationName::Sixteenth,
        Denominator::D32 => midi_file::core::DurationName::D32,
        Denominator::D64 => midi_file::core::DurationName::D64,
        Denominator::D128 => midi_file::core::DurationName::D128,
        Denominator::D256 => midi_file::core::DurationName::D256,
        Denominator::D512 => midi_file::core::DurationName::D512,
        Denominator::D1024 => midi_file::core::DurationName::D1024,
    };
    t.inner.push_time_signature(0, numerator, d, midi_file::core::Clocks::Quarter).is_ok()
}

/// Relies on `Track::push_event` at delta 0, which does not fail, with a
/// program change; `Channel` and `Program` clamp their values.
#[verifier::external_body]
fn push_program_change(t: &mut MidiTrack, channel: u8, program: u8) -> (r: bool)
    ensures
        r,
        track_events(*final(t)) == track_events(*old(t)).push(
            (0, EventModel::ProgramChange(channel_of(channel), seven_bit(program))),
        ),
{
    let value = midi_file::core::ProgramChangeValue::new(
        midi_file::core::Channel::new(channel),
        midi_file::core::Program::new(program),
    );
    let event = midi_file::file::Event::Midi(midi_file::core::Message::ProgramChange(value));
    t.inner.push_event(0, event).is_ok()
}

/// Relies on `MidiFile::push_track`: in the multi-track format it appends
/// the track, ended by an end-of-track event if it lacks one, unless the
/// file already holds `u32::MAX` tracks; then it fails and adds nothing.
#[verifier::external_body]
fn push_track(f: &mut MidiFile, t: MidiTrack) -> (r: bool)
    requires
        is_multi_track(*old(f)),
    ensures
        is_multi_track(*final(f)),
        r <==> file_tracks(*old(f)).len() < u32::MAX,
        file_tracks(*final(f)) == if r {
            file_tracks(*old(f)).push(with_end(track_events(t)))
        } else {
            file_tracks(*old(f))
        },
{
    f.push_track(t.inner).is_ok()
}

fn writer_error() -> (r: Error)
    ensures
        r == Error::RuntimeError(RuntimeError::MidiWriter),
{
    Error::RuntimeError(RuntimeError::MidiWriter)
}

/// A meta event the writer can store: a time signature with a numerator
/// and one of the denominators a file names.
pub open spec fn meta_writable(m: MetaEvent) -> bool {
    match m {
        MetaEvent::TimeSignature(n, d) => n > 0 && denominator_of(d) is Some,
        _ => true,
    }
}

/// The event a meta event is written as, at delta 0.
pub open spec fn meta_event(m: MetaEvent) -> (u32, EventModel) {
    match m {
        MetaEvent::Tempo(q) => (0, EventModel::Tempo(stored_tempo(q))),
        MetaEvent::TimeSignature(n, d) => (0, EventModel::TimeSignature(n, denominator_of(d)->Some_0)),
        MetaEvent::Instrument(ch, p) => (0, EventModel::ProgramChange(channel_of(ch), seven_bit(p))),
    }
}

/// The event a note event of channel `ch` is written as, at velocity 72.
pub open spec fn note_event(ch: u8, e: NoteEvent) -> (u32, EventModel) {
    (
        e.delta as u32,
        if e.on {
            EventModel::NoteOn(channel_of(ch), seven_bit(e.pitch), DEFAULT_VELOCITY)
        } else {
            EventModel::NoteOff(channel_of(ch), seven_bit(e.pitch), DEFAULT_VELOCITY)
        },
    )
}

pub open spec fn meta_events(meta: Seq<MetaEvent>) -> Seq<(u32, EventModel)> {
    meta.map_values(|m: MetaEvent| meta_event(m))
}

pub open spec fn note_events(ch: u8, evs: Seq<NoteEvent>) -> Seq<(u32, EventModel)> {
    evs.map_values(|e: NoteEvent| note_event(ch, e))
}

/// The meta track: tempo, time signatures and programs, in statement order.
pub fn meta_track(plan: &ScorePlan) -> (r: Result<MidiTrack, Error>)
    ensures
        r is Ok <==> forall|i: int| 0 <= i < plan.meta@.len() ==> meta_writable(#[trigger] plan.meta@[i]),
        r is Err ==> r == Err::<MidiTrack, Error>(Error::RuntimeError(RuntimeError::MidiWriter)),
        r matches Ok(t) ==> track_events(t) == meta_events(plan.meta@),
{
    let mut t = new_track();
    let mut i: usize = 0;
    while i < plan.meta.len()
        invariant
            i <= plan.meta.len(),
            forall|k: int| 0 <= k < i ==> meta_writable(#[trigger] plan.meta@[k]),
            track_events(t) == meta_events(plan.meta@.subrange(0, i as int)),
        decreases plan.meta.len() - i,
    {
        let ok = match plan.meta[i] {
            MetaEvent::Tempo(q) => push_tempo(&mut t, q),
            MetaEvent::TimeSignature(n, d) => match to_denominator(d) {
                Some(dn) => push_time_signature(&mut t, n, dn),
                None => false,
            },
            MetaEvent::Instrument(ch, p) => push_program_change(&mut t, ch, p),
        };
        if !ok {
            return Err(writer_error());
        }
        proof {
            assert(plan.meta@.subrange(0, i + 1) =~= plan.meta@.subrange(0, i as int).push(
                plan.meta@[i as int],
            ));
            assert(meta_events(plan.meta@.subrange(0, i + 1)) =~= meta_events(
                plan.meta@.subrange(0, i as int),
            ).push(meta_event(plan.meta@[i as int])));
        }
        i = i + 1;
    }
    assert(plan.meta@.subrange(0, i as int) =~= plan.meta@);
    Ok(t)
}

/// One channel's track: its note events, in order, at velocity 72.
pub fn channel_track(c: &ChannelTrack) -> (r: Result<MidiTrack, Error>)
    ensures
        r is Ok <==> forall|i: int| 0 <= i < c.events@.len() ==> (#[trigger] c.events@[i]).delta <= MAX_DELTA,
        r is Err ==> r == Err::<MidiTrack, Error>(Error::RuntimeError(RuntimeError::MidiWriter)),
        r matches Ok(t) ==> track_events(t) == note_events(c.channel, c.events@),
{
    let mut t = new_track();
    let mut i: usize = 0;
    while i < c.events.len()
        invariant
            i <= c.events.len(),
            forall|k: int| 0 <= k < i ==> (#[trigger] c.events@[k]).delta <= MAX_DELTA,
            track_events(t) == note_events(c.channel, c.events@.subrange(0, i as int)),
        decreases c.events.len() - i,
    {
        let ev = c.events[i];
        if ev.delta > MAX_DELTA {
            return Err(writer_error());
        }
        let ok = if ev.on {
            push_note_on(&mut t, ev.delta as u32, c.channel, ev.pitch, DEFAULT_VELOCITY)
        } else {
            push_note_off(&mut t, ev.delta as u32, c.channel, ev.pitch, DEFAULT_VELOCITY)
        };
        if !ok {
            return Err(writer_error());
        }
        proof {
            assert(c.events@.subrange(0, i + 1) =~= c.events@.subrange(0, i as int).push(ev));
            assert(note_events(c.channel, c.events@.subrange(0, i + 1)) =~= note_events(
                c.channel,
                c.events@.subrange(0, i as int),
            ).push(note_event(c.channel, ev)));
        }
        i = i + 1;
    }
    assert(c.events@.subrange(0, i as int) =~= c.events@);
    Ok(t)
}

/// The events of a plan can all be written: every meta event is writable
/// and every delta fits.
pub open spec fn writable(plan: crate::plan::PlanModel) -> bool {
    &&& forall|i: int| 0 <= i < plan.meta.len() ==> meta_writable(#[trigger] plan.meta[i])
    &&& forall|c: int, i: int|
        0 <= c < plan.channels.len() && 0 <= i < plan.channels[c].events.len() ==> (
        #[trigger] plan.channels[c].events[i]).delta <= MAX_DELTA
}

/// The tracks of a plan's file: the meta track, then one track per
/// channel in the plan's order, each ended by an end-of-track event.
pub open spec fn plan_tracks(plan: crate::plan::PlanModel) -> Seq<Seq<(u32, EventModel)>> {
    seq![with_end(meta_events(plan.meta))] + plan.channels.map_values(
        |c: crate::schedule::ChannelModel| with_end(note_events(c.channel, c.events)),
    )
}

/// The MIDI file of a plan. It is written exactly when the plan is
/// writable (and the track count fits); otherwise the error is `MidiWriter`.
pub fn render_midi(plan: &ScorePlan) -> (r: Result<MidiFile, Error>)
    ensures
        r is Err ==> r == Err::<MidiFile, Error>(Error::RuntimeError(RuntimeError::MidiWriter)),
        plan.channels@.len() + 1 < u32::MAX ==> (r is Ok <==> writable(plan@)),
        r matches Ok(f) ==> file_tracks(f) == plan_tracks(plan@),
{
    let mut f = new_file();
    let meta = match meta_track(plan) {
        Ok(t) => t,
        Err(x) => {
            proof {
                let i = choose|i: int| 0 <= i < plan.meta@.len() && !meta_writable(plan.meta@[i]);
                assert(!meta_writable(plan@.meta[i]));
            }
            return Err(x);
        },
    };
    if !push_track(&mut f, meta) {
        return Err(writer_error());
    }
    let ghost cs = plan@.channels;
    let mut i: usize = 0;
    while i < plan.channels.len()
        invariant
            i <= plan.channels.len(),
            cs == plan@.channels,
            is_multi_track(f),
            forall|k: int| 0 <= k < plan.meta@.len() ==> meta_writable(#[trigger] plan.meta@[k]),
            forall|c: int, k: int|
                0 <= c < i && 0 <= k < cs[c].events.len() ==> (#[trigger] cs[c].events[k]).delta
                    <= MAX_DELTA,
            file_tracks(f) == plan_tracks(
                crate::plan::PlanModel { channels: cs.subrange(0, i as int), ..plan@ },
            ),
        decreases plan.channels.len() - i,
    {
        assert(cs[i as int] == plan.channels@[i as int]@);
        let t = match channel_track(&plan.channels[i]) {
            Ok(t) => t,
            Err(x) => {
                proof {
                    let k = choose|k: int|
                        0 <= k < plan.channels@[i as int].events@.len() && !(
                        plan.channels@[i as int].events@[k].delta <= MAX_DELTA);
                    assert(!(cs[i as int].events[k].delta <= MAX_DELTA));
                }
                return Err(x);
            },
        };
        let ghost before = file_tracks(f);
        if !push_track(&mut f, t) {
            proof {
                assert(before.len() == i + 1);
            }
            return Err(writer_error());
        }
        proof {
            let p0 = crate::plan::PlanModel { channels: cs.subrange(0, i as int), ..plan@ };
            let p1 = crate::plan::PlanModel { channels: cs.subrange(0, i + 1), ..plan@ };
            assert(cs.subrange(0, i + 1) =~= cs.subrange(0, i as int).push(cs[i as int]));
            assert(plan_tracks(p1) =~= plan_tracks(p0).push(
                with_end(note_events(cs[i as int].channel, cs[i as int].events)),
            ));
        }
        i = i + 1;
    }
    assert(cs.subrange(0, i as int) =~= cs);
    proof {
        assert(plan@ == (crate::plan::PlanModel { channels: cs, ..plan@ }));
    }
    Ok(f)
}

} // verus!
