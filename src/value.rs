//! Runtime values and their mathematical models.
use crate::ast::BType;
use vstd::prelude::*;

verus! {

/// An evaluated note: pitches of the chord and optional length multiplier.
#[derive(Debug, PartialEq, Eq)]
pub struct NoteValue {
    pub notes: Vec<i32>,
    pub len: Option<i32>,
}

#[derive(Debug, PartialEq, Eq)]
pub enum MeasureUnitValue {
    TimeDilation,
    TimeCompression,
    Rest,
    NoteValue(NoteValue),
}

#[derive(Debug, PartialEq, Eq)]
pub struct MeasureValue {
    pub content: Vec<MeasureUnitValue>,
}

#[derive(Debug, PartialEq, Eq)]
pub struct PhraseValue {
    pub content: Vec<MeasureValue>,
}

#[derive(Debug, PartialEq, Eq)]
pub struct TrackValue {
    pub content: Vec<PhraseValue>,
}

/// A runtime value. Truth is an `Int`: zero is false.
#[derive(Debug, PartialEq, Eq)]
pub enum Value {
    Int(i32),
    Note(NoteValue),
    Measure(MeasureValue),
    Phrase(PhraseValue),
    Track(TrackValue),
}

/// What an evaluation yields: a value, or nothing from a void call.
#[derive(Debug, PartialEq, Eq)]
pub enum RetVal {
    Value(Value),
    Void,
}

/// Model of a measure unit.
pub enum UnitModel {
    TimeDilation,
    TimeCompression,
    Rest,
    Note(Seq<i32>, Option<i32>),
}

/// Model of a value: the same shape with sequences in place of vectors.
pub enum ValueModel {
    Int(i32),
    Note(Seq<i32>, Option<i32>),
    Measure(Seq<UnitModel>),
    Phrase(Seq<Seq<UnitModel>>),
    Track(Seq<Seq<Seq<UnitModel>>>),
}

impl View for NoteValue {
    type V = (Seq<i32>, Option<i32>);

    open spec fn view(&self) -> (Seq<i32>, Option<i32>) {
        (self.notes@, self.len)
    }
}

impl View for MeasureUnitValue {
    type V = UnitModel;

    open spec fn view(&self) -> UnitModel {
        match self {
            MeasureUnitValue::TimeDilation => UnitModel::TimeDilation,
            MeasureUnitValue::TimeCompression => UnitModel::TimeCompression,
            MeasureUnitValue::Rest => UnitModel::Rest,
            MeasureUnitValue::NoteValue(n) => UnitModel::Note(n.notes@, n.len),
        }
    }
}

impl View for MeasureValue {
    type V = Seq<UnitModel>;

    open spec fn view(&self) -> Seq<UnitModel> {
        self.content@.map_values(|u: MeasureUnitValue| u@)
    }
}

impl View for PhraseValue {
    type V = Seq<Seq<UnitModel>>;

    open spec fn view(&self) -> Seq<Seq<UnitModel>> {
        self.content@.map_values(|m: MeasureValue| m@)
    }
}

impl View for TrackValue {
    type V = Seq<Seq<Seq<UnitModel>>>;

    open spec fn view(&self) -> Seq<Seq<Seq<UnitModel>>> {
        self.content@.map_values(|p: PhraseValue| p@)
    }
}

impl View for Value {
    type V = ValueModel;

    open spec fn view(&self) -> ValueModel {
        match self {
            Value::Int(i) => ValueModel::Int(*i),
            Value::Note(n) => ValueModel::Note(n.notes@, n.len),
            Value::Measure(m) => ValueModel::Measure(m@),
            Value::Phrase(p) => ValueModel::Phrase(p@),
            Value::Track(t) => ValueModel::Track(t@),
        }
    }
}

impl View for RetVal {
    type V = Option<ValueModel>;

    open spec fn view(&self) -> Option<ValueModel> {
        match self {
            RetVal::Value(v) => Some(v@),
            RetVal::Void => None,
        }
    }
}

/// The value a fresh cell of type `t` holds.
pub open spec fn zero_value(t: BType) -> ValueModel {
    match t {
        BType::Int | BType::Bool => ValueModel::Int(0),
        BType::Note => ValueModel::Note(Seq::empty(), None),
        BType::Measure => ValueModel::Measure(Seq::empty()),
        BType::Phrase => ValueModel::Phrase(Seq::empty()),
        BType::Track => ValueModel::Track(Seq::empty()),
    }
}

/// The type a value has by its kind; an integer is an `Int`.
pub open spec fn value_kind(v: ValueModel) -> BType {
    match v {
        ValueModel::Int(_) => BType::Int,
        ValueModel::Note(_, _) => BType::Note,
        ValueModel::Measure(_) => BType::Measure,
        ValueModel::Phrase(_) => BType::Phrase,
        ValueModel::Track(_) => BType::Track,
    }
}

/// Whether a cell declared with type `t` may hold `v`. An integer may stand
/// where a note is expected: it is a one-pitch chord.
pub open spec fn fits(t: BType, v: ValueModel) -> bool {
    match (t, v) {
        (BType::Int, ValueModel::Int(_)) => true,
        (BType::Bool, ValueModel::Int(_)) => true,
        (BType::Note, ValueModel::Int(_)) => true,
        (BType::Note, ValueModel::Note(_, _)) => true,
        (BType::Measure, ValueModel::Measure(_)) => true,
        (BType::Phrase, ValueModel::Phrase(_)) => true,
        (BType::Track, ValueModel::Track(_)) => true,
        _ => false,
    }
}

pub fn zero_of(t: BType) -> (r: Value)
    ensures
        r@ == zero_value(t),
{
    let r = match t {
        BType::Int | BType::Bool => Value::Int(0),
        BType::Note => Value::Note(NoteValue { notes: Vec::new(), len: None }),
        BType::Measure => Value::Measure(MeasureValue { content: Vec::new() }),
        BType::Phrase => Value::Phrase(PhraseValue { content: Vec::new() }),
        BType::Track => Value::Track(TrackValue { content: Vec::new() }),
    };
    proof {
        assert(Seq::<MeasureUnitValue>::empty().map_values(|u: MeasureUnitValue| u@) =~= Seq::empty());
        assert(Seq::<MeasureValue>::empty().map_values(|m: MeasureValue| m@) =~= Seq::empty());
        assert(Seq::<PhraseValue>::empty().map_values(|p: PhraseValue| p@) =~= Seq::empty());
    }
    r
}

pub fn value_fits(t: BType, v: &Value) -> (r: bool)
    ensures
        r == fits(t, v@),
{
    match (t, v) {
        (BType::Int, Value::Int(_)) => true,
        (BType::Bool, Value::Int(_)) => true,
        (BType::Note, Value::Int(_)) => true,
        (BType::Note, Value::Note(_)) => true,
        (BType::Measure, Value::Measure(_)) => true,
        (BType::Phrase, Value::Phrase(_)) => true,
        (BType::Track, Value::Track(_)) => true,
        _ => false,
    }
}

fn copy_ints(v: &Vec<i32>) -> (r: Vec<i32>)
    ensures
        r@ == v@,
{
    let mut r: Vec<i32> = Vec::new();
    let mut i: usize = 0;
    while i < v.len()
        invariant
            i <= v.len(),
            r@ == v@.subrange(0, i as int),
        decreases v.len() - i,
    {
        r.push(v[i]);
        i = i + 1;
    }
    assert(r@ =~= v@);
    r
}

impl NoteValue {
    pub fn copy(&self) -> (r: NoteValue)
        ensures
            r@ == self@,
    {
        NoteValue { notes: copy_ints(&self.notes), len: self.len }
    }
}

impl MeasureUnitValue {
    pub fn copy(&self) -> (r: MeasureUnitValue)
        ensures
            r@ == self@,
    {
        match self {
            MeasureUnitValue::TimeDilation => MeasureUnitValue::TimeDilation,
            MeasureUnitValue::TimeCompression => MeasureUnitValue::TimeCompression,
            MeasureUnitValue::Rest => MeasureUnitValue::Rest,
            MeasureUnitValue::NoteValue(n) => MeasureUnitValue::NoteValue(n.copy()),
        }
    }
}

impl MeasureValue {
    pub fn copy(&self) -> (r: MeasureValue)
        ensures
            r@ == self@,
    {
        let mut out: Vec<MeasureUnitValue> = Vec::new();
        let mut i: usize = 0;
        while i < self.content.len()
            invariant
                i <= self.content.len(),
                out@.len() == i,
                forall|j: int| 0 <= j < i ==> (#[trigger] out@[j])@ == self.content@[j]@,
            decreases self.content.len() - i,
        {
            out.push(self.content[i].copy());
            i = i + 1;
        }
        let r = MeasureValue { content: out };
        assert(r@ =~= self@);
        r
    }
}

impl PhraseValue {
    pub fn copy(&self) -> (r: PhraseValue)
        ensures
            r@ == self@,
    {
        let mut out: Vec<MeasureValue> = Vec::new();
        let mut i: usize = 0;
        while i < self.content.len()
            invariant
                i <= self.content.len(),
                out@.len() == i,
                forall|j: int| 0 <= j < i ==> (#[trigger] out@[j])@ == self.content@[j]@,
            decreases self.content.len() - i,
        {
            out.push(self.content[i].copy());
            i = i + 1;
        }
        let r = PhraseValue { content: out };
        assert(r@ =~= self@);
        r
    }
}

impl TrackValue {
    pub fn copy(&self) -> (r: TrackValue)
        ensures
            r@ == self@,
    {
        let mut out: Vec<PhraseValue> = Vec::new();
        let mut i: usize = 0;
        while i < self.content.len()
            invariant
                i <= self.content.len(),
                out@.len() == i,
                forall|j: int| 0 <= j < i ==> (#[trigger] out@[j])@ == self.content@[j]@,
            decreases self.content.len() - i,
        {
            out.push(self.content[i].copy());
            i = i + 1;
        }
        let r = TrackValue { content: out };
        assert(r@ =~= self@);
        r
    }
}

impl Value {
    pub fn copy(&self) -> (r: Value)
        ensures
            r@ == self@,
    {
        match self {
            Value::Int(i) => Value::Int(*i),
            Value::Note(n) => Value::Note(n.copy()),
            Value::Measure(m) => Value::Measure(m.copy()),
            Value::Phrase(p) => Value::Phrase(p.copy()),
            Value::Track(t) => Value::Track(t.copy()),
        }
    }
}

} // verus!
