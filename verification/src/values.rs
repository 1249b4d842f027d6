//! What the gauges hold. A gauge keeps the value written last; a sample
//! overwrites the gauges of the quantities it holds and leaves the others
//! as they are.

use vstd::prelude::*;
use crate::decimal::{round, round_units, step, Decimal};
use crate::field::{Field, FIELD_COUNT};
use crate::weather::WeatherData;

verus! {

/// One overwrite of one gauge.
#[derive(Debug, Clone, Copy, PartialEq, Eq)]
pub struct GaugeWrite {
    pub field: Field,
    pub value: Decimal,
}

/// The value that the gauge of `field` is set to by `data`, in units: the
/// quantity rounded to the gauge's precision, if it is present.
pub open spec fn written(data: WeatherData, field: Field) -> Option<int> {
    match data.units(field) {
        Some(units) => Some(round_units(units, step(field.spec_places()))),
        None => None,
    }
}

/// The overwrites that `data` asks for among the first `count` quantities
/// of the catalog, in catalog order.
pub open spec fn writes_of(data: WeatherData, count: int) -> Seq<(Field, int)>
    decreases count,
{
    if count <= 0 {
        Seq::empty()
    } else {
        let field = Field::spec_at(count - 1);
        match written(data, field) {
            Some(value) => writes_of(data, count - 1).push((field, value)),
            None => writes_of(data, count - 1),
        }
    }
}

/// A list of overwrites as pairs of quantity and units.
pub open spec fn writes_view(writes: Seq<GaugeWrite>) -> Seq<(Field, int)> {
    writes.map_values(|w: GaugeWrite| (w.field, w.value@))
}

/// The gauges after one overwrite: the gauge written holds the new value,
/// every other gauge what it held.
pub open spec fn after_write(gauges: Seq<int>, write: (Field, int)) -> Seq<int> {
    gauges.update(write.0.spec_index(), write.1)
}

/// The gauges after the overwrites `writes`, performed in order.
pub open spec fn after_writes(gauges: Seq<int>, writes: Seq<(Field, int)>) -> Seq<int>
    decreases writes.len(),
{
    if writes.len() == 0 {
        gauges
    } else {
        after_write(after_writes(gauges, writes.drop_last()), writes.last())
    }
}

/// The gauges after the sample `data`: the gauge of each quantity that is
/// present holds the quantity rounded to the gauge's precision, every other
/// gauge what it held.
pub open spec fn after_update(gauges: Seq<int>, data: WeatherData) -> Seq<int> {
    Seq::new(
        gauges.len(),
        |i: int|
            match written(data, Field::spec_at(i)) {
                Some(value) => value,
                None => gauges[i],
            },
    )
}

/// The overwrites that `data` asks of the gauges, in catalog order.
pub fn gauge_writes(data: &WeatherData) -> (writes: Vec<GaugeWrite>)
    ensures
        writes_view(writes@) == writes_of(*data, FIELD_COUNT as int),
{
    let mut writes: Vec<GaugeWrite> = Vec::new();
    let mut i: usize = 0;
    while i < FIELD_COUNT
        invariant
            0 <= i <= FIELD_COUNT,
            writes_view(writes@) == writes_of(*data, i as int),
        decreases FIELD_COUNT - i,
    {
        let field = Field::nth(i);
        match data.value(field) {
            Some(value) => {
                let rounded = round(value, field.places());
                let ghost before = writes@;
                writes.push(GaugeWrite { field, value: rounded });
                proof {
                    assert(writes_view(writes@) =~= writes_view(before).push((field, rounded@)));
                }
            },
            None => {},
        }
        i += 1;
    }
    writes
}

/// Performing the overwrites of a sample, in catalog order, gives the gauges
/// after the sample: present quantities are held rounded, the other gauges
/// are untouched.
pub proof fn lemma_writes_give_update(gauges: Seq<int>, data: WeatherData, count: int)
    requires
        gauges.len() == FIELD_COUNT,
        0 <= count <= FIELD_COUNT,
    ensures
        after_writes(gauges, writes_of(data, count)).len() == FIELD_COUNT,
        forall|i: int|
            0 <= i < FIELD_COUNT ==> #[trigger] after_writes(gauges, writes_of(data, count))[i] == (
            if i < count {
                after_update(gauges, data)[i]
            } else {
                gauges[i]
            }),
    decreases count,
{
    if count > 0 {
        lemma_writes_give_update(gauges, data, count - 1);
        let field = Field::spec_at(count - 1);
        Field::lemma_at_index(count - 1);
        match written(data, field) {
            Some(value) => {
                assert(writes_of(data, count).drop_last() =~= writes_of(data, count - 1));
                assert(writes_of(data, count).last() == (field, value));
            },
            None => {},
        }
    }
}

/// Whether no quantity is present in both samples.
pub open spec fn touch_different_gauges(a: WeatherData, b: WeatherData) -> bool {
    forall|field: Field| !(a.units(field) is Some && b.units(field) is Some)
}

/// Two samples that hold different quantities can be taken in either order:
/// the gauges end up the same, and each quantity of either sample is held
/// by its gauge. No write of the one is lost to the other.
pub proof fn lemma_updates_commute(gauges: Seq<int>, a: WeatherData, b: WeatherData)
    requires
        gauges.len() == FIELD_COUNT,
        touch_different_gauges(a, b),
    ensures
        after_update(after_update(gauges, a), b) == after_update(after_update(gauges, b), a),
        forall|field: Field|
            a.units(field) is Some ==> after_update(after_update(gauges, a), b)[field.spec_index()]
                == written(a, field)->0,
        forall|field: Field|
            b.units(field) is Some ==> after_update(after_update(gauges, a), b)[field.spec_index()]
                == written(b, field)->0,
{
    let ab = after_update(after_update(gauges, a), b);
    let ba = after_update(after_update(gauges, b), a);
    assert forall|i: int| 0 <= i < FIELD_COUNT implies ab[i] == ba[i] by {
        let field = Field::spec_at(i);
        assert(!(a.units(field) is Some && b.units(field) is Some));
    }
    assert(ab =~= ba);
    assert forall|field: Field| a.units(field) is Some implies ab[field.spec_index()] == written(
        a,
        field,
    )->0 by {
        field.lemma_index_at();
        assert(!(a.units(field) is Some && b.units(field) is Some));
    }
    assert forall|field: Field| b.units(field) is Some implies ab[field.spec_index()] == written(
        b,
        field,
    )->0 by {
        field.lemma_index_at();
    }
}

/// Taking the same sample in twice leaves the gauges as after the first
/// time.
pub proof fn lemma_update_idempotent(gauges: Seq<int>, data: WeatherData)
    requires
        gauges.len() == FIELD_COUNT,
    ensures
        after_update(after_update(gauges, data), data) == after_update(gauges, data),
{
    assert(after_update(after_update(gauges, data), data) =~= after_update(gauges, data));
}

/// Of two samples taken in one after the other, the later one decides every
/// quantity that it holds, and the earlier one every other quantity that it
/// holds.
pub proof fn lemma_last_update_wins(gauges: Seq<int>, first: WeatherData, second: WeatherData, field: Field)
    requires
        gauges.len() == FIELD_COUNT,
    ensures
        after_update(after_update(gauges, first), second)[field.spec_index()] == (match written(
            second,
            field,
        ) {
            Some(value) => value,
            None => match written(first, field) {
                Some(value) => value,
                None => gauges[field.spec_index()],
            },
        }),
{
    field.lemma_index_at();
}

/// An overwrite is held by its gauge for as long as no later overwrite is
/// for the same gauge, in whatever order the overwrites for other gauges
/// arrive.
pub proof fn lemma_write_is_kept(gauges: Seq<int>, writes: Seq<(Field, int)>, k: int)
    requires
        gauges.len() == FIELD_COUNT,
        0 <= k < writes.len(),
        forall|j: int| k < j < writes.len() ==> writes[j].0 != writes[k].0,
    ensures
        after_writes(gauges, writes).len() == FIELD_COUNT,
        after_writes(gauges, writes)[writes[k].0.spec_index()] == writes[k].1,
    decreases writes.len(),
{
    let rest = writes.drop_last();
    lemma_writes_keep_length(gauges, rest);
    writes[k].0.lemma_index_at();
    writes.last().0.lemma_index_at();
    if k < writes.len() - 1 {
        assert(forall|j: int| 0 <= j < rest.len() ==> rest[j] == writes[j]);
        lemma_write_is_kept(gauges, rest, k);
        assert(writes.last().0 != writes[k].0);
    }
}

/// A gauge that no overwrite is for holds what it held.
pub proof fn lemma_unwritten_is_kept(gauges: Seq<int>, writes: Seq<(Field, int)>, field: Field)
    requires
        gauges.len() == FIELD_COUNT,
        forall|j: int| 0 <= j < writes.len() ==> writes[j].0 != field,
    ensures
        after_writes(gauges, writes)[field.spec_index()] == gauges[field.spec_index()],
    decreases writes.len(),
{
    if writes.len() > 0 {
        let rest = writes.drop_last();
        lemma_writes_keep_length(gauges, rest);
        field.lemma_index_at();
        writes.last().0.lemma_index_at();
        assert(forall|j: int| 0 <= j < rest.len() ==> rest[j] == writes[j]);
        lemma_unwritten_is_kept(gauges, rest, field);
        assert(writes.last().0 != field);
    }
}

/// Overwrites neither add nor remove a gauge.
pub proof fn lemma_writes_keep_length(gauges: Seq<int>, writes: Seq<(Field, int)>)
    requires
        gauges.len() == FIELD_COUNT,
    ensures
        after_writes(gauges, writes).len() == FIELD_COUNT,
    decreases writes.len(),
{
    if writes.len() > 0 {
        lemma_writes_keep_length(gauges, writes.drop_last());
        writes.last().0.lemma_index_at();
    }
}

/// The value of every gauge of the catalog, in catalog order. Every gauge
/// starts at zero.
#[derive(Debug, PartialEq, Eq)]
pub struct GaugeValues {
    values: Vec<Decimal>,
}

impl View for GaugeValues {
    type V = Seq<int>;

    /// The units that each gauge holds, in catalog order.
    closed spec fn view(&self) -> Seq<int> {
        self.values@.map_values(|d: Decimal| d@)
    }
}

impl GaugeValues {
    #[verifier::type_invariant]
    spec fn complete(self) -> bool {
        self.values@.len() == FIELD_COUNT
    }

    /// The gauges of a registry that was never written: all at zero.
    pub fn new() -> (gauges: GaugeValues)
        ensures
            gauges@.len() == FIELD_COUNT,
            forall|i: int| 0 <= i < FIELD_COUNT ==> gauges@[i] == 0,
    {
        let mut values: Vec<Decimal> = Vec::new();
        let mut i: usize = 0;
        while i < FIELD_COUNT
            invariant
                0 <= i <= FIELD_COUNT,
                values@.len() == i,
                forall|j: int| 0 <= j < i ==> (#[trigger] values@[j])@ == 0,
            decreases FIELD_COUNT - i,
        {
            values.push(Decimal::zero());
            i += 1;
        }
        GaugeValues { values }
    }

    /// What the gauge of `field` holds.
    pub fn get(&self, field: Field) -> (value: Decimal)
        ensures
            self@.len() == FIELD_COUNT,
            value@ == self@[field.spec_index()],
    {
        proof {
            use_type_invariant(self);
        }
        self.values[field.index()]
    }

    /// Performs one overwrite.
    pub fn write(&mut self, write: GaugeWrite)
        ensures
            final(self)@ == after_write(old(self)@, (write.field, write.value@)),
            final(self)@.len() == FIELD_COUNT,
    {
        proof {
            use_type_invariant(&*self);
        }
        let mut values: Vec<Decimal> = Vec::new();
        let i = write.field.index();
        let mut j: usize = 0;
        while j < FIELD_COUNT
            invariant
                0 <= j <= FIELD_COUNT,
                i < FIELD_COUNT,
                self.values@.len() == FIELD_COUNT,
                values@.len() == j,
                forall|k: int|
                    0 <= k < j ==> (#[trigger] values@[k])@ == (if k == i {
                        write.value@
                    } else {
                        self.values@[k]@
                    }),
            decreases FIELD_COUNT - j,
        {
            if j == i {
                values.push(write.value);
            } else {
                values.push(self.values[j]);
            }
            j += 1;
        }
        let ghost before = self@;
        self.values = values;
        proof {
            assert(self@ =~= after_write(before, (write.field, write.value@)));
        }
    }

    /// Takes in the sample `data`: the gauge of each quantity that is
    /// present is overwritten with the quantity rounded to the gauge's
    /// precision; every other gauge keeps what it held.
    pub fn update(&mut self, data: &WeatherData)
        ensures
            final(self)@ == after_update(old(self)@, *data),
    {
        proof {
            use_type_invariant(&*self);
        }
        let writes = gauge_writes(data);
        let ghost start = self@;
        let ghost all = writes_view(writes@);
        let mut i: usize = 0;
        while i < writes.len()
            invariant
                0 <= i <= writes.len(),
                all == writes_view(writes@),
                self@ == after_writes(start, all.take(i as int)),
            decreases writes.len() - i,
        {
            proof {
                assert(all.take(i + 1).drop_last() =~= all.take(i as int));
                assert(all.take(i + 1).last() == (writes@[i as int].field, writes@[i as int].value@));
            }
            self.write(writes[i]);
            i += 1;
        }
        proof {
            assert(all.take(writes.len() as int) =~= all);
            lemma_writes_give_update(start, *data, FIELD_COUNT as int);
            assert(self@ =~= after_update(start, *data));
        }
    }
}

} // verus!
