//! One sample of a station: every quantity of the catalog, each present or
//! absent on its own.

use vstd::prelude::*;
use crate::decimal::{parse_units, Decimal, SCALE};
use crate::error::AppError;
use crate::field::{Field, Kind, FIELD_COUNT};
use crate::text::{chars_of, text_equals};
use crate::whole::{parse_unsigned, parse_whole};

verus! {

/// One sample. A quantity that is `None` was not reported; it is not zero.
/// `extra` holds, in the order sent, the pairs whose key the catalog does
/// not know.
#[derive(Debug, Clone, PartialEq, Eq)]
pub struct WeatherData {
    pub tempf: Option<Decimal>,
    pub humidity: Option<u8>,
    pub windspeedmph: Option<Decimal>,
    pub windgustmph: Option<Decimal>,
    pub maxdailygust: Option<Decimal>,
    pub winddir: Option<u16>,
    pub winddir_avg10m: Option<u16>,
    pub uv: Option<u8>,
    pub solarradiation: Option<Decimal>,
    pub hourlyrainin: Option<Decimal>,
    pub eventrainin: Option<Decimal>,
    pub dailyrainin: Option<Decimal>,
    pub weeklyrainin: Option<Decimal>,
    pub monthlyrainin: Option<Decimal>,
    pub yearlyrainin: Option<Decimal>,
    pub tempinf: Option<Decimal>,
    pub humidityin: Option<u8>,
    pub baromrelin: Option<Decimal>,
    pub baromabsin: Option<Decimal>,
    pub battout: Option<u8>,
    pub battin: Option<u8>,
    pub extra: Vec<(String, String)>,
}

/// The units of a decimal quantity, if it is present.
pub open spec fn decimal_units(v: Option<Decimal>) -> Option<int> {
    match v {
        Some(d) => Some(d@),
        None => None,
    }
}

/// The units of a whole quantity of one byte, if it is present.
pub open spec fn byte_units(v: Option<u8>) -> Option<int> {
    match v {
        Some(n) => Some(n * SCALE),
        None => None,
    }
}

/// The units of a whole quantity of two bytes, if it is present.
pub open spec fn word_units(v: Option<u16>) -> Option<int> {
    match v {
        Some(n) => Some(n * SCALE),
        None => None,
    }
}

/// Pairs of key and value as plain text.
pub open spec fn pairs_view(pairs: Seq<(String, String)>) -> Seq<(Seq<char>, Seq<char>)> {
    pairs.map_values(|p: (String, String)| (p.0@, p.1@))
}

/// The value of the last pair of `pairs` whose key is `key`, if there is
/// one: of several values sent under one key the last one counts.
pub open spec fn last_value(pairs: Seq<(Seq<char>, Seq<char>)>, key: Seq<char>) -> Option<
    Seq<char>,
>
    decreases pairs.len(),
{
    if pairs.len() == 0 {
        None
    } else if pairs.last().0 == key {
        Some(pairs.last().1)
    } else {
        last_value(pairs.drop_last(), key)
    }
}

/// The units of a whole number, if there is one.
pub open spec fn whole_units(n: Option<int>) -> Option<int> {
    match n {
        Some(n) => Some(n * SCALE),
        None => None,
    }
}

/// What `text` reads as for a quantity of kind `kind`, in units; `None` if
/// it does not read as that kind.
pub open spec fn read_units(kind: Kind, text: Seq<char>) -> Option<int> {
    match kind {
        Kind::Decimal => parse_units(text),
        Kind::Byte => whole_units(parse_whole(text, 255)),
        Kind::Word => whole_units(parse_whole(text, 65535)),
    }
}

/// The text that `pairs` sends for `field`, if any.
pub open spec fn sent(pairs: Seq<(Seq<char>, Seq<char>)>, field: Field) -> Option<Seq<char>> {
    last_value(pairs, field.spec_key())
}

/// Whether `pairs` sends a text for `field` that does not read as the
/// quantity's kind.
pub open spec fn misread(pairs: Seq<(Seq<char>, Seq<char>)>, field: Field) -> bool {
    sent(pairs, field) matches Some(text) && read_units(field.spec_kind(), text) is None
}

/// The units that `pairs` sends for `field`; `None` where they send none.
pub open spec fn decoded_units(pairs: Seq<(Seq<char>, Seq<char>)>, field: Field) -> Option<int> {
    match sent(pairs, field) {
        Some(text) => read_units(field.spec_kind(), text),
        None => None,
    }
}

/// The pairs of `pairs` whose key the catalog does not know, in order.
pub open spec fn unknown_pairs(pairs: Seq<(Seq<char>, Seq<char>)>) -> Seq<
    (Seq<char>, Seq<char>),
> {
    pairs.filter(|p: (Seq<char>, Seq<char>)| !Field::is_known_key(p.0))
}

/// Whether `e` reports the first quantity, in catalog order, that `pairs`
/// send a misread text for, with its key and that text.
pub open spec fn reports_first_misread(pairs: Seq<(Seq<char>, Seq<char>)>, e: AppError) -> bool {
    exists|field: Field|
        {
            &&& misread(pairs, field)
            &&& forall|earlier: Field|
                earlier.spec_index() < field.spec_index() ==> !misread(pairs, earlier)
            &&& e matches AppError::ParseError { key, value }
            &&& key@ == field.spec_key()
            &&& sent(pairs, field) == Some(value@)
        }
}

/// What decoding `pairs` must give: a sample that holds every quantity as
/// sent and every unknown pair, if no text is misread; else the report of
/// the first misread one.
pub open spec fn decodes_to(pairs: Seq<(Seq<char>, Seq<char>)>, r: Result<WeatherData, AppError>) -> bool {
    match r {
        Ok(data) => {
            &&& forall|field: Field|
                !misread(pairs, field) && data.units(field) == decoded_units(pairs, field)
            &&& pairs_view(data.extra@) == unknown_pairs(pairs)
        },
        Err(e) => reports_first_misread(pairs, e),
    }
}

/// Pairs that send nothing send no quantity and misread none, so that the
/// empty input decodes to the sample in which everything is absent.
pub proof fn lemma_nothing_sent(field: Field)
    ensures
        decoded_units(Seq::empty(), field) is None,
        !misread(Seq::empty(), field),
        unknown_pairs(Seq::empty()) == Seq::<(Seq<char>, Seq<char>)>::empty(),
{
    reveal(Seq::filter);
}

/// A pair whose key the catalog does not know changes nothing of what is
/// sent for any quantity: it can make no decoding fail, nor change what a
/// decoding gives for a quantity.
pub proof fn lemma_unknown_pair_is_ignored(
    pairs: Seq<(Seq<char>, Seq<char>)>,
    key: Seq<char>,
    value: Seq<char>,
    field: Field,
)
    requires
        !Field::is_known_key(key),
    ensures
        sent(pairs.push((key, value)), field) == sent(pairs, field),
        misread(pairs.push((key, value)), field) == misread(pairs, field),
        decoded_units(pairs.push((key, value)), field) == decoded_units(pairs, field),
{
    assert(pairs.push((key, value)).drop_last() =~= pairs);
    assert(field.spec_key() != key);
}

/// Of several values sent under one key of the catalog, the last decides.
pub proof fn lemma_last_pair_decides(
    pairs: Seq<(Seq<char>, Seq<char>)>,
    value: Seq<char>,
    field: Field,
)
    ensures
        sent(pairs.push((field.spec_key(), value)), field) == Some(value),
        decoded_units(pairs.push((field.spec_key(), value)), field) == read_units(
            field.spec_kind(),
            value,
        ),
{
}

/// A pair sent for one quantity changes nothing of what is sent for
/// another.
pub proof fn lemma_other_quantity_unchanged(
    pairs: Seq<(Seq<char>, Seq<char>)>,
    value: Seq<char>,
    field: Field,
    other: Field,
)
    requires
        field != other,
    ensures
        sent(pairs.push((field.spec_key(), value)), other) == sent(pairs, other),
        decoded_units(pairs.push((field.spec_key(), value)), other) == decoded_units(pairs, other),
{
    Field::lemma_keys_distinct(field, other);
    assert(pairs.push((field.spec_key(), value)).drop_last() =~= pairs);
}

/// Whether a decoded value fits the kind of its quantity: a whole quantity
/// holds a whole number within its kind's range.
pub open spec fn fits_kind(kind: Kind, v: Option<Decimal>) -> bool {
    v matches Some(d) ==> match kind {
        Kind::Decimal => true,
        Kind::Byte => d@ % (SCALE as int) == 0 && 0 <= d@ <= 255 * SCALE,
        Kind::Word => d@ % (SCALE as int) == 0 && 0 <= d@ <= 65535 * SCALE,
    }
}

/// The index of the last pair of `pairs` whose key is `key`.
fn find_last(pairs: &Vec<(String, String)>, key: &Vec<char>) -> (r: Option<usize>)
    ensures
        match r {
            Some(i) => i < pairs.len() && last_value(pairs_view(pairs@), key@) == Some(
                pairs@[i as int].1@,
            ),
            None => last_value(pairs_view(pairs@), key@) is None,
        },
{
    let ghost pv = pairs_view(pairs@);
    let mut i: usize = pairs.len();
    proof {
        assert(pv.take(i as int) =~= pv);
    }
    while i > 0
        invariant
            0 <= i <= pairs.len(),
            pv == pairs_view(pairs@),
            last_value(pv, key@) == last_value(pv.take(i as int), key@),
        decreases i,
    {
        proof {
            assert(pv.take(i as int).drop_last() =~= pv.take(i - 1));
            assert(pv.take(i as int).last() == pv[i - 1]);
        }
        i -= 1;
        if text_equals(pairs[i].0.as_str(), key) {
            return Some(i);
        }
    }
    None
}

/// Reads `text` as the kind of number that `field` stands for.
pub fn read_field(field: Field, text: &str) -> (r: Option<Decimal>)
    ensures
        decimal_units(r) == read_units(field.spec_kind(), text@),
        fits_kind(field.spec_kind(), r),
{
    match field.kind() {
        Kind::Decimal => Decimal::parse(text),
        Kind::Byte => match parse_unsigned(text, 255) {
            Some(n) => Some(Decimal::from_whole(n)),
            None => None,
        },
        Kind::Word => match parse_unsigned(text, 65535) {
            Some(n) => Some(Decimal::from_whole(n)),
            None => None,
        },
    }
}

/// The quantity `field` as `pairs` send it: absent if no pair has its key,
/// else what the last such pair's value reads as, or the report of that
/// value if it is misread.
pub fn decode_field(pairs: &Vec<(String, String)>, field: Field) -> (r: Result<
    Option<Decimal>,
    AppError,
>)
    ensures
        match r {
            Ok(v) => {
                &&& !misread(pairs_view(pairs@), field)
                &&& decimal_units(v) == decoded_units(pairs_view(pairs@), field)
                &&& fits_kind(field.spec_kind(), v)
            },
            Err(e) => {
                &&& misread(pairs_view(pairs@), field)
                &&& e matches AppError::ParseError { key, value }
                &&& key@ == field.spec_key()
                &&& sent(pairs_view(pairs@), field) == Some(value@)
            },
        },
{
    let key = chars_of(field.key());
    match find_last(pairs, &key) {
        Some(i) => {
            let text = &pairs[i].1;
            match read_field(field, text.as_str()) {
                Some(d) => Ok(Some(d)),
                None => Err(
                    AppError::ParseError {
                        key: field.key().to_owned(),
                        value: text.clone(),
                    },
                ),
            }
        },
        None => Ok(None),
    }
}

/// The pairs of `pairs` whose key the catalog does not know, in order.
fn unknown(pairs: &Vec<(String, String)>) -> (extra: Vec<(String, String)>)
    ensures
        pairs_view(extra@) == unknown_pairs(pairs_view(pairs@)),
{
    let ghost pv = pairs_view(pairs@);
    let ghost keep = |p: (Seq<char>, Seq<char>)| !Field::is_known_key(p.0);
    let mut extra: Vec<(String, String)> = Vec::new();
    let mut i: usize = 0;
    proof {
        reveal(Seq::filter);
        assert(pv.take(0) =~= Seq::empty());
        assert(pairs_view(extra@) =~= Seq::empty());
    }
    while i < pairs.len()
        invariant
            0 <= i <= pairs.len(),
            pv == pairs_view(pairs@),
            keep == |p: (Seq<char>, Seq<char>)| !Field::is_known_key(p.0),
            pairs_view(extra@) == pv.take(i as int).filter(keep),
        decreases pairs.len() - i,
    {
        proof {
            reveal(Seq::filter);
            assert(pv.take(i + 1).drop_last() =~= pv.take(i as int));
            assert(pv.take(i + 1).last() == pv[i as int]);
        }
        if Field::from_key(pairs[i].0.as_str()).is_none() {
            let ghost before = extra@;
            extra.push((pairs[i].0.clone(), pairs[i].1.clone()));
            proof {
                assert(pairs_view(extra@) =~= pairs_view(before).push(pv[i as int]));
            }
        }
        i += 1;
    }
    proof {
        assert(pv.take(pairs.len() as int) =~= pv);
    }
    extra
}

/// A whole quantity of one byte out of its decimal.
fn byte_of(v: Option<Decimal>) -> (r: Option<u8>)
    requires
        fits_kind(Kind::Byte, v),
    ensures
        byte_units(r) == decimal_units(v),
{
    match v {
        Some(d) => Some((d.units() / SCALE) as u8),
        None => None,
    }
}

/// A whole quantity of two bytes out of its decimal.
fn word_of(v: Option<Decimal>) -> (r: Option<u16>)
    requires
        fits_kind(Kind::Word, v),
    ensures
        word_units(r) == decimal_units(v),
{
    match v {
        Some(d) => Some((d.units() / SCALE) as u16),
        None => None,
    }
}

impl WeatherData {
    /// Decodes a sample from pairs of key and value. Each key of the
    /// catalog is looked up, the last pair that has it counts, and its value
    /// is read as the quantity's kind; a quantity without a pair is absent.
    /// Pairs with other keys go to `extra` and never fail the decoding. The
    /// first quantity, in catalog order, whose value is misread fails it.
    pub fn from_pairs(pairs: &Vec<(String, String)>) -> (r: Result<WeatherData, AppError>)
        ensures
            decodes_to(pairs_view(pairs@), r),
    {
        let ghost pv = pairs_view(pairs@);
        let mut values: Vec<Option<Decimal>> = Vec::new();
        let mut i: usize = 0;
        while i < FIELD_COUNT
            invariant
                0 <= i <= FIELD_COUNT,
                pv == pairs_view(pairs@),
                values@.len() == i,
                forall|j: int|
                    0 <= j < i ==> {
                        &&& !misread(pv, Field::spec_at(j))
                        &&& decimal_units(#[trigger] values@[j]) == decoded_units(
                            pv,
                            Field::spec_at(j),
                        )
                        &&& fits_kind(Field::spec_at(j).spec_kind(), values@[j])
                    },
            decreases FIELD_COUNT - i,
        {
            let field = Field::nth(i);
            match decode_field(pairs, field) {
                Ok(v) => {
                    values.push(v);
                },
                Err(e) => {
                    proof {
                        assert forall|earlier: Field|
                            earlier.spec_index() < field.spec_index() implies !misread(
                            pv,
                            earlier,
                        ) by {
                            earlier.lemma_index_at();
                            assert(values@[earlier.spec_index()] == values@[earlier.spec_index()]);
                        }
                    }
                    return Err(e);
                },
            }
            i += 1;
        }
        let extra = unknown(pairs);
        let data = WeatherData {
            tempf: values[0],
            humidity: byte_of(values[1]),
            windspeedmph: values[2],
            windgustmph: values[3],
            maxdailygust: values[4],
            winddir: word_of(values[5]),
            winddir_avg10m: word_of(values[6]),
            uv: byte_of(values[7]),
            solarradiation: values[8],
            hourlyrainin: values[9],
            eventrainin: values[10],
            dailyrainin: values[11],
            weeklyrainin: values[12],
            monthlyrainin: values[13],
            yearlyrainin: values[14],
            tempinf: values[15],
            humidityin: byte_of(values[16]),
            baromrelin: values[17],
            baromabsin: values[18],
            battout: byte_of(values[19]),
            battin: byte_of(values[20]),
            extra,
        };
        proof {
            assert forall|field: Field|
                !misread(pv, field) && data.units(field) == decoded_units(pv, field) by {
                field.lemma_index_at();
                assert(values@[field.spec_index()] == values@[field.spec_index()]);
            }
        }
        Ok(data)
    }

    /// The quantity `field` of the sample in units of one ten-thousandth,
    /// if it is present.
    pub open spec fn units(self, field: Field) -> Option<int> {
        match field {
            Field::Temperature => decimal_units(self.tempf),
            Field::Humidity => byte_units(self.humidity),
            Field::WindSpeed => decimal_units(self.windspeedmph),
            Field::WindGust => decimal_units(self.windgustmph),
            Field::MaxDailyGust => decimal_units(self.maxdailygust),
            Field::WindDirection => word_units(self.winddir),
            Field::WindDirectionAvg => word_units(self.winddir_avg10m),
            Field::UvIndex => byte_units(self.uv),
            Field::SolarRadiation => decimal_units(self.solarradiation),
            Field::RainHourly => decimal_units(self.hourlyrainin),
            Field::RainEvent => decimal_units(self.eventrainin),
            Field::RainDaily => decimal_units(self.dailyrainin),
            Field::RainWeekly => decimal_units(self.weeklyrainin),
            Field::RainMonthly => decimal_units(self.monthlyrainin),
            Field::RainYearly => decimal_units(self.yearlyrainin),
            Field::TemperatureIndoor => decimal_units(self.tempinf),
            Field::HumidityIndoor => byte_units(self.humidityin),
            Field::BarometerRelative => decimal_units(self.baromrelin),
            Field::BarometerAbsolute => decimal_units(self.baromabsin),
            Field::BatteryOutdoor => byte_units(self.battout),
            Field::BatteryIndoor => byte_units(self.battin),
        }
    }

    /// Whether no quantity of the catalog is present.
    pub open spec fn is_blank(self) -> bool {
        forall|field: Field| self.units(field) is None
    }

    /// The sample in which nothing is present.
    pub fn empty() -> (data: WeatherData)
        ensures
            data.is_blank(),
            data.extra@.len() == 0,
    {
        WeatherData {
            tempf: None,
            humidity: None,
            windspeedmph: None,
            windgustmph: None,
            maxdailygust: None,
            winddir: None,
            winddir_avg10m: None,
            uv: None,
            solarradiation: None,
            hourlyrainin: None,
            eventrainin: None,
            dailyrainin: None,
            weeklyrainin: None,
            monthlyrainin: None,
            yearlyrainin: None,
            tempinf: None,
            humidityin: None,
            baromrelin: None,
            baromabsin: None,
            battout: None,
            battin: None,
            extra: Vec::new(),
        }
    }

    /// The quantity `field` of the sample as a decimal, if it is present.
    pub fn value(&self, field: Field) -> (r: Option<Decimal>)
        ensures
            r is Some <==> self.units(field) is Some,
            r matches Some(d) ==> self.units(field) == Some(d@),
    {
        match field {
            Field::Temperature => self.tempf,
            Field::Humidity => whole_byte(self.humidity),
            Field::WindSpeed => self.windspeedmph,
            Field::WindGust => self.windgustmph,
            Field::MaxDailyGust => self.maxdailygust,
            Field::WindDirection => whole_word(self.winddir),
            Field::WindDirectionAvg => whole_word(self.winddir_avg10m),
            Field::UvIndex => whole_byte(self.uv),
            Field::SolarRadiation => self.solarradiation,
            Field::RainHourly => self.hourlyrainin,
            Field::RainEvent => self.eventrainin,
            Field::RainDaily => self.dailyrainin,
            Field::RainWeekly => self.weeklyrainin,
            Field::RainMonthly => self.monthlyrainin,
            Field::RainYearly => self.yearlyrainin,
            Field::TemperatureIndoor => self.tempinf,
            Field::HumidityIndoor => whole_byte(self.humidityin),
            Field::BarometerRelative => self.baromrelin,
            Field::BarometerAbsolute => self.baromabsin,
            Field::BatteryOutdoor => whole_byte(self.battout),
            Field::BatteryIndoor => whole_byte(self.battin),
        }
    }
}

impl Default for WeatherData {
    /// The sample in which nothing is present.
    fn default() -> (data: WeatherData)
        ensures
            data.is_blank(),
            data.extra@.len() == 0,
    {
        WeatherData::empty()
    }
}

/// A whole quantity of one byte as a decimal.
fn whole_byte(v: Option<u8>) -> (r: Option<Decimal>)
    ensures
        r is Some <==> v is Some,
        r matches Some(d) ==> byte_units(v) == Some(d@),
{
    match v {
        Some(n) => Some(Decimal::from_whole(n as u16)),
        None => None,
    }
}

/// A whole quantity of two bytes as a decimal.
fn whole_word(v: Option<u16>) -> (r: Option<Decimal>)
    ensures
        r is Some <==> v is Some,
        r matches Some(d) ==> word_units(v) == Some(d@),
{
    match v {
        Some(n) => Some(Decimal::from_whole(n)),
        None => None,
    }
}

} // verus!
