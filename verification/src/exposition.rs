//! The text exposition of gauges: what can name a metric, the three lines
//! that expose one gauge, and what the exposition of the whole catalog
//! looks like.

use vstd::prelude::*;
use vstd::utf8::encode_utf8;
use crate::field::Field;
use crate::text::is_digit;

verus! {

/// Whether a metric name may start with `c`: a letter, `_` or `:`.
pub open spec fn is_name_start(c: char) -> bool {
    ('a' <= c && c <= 'z') || ('A' <= c && c <= 'Z') || c == '_' || c == ':'
}

/// Whether `name` can name a metric: it starts with a letter, `_` or `:`,
/// and goes on with these and digits.
pub open spec fn is_metric_name(name: Seq<char>) -> bool {
    &&& name.len() > 0
    &&& is_name_start(name[0])
    &&& forall|i: int| 0 < i < name.len() ==> is_name_start(#[trigger] name[i]) || is_digit(name[i])
}

/// Whether `help` is written into a help line as it is: it is not empty and
/// holds neither a backslash nor a line break.
pub open spec fn is_plain_help(help: Seq<char>) -> bool {
    &&& help.len() > 0
    &&& forall|i: int| 0 <= i < help.len() ==> #[trigger] help[i] != '\\' && help[i] != '\n'
}

/// Whether `a` comes before `b` in the order of their characters: at the
/// first place where they differ `a` has the smaller character, or `a` ends
/// there and `b` goes on.
pub open spec fn text_before(a: Seq<char>, b: Seq<char>) -> bool {
    exists|k: int|
        0 <= k <= a.len() && k < b.len() && #[trigger] a.take(k) == b.take(k) && (k == a.len()
            || (a[k] as int) < (b[k] as int))
}

/// One gauge as it is exposed: name, help text, and value as text.
pub type Sample = (Seq<char>, Seq<char>, Seq<char>);

/// The three lines that expose one gauge: its help text, its type, and its
/// value.
pub open spec fn sample_lines(sample: Sample) -> Seq<char> {
    "# HELP "@ + sample.0 + " "@ + sample.1 + "\n"@ + "# TYPE "@ + sample.0 + " gauge\n"@
        + sample.0 + " "@ + sample.2 + "\n"@
}

/// The text exposition of gauges: the lines of each, one gauge after the
/// other.
pub open spec fn exposition(samples: Seq<Sample>) -> Seq<char>
    decreases samples.len(),
{
    if samples.len() == 0 {
        Seq::empty()
    } else {
        exposition(samples.drop_last()) + sample_lines(samples.last())
    }
}

/// Whether the characters of `name` from `from` on can stand in a metric
/// name.
spec fn goes_on(name: Seq<char>, from: int) -> bool
    decreases name.len() - from,
{
    from >= name.len() || ((is_name_start(name[from]) || is_digit(name[from])) && goes_on(
        name,
        from + 1,
    ))
}

/// What goes on as a metric name does so at every place.
proof fn lemma_goes_on(name: Seq<char>, from: int)
    requires
        0 <= from,
        goes_on(name, from),
    ensures
        forall|i: int|
            from <= i < name.len() ==> is_name_start(#[trigger] name[i]) || is_digit(name[i]),
    decreases name.len() - from,
{
    if from < name.len() {
        lemma_goes_on(name, from + 1);
    }
}

/// Whether the characters of `help` from `from` on need no escape.
spec fn stays_plain(help: Seq<char>, from: int) -> bool
    decreases help.len() - from,
{
    from >= help.len() || (help[from] != '\\' && help[from] != '\n' && stays_plain(help, from + 1))
}

/// What stays plain does so at every place.
proof fn lemma_stays_plain(help: Seq<char>, from: int)
    requires
        0 <= from,
        stays_plain(help, from),
    ensures
        forall|i: int| from <= i < help.len() ==> #[trigger] help[i] != '\\' && help[i] != '\n',
    decreases help.len() - from,
{
    if from < help.len() {
        lemma_stays_plain(help, from + 1);
    }
}

/// Every gauge of the catalog can be created and exposed as it is: its name
/// can name a metric, and its help text is not empty and needs no escape.
/// Only a refusal by the registry can fail the construction.
pub proof fn lemma_catalog_describes_gauges(field: Field)
    ensures
        is_metric_name(field.spec_name()),
        is_plain_help(field.spec_help()),
{
    reveal_strlit("weather_temperature_fahrenheit");
    reveal_strlit("weather_humidity_percent");
    reveal_strlit("weather_wind_speed_mph");
    reveal_strlit("weather_wind_gust_mph");
    reveal_strlit("weather_max_daily_gust_mph");
    reveal_strlit("weather_wind_direction_degrees");
    reveal_strlit("weather_wind_direction_avg10m_degrees");
    reveal_strlit("weather_uv_index");
    reveal_strlit("weather_solar_radiation_wm2");
    reveal_strlit("weather_rain_hourly_inches");
    reveal_strlit("weather_rain_event_inches");
    reveal_strlit("weather_rain_daily_inches");
    reveal_strlit("weather_rain_weekly_inches");
    reveal_strlit("weather_rain_monthly_inches");
    reveal_strlit("weather_rain_yearly_inches");
    reveal_strlit("weather_indoor_temperature_fahrenheit");
    reveal_strlit("weather_indoor_humidity_percent");
    reveal_strlit("weather_barometer_relative_inhg");
    reveal_strlit("weather_barometer_absolute_inhg");
    reveal_strlit("weather_battery_outdoor");
    reveal_strlit("weather_battery_indoor");
    reveal_strlit("Outdoor temperature in Fahrenheit");
    reveal_strlit("Outdoor relative humidity percentage");
    reveal_strlit("Current wind speed in mph");
    reveal_strlit("Current wind gust speed in mph");
    reveal_strlit("Maximum wind gust today in mph");
    reveal_strlit("Current wind direction in degrees (0-359)");
    reveal_strlit("10-minute average wind direction in degrees");
    reveal_strlit("Current UV index level");
    reveal_strlit("Solar radiation in watts per square meter");
    reveal_strlit("Rainfall in the last hour");
    reveal_strlit("Rainfall for the current rain event");
    reveal_strlit("Total rainfall today");
    reveal_strlit("Total rainfall this week");
    reveal_strlit("Total rainfall this month");
    reveal_strlit("Total rainfall this year");
    reveal_strlit("Indoor temperature in Fahrenheit");
    reveal_strlit("Indoor relative humidity percentage");
    reveal_strlit("Relative barometric pressure in inches of mercury");
    reveal_strlit("Absolute barometric pressure in inches of mercury");
    reveal_strlit("Outdoor sensor battery status (0=low, 1=ok)");
    reveal_strlit("Indoor sensor battery status (0=low, 1=ok)");
    assert(goes_on(field.spec_name(), 1)) by {
        reveal_with_fuel(goes_on, 40);
    }
    lemma_goes_on(field.spec_name(), 1);
    assert(stays_plain(field.spec_help(), 0)) by {
        reveal_with_fuel(stays_plain, 52);
    }
    lemma_stays_plain(field.spec_help(), 0);
}

/// Whether `sample` carries the name and the help text of a gauge of the
/// catalog.
pub open spec fn is_catalog_sample(sample: Sample) -> bool {
    exists|field: Field| sample.0 == field.spec_name() && sample.1 == field.spec_help()
}

/// Whether one of `samples` carries the name of the gauge of `field`.
pub open spec fn lists_field(samples: Seq<Sample>, field: Field) -> bool {
    exists|i: int| 0 <= i < samples.len() && (#[trigger] samples[i]).0 == field.spec_name()
}

/// Whether `samples` are the gauges of the catalog, each once under its
/// name and help text, in the order of the names.
pub open spec fn lists_catalog(samples: Seq<Sample>) -> bool {
    &&& forall|i: int, j: int|
        0 <= i < j < samples.len() ==> text_before(
            (#[trigger] samples[i]).0,
            (#[trigger] samples[j]).0,
        )
    &&& forall|i: int| 0 <= i < samples.len() ==> is_catalog_sample(#[trigger] samples[i])
    &&& forall|field: Field| #[trigger] lists_field(samples, field)
}

/// Whether `bytes` are the text exposition of the gauges of the catalog,
/// whatever their values.
pub open spec fn is_catalog_exposition(bytes: Seq<u8>) -> bool {
    exists|samples: Seq<Sample>|
        lists_catalog(samples) && bytes == encode_utf8(#[trigger] exposition(samples))
}

/// Whether `text` holds `part` as a run of consecutive characters.
pub open spec fn has_text(text: Seq<char>, part: Seq<char>) -> bool {
    exists|at: int|
        0 <= at && at + part.len() <= text.len() && #[trigger] text.subrange(at, at + part.len())
            == part
}

/// The exposition of gauges holds the lines of each of them.
pub proof fn lemma_exposition_holds_lines(samples: Seq<Sample>, i: int)
    requires
        0 <= i < samples.len(),
    ensures
        has_text(exposition(samples), sample_lines(samples[i])),
    decreases samples.len(),
{
    let text = exposition(samples);
    let before = exposition(samples.drop_last());
    let lines = sample_lines(samples[i]);
    if i == samples.len() - 1 {
        assert(text.subrange(before.len() as int, before.len() as int + lines.len()) =~= lines);
    } else {
        lemma_exposition_holds_lines(samples.drop_last(), i);
        let at = choose|at: int|
            0 <= at && at + lines.len() <= before.len() && #[trigger] before.subrange(
                at,
                at + lines.len(),
            ) == lines;
        assert(text.subrange(at, at + lines.len()) =~= before.subrange(at, at + lines.len()));
    }
}

/// A text holds what stands between its head and its tail.
pub proof fn lemma_has_text_between(head: Seq<char>, part: Seq<char>, tail: Seq<char>)
    ensures
        has_text(head + part + tail, part),
{
    let text = head + part + tail;
    assert(text.subrange(head.len() as int, head.len() as int + part.len()) =~= part);
}

/// What a part of a text holds, the text holds.
pub proof fn lemma_has_text_within(text: Seq<char>, part: Seq<char>, inner: Seq<char>)
    requires
        has_text(text, part),
        has_text(part, inner),
    ensures
        has_text(text, inner),
{
    let at = choose|at: int|
        0 <= at && at + part.len() <= text.len() && #[trigger] text.subrange(at, at + part.len())
            == part;
    let within = choose|within: int|
        0 <= within && within + inner.len() <= part.len() && #[trigger] part.subrange(
            within,
            within + inner.len(),
        ) == inner;
    assert(text.subrange(at + within, at + within + inner.len()) =~= text.subrange(
        at,
        at + part.len(),
    ).subrange(within, within + inner.len()));
}

/// The lines of a gauge hold the line that marks it as a gauge, and that
/// line holds its name.
pub proof fn lemma_lines_hold_name(sample: Sample)
    ensures
        has_text(sample_lines(sample), "# TYPE "@ + sample.0 + " gauge\n"@),
        has_text("# TYPE "@ + sample.0 + " gauge\n"@, sample.0),
{
    let mark = "# TYPE "@ + sample.0 + " gauge\n"@;
    let head = "# HELP "@ + sample.0 + " "@ + sample.1 + "\n"@;
    let tail = sample.0 + " "@ + sample.2 + "\n"@;
    assert(sample_lines(sample) =~= head + mark + tail);
    lemma_has_text_between(head, mark, tail);
    lemma_has_text_between("# TYPE "@, sample.0, " gauge\n"@);
}

/// The exposition of gauges names each of them.
pub proof fn lemma_exposition_names_sample(samples: Seq<Sample>, i: int)
    requires
        0 <= i < samples.len(),
    ensures
        has_text(exposition(samples), "# TYPE "@ + samples[i].0 + " gauge\n"@),
        has_text(exposition(samples), samples[i].0),
{
    let mark = "# TYPE "@ + samples[i].0 + " gauge\n"@;
    lemma_exposition_holds_lines(samples, i);
    lemma_lines_hold_name(samples[i]);
    lemma_has_text_within(exposition(samples), sample_lines(samples[i]), mark);
    lemma_has_text_within(exposition(samples), mark, samples[i].0);
}

/// The exposition of the catalog names every gauge of the catalog: the
/// gauge's name stands in it, in the line that marks it as a gauge.
pub proof fn lemma_exposition_names_gauge(samples: Seq<Sample>, field: Field)
    requires
        lists_catalog(samples),
    ensures
        has_text(exposition(samples), "# TYPE "@ + field.spec_name() + " gauge\n"@),
        has_text(exposition(samples), field.spec_name()),
{
    assert(lists_field(samples, field));
    let i = choose|i: int| 0 <= i < samples.len() && (#[trigger] samples[i]).0 == field.spec_name();
    lemma_exposition_names_sample(samples, i);
}

} // verus!
