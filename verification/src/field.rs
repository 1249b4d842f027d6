//! The catalog: every quantity that a station may report, with the query
//! key it arrives under, the gauge it is exposed as and the precision that
//! the gauge is kept at.

use vstd::prelude::*;
use crate::text::{chars_of, text_equals};

verus! {

/// Number of quantities in the catalog.
pub const FIELD_COUNT: usize = 21;

/// How the text of a quantity is read.
#[derive(Clone, Copy, Debug, PartialEq, Eq, Structural)]
pub enum Kind {
    /// A decimal number, sign allowed.
    Decimal,
    /// A whole number from 0 to 255.
    Byte,
    /// A whole number from 0 to 65535.
    Word,
}

/// One quantity of the catalog. The order of the variants is the order of
/// the catalog.
#[derive(Clone, Copy, Debug, PartialEq, Eq, Structural)]
pub enum Field {
    Temperature,
    Humidity,
    WindSpeed,
    WindGust,
    MaxDailyGust,
    WindDirection,
    WindDirectionAvg,
    UvIndex,
    SolarRadiation,
    RainHourly,
    RainEvent,
    RainDaily,
    RainWeekly,
    RainMonthly,
    RainYearly,
    TemperatureIndoor,
    HumidityIndoor,
    BarometerRelative,
    BarometerAbsolute,
    BatteryOutdoor,
    BatteryIndoor,
}

/// The character of `s` at `i`, or a blank where `s` is shorter.
spec fn char_at(s: Seq<char>, i: int) -> char {
    if i < s.len() {
        s[i]
    } else {
        ' '
    }
}

/// What tells the query keys of the catalog apart: the length, the first
/// character and the sixth.
spec fn key_mark(s: Seq<char>) -> (int, char, char) {
    (s.len() as int, char_at(s, 0), char_at(s, 5))
}

/// What tells the gauge names of the catalog apart: the length, the
/// fourteenth character and the nineteenth.
spec fn name_mark(s: Seq<char>) -> (int, char, char) {
    (s.len() as int, char_at(s, 13), char_at(s, 18))
}

impl Field {
    /// Position in the catalog, from 0.
    pub open spec fn spec_index(self) -> int {
        match self {
            Field::Temperature => 0,
            Field::Humidity => 1,
            Field::WindSpeed => 2,
            Field::WindGust => 3,
            Field::MaxDailyGust => 4,
            Field::WindDirection => 5,
            Field::WindDirectionAvg => 6,
            Field::UvIndex => 7,
            Field::SolarRadiation => 8,
            Field::RainHourly => 9,
            Field::RainEvent => 10,
            Field::RainDaily => 11,
            Field::RainWeekly => 12,
            Field::RainMonthly => 13,
            Field::RainYearly => 14,
            Field::TemperatureIndoor => 15,
            Field::HumidityIndoor => 16,
            Field::BarometerRelative => 17,
            Field::BarometerAbsolute => 18,
            Field::BatteryOutdoor => 19,
            Field::BatteryIndoor => 20,
        }
    }

    /// The quantity at position `i` of the catalog.
    pub open spec fn spec_at(i: int) -> Field {
        if i == 0 {
            Field::Temperature
        } else if i == 1 {
            Field::Humidity
        } else if i == 2 {
            Field::WindSpeed
        } else if i == 3 {
            Field::WindGust
        } else if i == 4 {
            Field::MaxDailyGust
        } else if i == 5 {
            Field::WindDirection
        } else if i == 6 {
            Field::WindDirectionAvg
        } else if i == 7 {
            Field::UvIndex
        } else if i == 8 {
            Field::SolarRadiation
        } else if i == 9 {
            Field::RainHourly
        } else if i == 10 {
            Field::RainEvent
        } else if i == 11 {
            Field::RainDaily
        } else if i == 12 {
            Field::RainWeekly
        } else if i == 13 {
            Field::RainMonthly
        } else if i == 14 {
            Field::RainYearly
        } else if i == 15 {
            Field::TemperatureIndoor
        } else if i == 16 {
            Field::HumidityIndoor
        } else if i == 17 {
            Field::BarometerRelative
        } else if i == 18 {
            Field::BarometerAbsolute
        } else if i == 19 {
            Field::BatteryOutdoor
        } else {
            Field::BatteryIndoor
        }
    }

    /// The query key that the quantity arrives under.
    pub open spec fn spec_key(self) -> Seq<char> {
        match self {
            Field::Temperature => "tempf"@,
            Field::Humidity => "humidity"@,
            Field::WindSpeed => "windspeedmph"@,
            Field::WindGust => "windgustmph"@,
            Field::MaxDailyGust => "maxdailygust"@,
            Field::WindDirection => "winddir"@,
            Field::WindDirectionAvg => "winddir_avg10m"@,
            Field::UvIndex => "uv"@,
            Field::SolarRadiation => "solarradiation"@,
            Field::RainHourly => "hourlyrainin"@,
            Field::RainEvent => "eventrainin"@,
            Field::RainDaily => "dailyrainin"@,
            Field::RainWeekly => "weeklyrainin"@,
            Field::RainMonthly => "monthlyrainin"@,
            Field::RainYearly => "yearlyrainin"@,
            Field::TemperatureIndoor => "tempinf"@,
            Field::HumidityIndoor => "humidityin"@,
            Field::BarometerRelative => "baromrelin"@,
            Field::BarometerAbsolute => "baromabsin"@,
            Field::BatteryOutdoor => "battout"@,
            Field::BatteryIndoor => "battin"@,
        }
    }

    /// The name of the gauge that exposes the quantity.
    pub open spec fn spec_name(self) -> Seq<char> {
        match self {
            Field::Temperature => "weather_temperature_fahrenheit"@,
            Field::Humidity => "weather_humidity_percent"@,
            Field::WindSpeed => "weather_wind_speed_mph"@,
            Field::WindGust => "weather_wind_gust_mph"@,
            Field::MaxDailyGust => "weather_max_daily_gust_mph"@,
            Field::WindDirection => "weather_wind_direction_degrees"@,
            Field::WindDirectionAvg => "weather_wind_direction_avg10m_degrees"@,
            Field::UvIndex => "weather_uv_index"@,
            Field::SolarRadiation => "weather_solar_radiation_wm2"@,
            Field::RainHourly => "weather_rain_hourly_inches"@,
            Field::RainEvent => "weather_rain_event_inches"@,
            Field::RainDaily => "weather_rain_daily_inches"@,
            Field::RainWeekly => "weather_rain_weekly_inches"@,
            Field::RainMonthly => "weather_rain_monthly_inches"@,
            Field::RainYearly => "weather_rain_yearly_inches"@,
            Field::TemperatureIndoor => "weather_indoor_temperature_fahrenheit"@,
            Field::HumidityIndoor => "weather_indoor_humidity_percent"@,
            Field::BarometerRelative => "weather_barometer_relative_inhg"@,
            Field::BarometerAbsolute => "weather_barometer_absolute_inhg"@,
            Field::BatteryOutdoor => "weather_battery_outdoor"@,
            Field::BatteryIndoor => "weather_battery_indoor"@,
        }
    }

    /// The help text of the gauge.
    pub open spec fn spec_help(self) -> Seq<char> {
        match self {
            Field::Temperature => "Outdoor temperature in Fahrenheit"@,
            Field::Humidity => "Outdoor relative humidity percentage"@,
            Field::WindSpeed => "Current wind speed in mph"@,
            Field::WindGust => "Current wind gust speed in mph"@,
            Field::MaxDailyGust => "Maximum wind gust today in mph"@,
            Field::WindDirection => "Current wind direction in degrees (0-359)"@,
            Field::WindDirectionAvg => "10-minute average wind direction in degrees"@,
            Field::UvIndex => "Current UV index level"@,
            Field::SolarRadiation => "Solar radiation in watts per square meter"@,
            Field::RainHourly => "Rainfall in the last hour"@,
            Field::RainEvent => "Rainfall for the current rain event"@,
            Field::RainDaily => "Total rainfall today"@,
            Field::RainWeekly => "Total rainfall this week"@,
            Field::RainMonthly => "Total rainfall this month"@,
            Field::RainYearly => "Total rainfall this year"@,
            Field::TemperatureIndoor => "Indoor temperature in Fahrenheit"@,
            Field::HumidityIndoor => "Indoor relative humidity percentage"@,
            Field::BarometerRelative => "Relative barometric pressure in inches of mercury"@,
            Field::BarometerAbsolute => "Absolute barometric pressure in inches of mercury"@,
            Field::BatteryOutdoor => "Outdoor sensor battery status (0=low, 1=ok)"@,
            Field::BatteryIndoor => "Indoor sensor battery status (0=low, 1=ok)"@,
        }
    }

    /// How the text of the quantity is read.
    pub open spec fn spec_kind(self) -> Kind {
        match self {
            Field::Humidity | Field::UvIndex | Field::HumidityIndoor | Field::BatteryOutdoor
            | Field::BatteryIndoor => Kind::Byte,
            Field::WindDirection | Field::WindDirectionAvg => Kind::Word,
            _ => Kind::Decimal,
        }
    }

    /// Decimal places that the gauge is kept at: one for temperatures, two
    /// for wind speeds and solar radiation, three for rainfall and pressure,
    /// none for the whole-number quantities.
    pub open spec fn spec_places(self) -> u8 {
        match self {
            Field::Temperature | Field::TemperatureIndoor => 1,
            Field::WindSpeed | Field::WindGust | Field::MaxDailyGust | Field::SolarRadiation => 2,
            Field::RainHourly | Field::RainEvent | Field::RainDaily | Field::RainWeekly
            | Field::RainMonthly | Field::RainYearly | Field::BarometerRelative
            | Field::BarometerAbsolute => 3,
            _ => 0,
        }
    }

    /// Whether the catalog knows the query key `key`.
    pub open spec fn is_known_key(key: Seq<char>) -> bool {
        exists|field: Field| field.spec_key() == key
    }

    /// Position and quantity determine each other.
    pub proof fn lemma_index_at(self)
        ensures
            0 <= self.spec_index() < FIELD_COUNT,
            Field::spec_at(self.spec_index()) == self,
    {
    }

    /// Every position below `FIELD_COUNT` holds the quantity with that
    /// position.
    pub proof fn lemma_at_index(i: int)
        requires
            0 <= i < FIELD_COUNT,
        ensures
            Field::spec_at(i).spec_index() == i,
    {
    }

    /// No two quantities arrive under the same query key.
    pub proof fn lemma_keys_distinct(a: Field, b: Field)
        requires
            a != b,
        ensures
            a.spec_key() != b.spec_key(),
    {
        reveal_strlit("tempf");
        reveal_strlit("humidity");
        reveal_strlit("windspeedmph");
        reveal_strlit("windgustmph");
        reveal_strlit("maxdailygust");
        reveal_strlit("winddir");
        reveal_strlit("winddir_avg10m");
        reveal_strlit("uv");
        reveal_strlit("solarradiation");
        reveal_strlit("hourlyrainin");
        reveal_strlit("eventrainin");
        reveal_strlit("dailyrainin");
        reveal_strlit("weeklyrainin");
        reveal_strlit("monthlyrainin");
        reveal_strlit("yearlyrainin");
        reveal_strlit("tempinf");
        reveal_strlit("humidityin");
        reveal_strlit("baromrelin");
        reveal_strlit("baromabsin");
        reveal_strlit("battout");
        reveal_strlit("battin");
        assert(key_mark("tempf"@) == (5int, 't', ' '));
        assert(key_mark("humidity"@) == (8int, 'h', 'i'));
        assert(key_mark("windspeedmph"@) == (12int, 'w', 'p'));
        assert(key_mark("windgustmph"@) == (11int, 'w', 'u'));
        assert(key_mark("maxdailygust"@) == (12int, 'm', 'i'));
        assert(key_mark("winddir"@) == (7int, 'w', 'i'));
        assert(key_mark("winddir_avg10m"@) == (14int, 'w', 'i'));
        assert(key_mark("uv"@) == (2int, 'u', ' '));
        assert(key_mark("solarradiation"@) == (14int, 's', 'r'));
        assert(key_mark("hourlyrainin"@) == (12int, 'h', 'y'));
        assert(key_mark("eventrainin"@) == (11int, 'e', 'r'));
        assert(key_mark("dailyrainin"@) == (11int, 'd', 'r'));
        assert(key_mark("weeklyrainin"@) == (12int, 'w', 'y'));
        assert(key_mark("monthlyrainin"@) == (13int, 'm', 'l'));
        assert(key_mark("yearlyrainin"@) == (12int, 'y', 'y'));
        assert(key_mark("tempinf"@) == (7int, 't', 'n'));
        assert(key_mark("humidityin"@) == (10int, 'h', 'i'));
        assert(key_mark("baromrelin"@) == (10int, 'b', 'r'));
        assert(key_mark("baromabsin"@) == (10int, 'b', 'a'));
        assert(key_mark("battout"@) == (7int, 'b', 'u'));
        assert(key_mark("battin"@) == (6int, 'b', 'n'));
    }

    /// No two quantities are exposed under the same gauge name, so that
    /// registering the catalog registers each name once.
    pub proof fn lemma_names_distinct(a: Field, b: Field)
        requires
            a != b,
        ensures
            a.spec_name() != b.spec_name(),
    {
        reveal_strlit("weather_temperature_fahrenheit");
        reveal_strlit("weather_humidity_percent");
        reveal_strlit("weather_wind_speed_mph");
        reveal_strlit("weather_wind_gust_mph");
        reveal_strlit("weather_max_daily_gust_mph");
        reveal_strlit("weather_wind_direction_degrees");
        reveal_strlit("weather_wind_direction_avg10m_degrees");
        reveal_strlit("weather_uv_index");
        reveal_strlit("weather_solar_radiation_wm2");
        reveal_strlit("weather_rain_hourly_inches");
        reveal_strlit("weather_rain_event_inches");
        reveal_strlit("weather_rain_daily_inches");
        reveal_strlit("weather_rain_weekly_inches");
        reveal_strlit("weather_rain_monthly_inches");
        reveal_strlit("weather_rain_yearly_inches");
        reveal_strlit("weather_indoor_temperature_fahrenheit");
        reveal_strlit("weather_indoor_humidity_percent");
        reveal_strlit("weather_barometer_relative_inhg");
        reveal_strlit("weather_barometer_absolute_inhg");
        reveal_strlit("weather_battery_outdoor");
        reveal_strlit("weather_battery_indoor");
        assert(name_mark("weather_temperature_fahrenheit"@) == (30int, 'r', 'e'));
        assert(name_mark("weather_humidity_percent"@) == (24int, 'i', 'e'));
        assert(name_mark("weather_wind_speed_mph"@) == (22int, 's', '_'));
        assert(name_mark("weather_wind_gust_mph"@) == (21int, 'g', 'm'));
        assert(name_mark("weather_max_daily_gust_mph"@) == (26int, 'a', 'g'));
        assert(name_mark("weather_wind_direction_degrees"@) == (30int, 'd', 't'));
        assert(name_mark("weather_wind_direction_avg10m_degrees"@) == (37int, 'd', 't'));
        assert(name_mark("weather_uv_index"@) == (16int, 'd', ' '));
        assert(name_mark("weather_solar_radiation_wm2"@) == (27int, '_', 'a'));
        assert(name_mark("weather_rain_hourly_inches"@) == (26int, 'h', 'y'));
        assert(name_mark("weather_rain_event_inches"@) == (25int, 'e', '_'));
        assert(name_mark("weather_rain_daily_inches"@) == (25int, 'd', '_'));
        assert(name_mark("weather_rain_weekly_inches"@) == (26int, 'w', 'y'));
        assert(name_mark("weather_rain_monthly_inches"@) == (27int, 'm', 'l'));
        assert(name_mark("weather_rain_yearly_inches"@) == (26int, 'y', 'y'));
        assert(name_mark("weather_indoor_temperature_fahrenheit"@) == (37int, 'r', 'p'));
        assert(name_mark("weather_indoor_humidity_percent"@) == (31int, 'r', 'i'));
        assert(name_mark("weather_barometer_relative_inhg"@) == (31int, 'e', 'r'));
        assert(name_mark("weather_barometer_absolute_inhg"@) == (31int, 'e', 'a'));
        assert(name_mark("weather_battery_outdoor"@) == (23int, 'r', 't'));
        assert(name_mark("weather_battery_indoor"@) == (22int, 'r', 'd'));
    }

    /// Position in the catalog, from 0.
    pub fn index(self) -> (i: usize)
        ensures
            i == self.spec_index(),
            i < FIELD_COUNT,
    {
        match self {
            Field::Temperature => 0,
            Field::Humidity => 1,
            Field::WindSpeed => 2,
            Field::WindGust => 3,
            Field::MaxDailyGust => 4,
            Field::WindDirection => 5,
            Field::WindDirectionAvg => 6,
            Field::UvIndex => 7,
            Field::SolarRadiation => 8,
            Field::RainHourly => 9,
            Field::RainEvent => 10,
            Field::RainDaily => 11,
            Field::RainWeekly => 12,
            Field::RainMonthly => 13,
            Field::RainYearly => 14,
            Field::TemperatureIndoor => 15,
            Field::HumidityIndoor => 16,
            Field::BarometerRelative => 17,
            Field::BarometerAbsolute => 18,
            Field::BatteryOutdoor => 19,
            Field::BatteryIndoor => 20,
        }
    }

    /// The quantity at position `i`, if the catalog is that long.
    pub fn at(i: usize) -> (r: Option<Field>)
        ensures
            r is Some <==> i < FIELD_COUNT,
            r matches Some(f) ==> f == Field::spec_at(i as int) && f.spec_index() == i,
    {
        match i {
            0 => Some(Field::Temperature),
            1 => Some(Field::Humidity),
            2 => Some(Field::WindSpeed),
            3 => Some(Field::WindGust),
            4 => Some(Field::MaxDailyGust),
            5 => Some(Field::WindDirection),
            6 => Some(Field::WindDirectionAvg),
            7 => Some(Field::UvIndex),
            8 => Some(Field::SolarRadiation),
            9 => Some(Field::RainHourly),
            10 => Some(Field::RainEvent),
            11 => Some(Field::RainDaily),
            12 => Some(Field::RainWeekly),
            13 => Some(Field::RainMonthly),
            14 => Some(Field::RainYearly),
            15 => Some(Field::TemperatureIndoor),
            16 => Some(Field::HumidityIndoor),
            17 => Some(Field::BarometerRelative),
            18 => Some(Field::BarometerAbsolute),
            19 => Some(Field::BatteryOutdoor),
            20 => Some(Field::BatteryIndoor),
            _ => None,
        }
    }

    /// The quantity at position `i` of the catalog.
    pub(crate) fn nth(i: usize) -> (field: Field)
        requires
            i < FIELD_COUNT,
        ensures
            field == Field::spec_at(i as int),
            field.spec_index() == i,
    {
        match Field::at(i) {
            Some(field) => field,
            None => Field::BatteryIndoor,
        }
    }

    /// The query key that the quantity arrives under.
    pub fn key(self) -> (k: &'static str)
        ensures
            k@ == self.spec_key(),
    {
        match self {
            Field::Temperature => "tempf",
            Field::Humidity => "humidity",
            Field::WindSpeed => "windspeedmph",
            Field::WindGust => "windgustmph",
            Field::MaxDailyGust => "maxdailygust",
            Field::WindDirection => "winddir",
            Field::WindDirectionAvg => "winddir_avg10m",
            Field::UvIndex => "uv",
            Field::SolarRadiation => "solarradiation",
            Field::RainHourly => "hourlyrainin",
            Field::RainEvent => "eventrainin",
            Field::RainDaily => "dailyrainin",
            Field::RainWeekly => "weeklyrainin",
            Field::RainMonthly => "monthlyrainin",
            Field::RainYearly => "yearlyrainin",
            Field::TemperatureIndoor => "tempinf",
            Field::HumidityIndoor => "humidityin",
            Field::BarometerRelative => "baromrelin",
            Field::BarometerAbsolute => "baromabsin",
            Field::BatteryOutdoor => "battout",
            Field::BatteryIndoor => "battin",
        }
    }

    /// The quantity that arrives under `key`, if the catalog knows the key.
    pub fn from_key(key: &str) -> (r: Option<Field>)
        ensures
            r is Some <==> Field::is_known_key(key@),
            r matches Some(field) ==> field.spec_key() == key@,
    {
        let mut i: usize = 0;
        while i < FIELD_COUNT
            invariant
                0 <= i <= FIELD_COUNT,
                forall|j: int| 0 <= j < i ==> Field::spec_at(j).spec_key() != key@,
            decreases FIELD_COUNT - i,
        {
            let field = Field::nth(i);
            let chars = chars_of(field.key());
            if text_equals(key, &chars) {
                return Some(field);
            }
            i += 1;
        }
        proof {
            assert forall|field: Field| field.spec_key() != key@ by {
                field.lemma_index_at();
            }
        }
        None
    }

    /// The name of the gauge that exposes the quantity.
    pub fn name(self) -> (k: &'static str)
        ensures
            k@ == self.spec_name(),
    {
        match self {
            Field::Temperature => "weather_temperature_fahrenheit",
            Field::Humidity => "weather_humidity_percent",
            Field::WindSpeed => "weather_wind_speed_mph",
            Field::WindGust => "weather_wind_gust_mph",
            Field::MaxDailyGust => "weather_max_daily_gust_mph",
            Field::WindDirection => "weather_wind_direction_degrees",
            Field::WindDirectionAvg => "weather_wind_direction_avg10m_degrees",
            Field::UvIndex => "weather_uv_index",
            Field::SolarRadiation => "weather_solar_radiation_wm2",
            Field::RainHourly => "weather_rain_hourly_inches",
            Field::RainEvent => "weather_rain_event_inches",
            Field::RainDaily => "weather_rain_daily_inches",
            Field::RainWeekly => "weather_rain_weekly_inches",
            Field::RainMonthly => "weather_rain_monthly_inches",
            Field::RainYearly => "weather_rain_yearly_inches",
            Field::TemperatureIndoor => "weather_indoor_temperature_fahrenheit",
            Field::HumidityIndoor => "weather_indoor_humidity_percent",
            Field::BarometerRelative => "weather_barometer_relative_inhg",
            Field::BarometerAbsolute => "weather_barometer_absolute_inhg",
            Field::BatteryOutdoor => "weather_battery_outdoor",
            Field::BatteryIndoor => "weather_battery_indoor",
        }
    }

    /// The help text of the gauge.
    pub fn help(self) -> (k: &'static str)
        ensures
            k@ == self.spec_help(),
    {
        match self {
            Field::Temperature => "Outdoor temperature in Fahrenheit",
            Field::Humidity => "Outdoor relative humidity percentage",
            Field::WindSpeed => "Current wind speed in mph",
            Field::WindGust => "Current wind gust speed in mph",
            Field::MaxDailyGust => "Maximum wind gust today in mph",
            Field::WindDirection => "Current wind direction in degrees (0-359)",
            Field::WindDirectionAvg => "10-minute average wind direction in degrees",
            Field::UvIndex => "Current UV index level",
            Field::SolarRadiation => "Solar radiation in watts per square meter",
            Field::RainHourly => "Rainfall in the last hour",
            Field::RainEvent => "Rainfall for the current rain event",
            Field::RainDaily => "Total rainfall today",
            Field::RainWeekly => "Total rainfall this week",
            Field::RainMonthly => "Total rainfall this month",
            Field::RainYearly => "Total rainfall this year",
            Field::TemperatureIndoor => "Indoor temperature in Fahrenheit",
            Field::HumidityIndoor => "Indoor relative humidity percentage",
            Field::BarometerRelative => "Relative barometric pressure in inches of mercury",
            Field::BarometerAbsolute => "Absolute barometric pressure in inches of mercury",
            Field::BatteryOutdoor => "Outdoor sensor battery status (0=low, 1=ok)",
            Field::BatteryIndoor => "Indoor sensor battery status (0=low, 1=ok)",
        }
    }

    /// How the text of the quantity is read.
    pub fn kind(self) -> (k: Kind)
        ensures
            k == self.spec_kind(),
    {
        match self {
            Field::Humidity | Field::UvIndex | Field::HumidityIndoor | Field::BatteryOutdoor
            | Field::BatteryIndoor => Kind::Byte,
            Field::WindDirection | Field::WindDirectionAvg => Kind::Word,
            _ => Kind::Decimal,
        }
    }

    /// Decimal places that the gauge is kept at.
    pub fn places(self) -> (p: u8)
        ensures
            p == self.spec_places(),
            p <= 3,
    {
        match self {
            Field::Temperature | Field::TemperatureIndoor => 1,
            Field::WindSpeed | Field::WindGust | Field::MaxDailyGust | Field::SolarRadiation => 2,
            Field::RainHourly | Field::RainEvent | Field::RainDaily | Field::RainWeekly
            | Field::RainMonthly | Field::RainYearly | Field::BarometerRelative
            | Field::BarometerAbsolute => 3,
            _ => 0,
        }
    }
}

} // verus!

