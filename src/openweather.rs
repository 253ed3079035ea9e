//! The current-conditions service (OpenWeatherMap): request parameters and the
//! mapping of its readings.
use crate::errors::ProviderError;
use crate::measure::Decimal;
use crate::weather::WeatherData;
use vstd::prelude::*;
use vstd::string::StringExecFns;

verus! {

/// One reading of the current-conditions service, as plain values.
#[derive(Debug, Clone, PartialEq, Eq)]
pub struct CurrentReading {
    /// The place name the service reports.
    pub name: String,
    /// Time of the reading, seconds since the Unix epoch.
    pub dt: i64,
    /// Temperature in degrees Celsius.
    pub temp: Decimal,
    /// Relative humidity in percent.
    pub humidity: Decimal,
    /// Pressure in hectopascals.
    pub pressure: Decimal,
    /// The descriptions of the weather conditions, in the order given.
    pub descriptions: Vec<String>,
    /// Wind speed in metres per second.
    pub wind_speed: Decimal,
    /// Wind direction in degrees.
    pub wind_deg: Decimal,
}

impl CurrentReading {
    /// The wind speed can be converted to km/h without overflow.
    pub open spec fn wf(&self) -> bool {
        self.wind_speed.in_range()
    }

    /// The first description, or "unknown" when there is none.
    pub open spec fn condition_text(&self) -> Seq<char> {
        if self.descriptions@.len() > 0 {
            self.descriptions@[0]@
        } else {
            "unknown"@
        }
    }

    /// `data` is this reading, taken at `observed`.
    pub open spec fn maps_to(&self, observed: i64, data: WeatherData) -> bool {
        data.has_fields(
            self.name@,
            observed,
            self.temp,
            self.humidity,
            self.pressure,
            self.condition_text(),
            self.wind_speed.times_3_6(),
            self.wind_deg,
        )
    }
}

/// Seconds since the Unix epoch well inside chrono's range of instants (about 250,000
/// years either way).
pub open spec fn in_instant_range(secs: i64) -> bool {
    -8_000_000_000_000 <= secs <= 8_000_000_000_000
}

/// What a query gives when `reply` came back: the service's error message becomes a
/// request error, a reading without a place name a parse error, any other reading its
/// record, dated by the reading's own time where chrono can represent it.
pub open spec fn current_outcome(
    reply: Result<CurrentReading, String>,
    r: Result<WeatherData, ProviderError>,
) -> bool {
    match reply {
        Err(e) => (r matches Err(ProviderError::Request(m)) && m@ == e@),
        Ok(w) => if w.name@.len() == 0 {
            r matches Err(ProviderError::Parse(_))
        } else {
            r matches Ok(d) && w.maps_to(d.datetime, d) && (in_instant_range(w.dt) ==> d.datetime
                == w.dt)
        },
    }
}

/// The parameters of one current-conditions query.
#[derive(Debug, Clone, PartialEq, Eq)]
pub struct CurrentQuery {
    pub location: String,
    pub units: String,
    pub lang: String,
    pub api_key: String,
}

/// The current-conditions provider. It ignores any date and always reports current weather.
#[derive(Debug, Clone, PartialEq, Eq)]
pub struct OpenWeather {
    api_key: String,
}

/// Relies on chrono's `DateTime::from_timestamp`, which gives back a time that
/// round-trips to the same number of seconds, or nothing when it is out of range;
/// every time within `in_instant_range` lies inside chrono's years.
#[verifier::external_body]
fn checked_instant(secs: i64) -> (r: Option<i64>)
    ensures
        r matches Some(v) ==> v == secs,
        in_instant_range(secs) ==> r == Some(secs),
{
    chrono::DateTime::from_timestamp(secs, 0).map(|t| t.timestamp())
}

/// Relies on chrono's `Utc::now`: the clock, in seconds since the Unix epoch.
#[verifier::external_body]
fn now_seconds() -> (r: i64) {
    chrono::Utc::now().timestamp()
}

impl OpenWeather {
    pub closed spec fn key(&self) -> Seq<char> {
        self.api_key@
    }

    /// A provider with this API key; a missing or empty key is refused.
    pub fn new(api_key: Option<String>) -> (r: Result<Self, ProviderError>)
        ensures
            match api_key {
                Some(k) if k@.len() > 0 => r matches Ok(p) && p.key() == k@,
                _ => r matches Err(ProviderError::InvalidApiKey(_)),
            },
    {
        match api_key {
            Some(k) => {
                if k.as_str().is_empty() {
                    Err(ProviderError::InvalidApiKey(String::from_str("OpenWeather requires API_KEY")))
                } else {
                    Ok(OpenWeather { api_key: k })
                }
            },
            None => Err(ProviderError::InvalidApiKey(String::from_str("OpenWeather requires API_KEY"))),
        }
    }

    /// `q` asks for current conditions at `location`, in metric units and English.
    pub open spec fn is_query(&self, location: Seq<char>, q: CurrentQuery) -> bool {
        &&& q.location@ == location
        &&& q.units@ == "metric"@
        &&& q.lang@ == "en"@
        &&& q.api_key@ == self.key()
    }

    /// The query for current conditions at `location`, in metric units and English. An
    /// empty location is refused before any request.
    pub fn query(&self, location: &str) -> (r: Result<CurrentQuery, ProviderError>)
        ensures
            location@.len() == 0 ==> (r matches Err(ProviderError::InvalidLocation(l)) && l@
                == location@),
            location@.len() > 0 ==> (r matches Ok(q) && self.is_query(location@, q)),
    {
        if location.is_empty() {
            return Err(ProviderError::InvalidLocation(String::from_str(location)));
        }
        Ok(
            CurrentQuery {
                location: String::from_str(location),
                units: String::from_str("metric"),
                lang: String::from_str("en"),
                api_key: self.api_key.clone(),
            },
        )
    }

    /// The record for `reading`, taken at `observed` (seconds since the Unix epoch).
    pub fn record_at(reading: &CurrentReading, observed: i64) -> (r: WeatherData)
        requires
            reading.wf(),
        ensures
            reading.maps_to(observed, r),
    {
        let condition = if reading.descriptions.len() > 0 {
            reading.descriptions[0].clone()
        } else {
            String::from_str("unknown")
        };
        WeatherData {
            location: reading.name.clone(),
            datetime: observed,
            temp_c: reading.temp,
            humidity: reading.humidity,
            pressure: reading.pressure,
            condition,
            wind_kph: reading.wind_speed.mps_to_kph(),
            wind_deg: reading.wind_deg,
        }
    }

    /// The record for `reading`. Its time is the reading's own where that is a
    /// representable instant, and the current time otherwise.
    pub fn record(reading: &CurrentReading) -> (r: WeatherData)
        requires
            reading.wf(),
        ensures
            reading.maps_to(r.datetime, r),
            in_instant_range(reading.dt) ==> r.datetime == reading.dt,
    {
        let observed = match checked_instant(reading.dt) {
            Some(t) => t,
            None => now_seconds(),
        };
        Self::record_at(reading, observed)
    }

    /// The outcome of a query: the service's error message becomes a request error, a
    /// reading without a place name a parse error, any other reading its record.
    pub fn finish(reply: Result<CurrentReading, String>) -> (r: Result<WeatherData, ProviderError>)
        requires
            reply matches Ok(w) ==> w.wf(),
        ensures
            current_outcome(reply, r),
    {
        match reply {
            Err(e) => Err(ProviderError::Request(e)),
            Ok(w) => {
                if w.name.as_str().is_empty() {
                    return Err(ProviderError::Parse(String::from_str("reading has no place name")));
                }
                Ok(Self::record(&w))
            },
        }
    }
}

} // verus!
