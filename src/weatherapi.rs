//! The current-or-historical service (WeatherAPI): request URLs, and the mapping
//! of its two response shapes.
use crate::dates::{naive_datetime_reading, parse_naive_datetime};
use crate::errors::ProviderError;
use crate::measure::Decimal;
use crate::weather::{append_decimal, decimal_text, CalendarDate, WeatherData};
use vstd::prelude::*;
use vstd::string::StringExecFns;

verus! {

/// The service's production endpoint.
pub const DEFAULT_BASE_URL: &'static str = "https://api.weatherapi.com";

/// The place a response is for.
#[derive(Debug, Clone, PartialEq, Eq)]
pub struct Location {
    pub name: String,
    pub region: String,
    pub country: String,
}

/// A condition description.
#[derive(Debug, Clone, PartialEq, Eq)]
pub struct ConditionFields {
    pub text: String,
    pub icon: String,
}

/// The `current` block of a current-conditions response.
#[derive(Debug, Clone, PartialEq, Eq)]
pub struct WeatherCondition {
    /// Local time of the reading, `YYYY-MM-DD HH:MM`.
    pub last_updated: String,
    pub temp_c: Decimal,
    pub condition: ConditionFields,
    pub wind_kph: Decimal,
    pub wind_degree: Decimal,
    pub humidity: Decimal,
    pub pressure_mb: Decimal,
}

/// Day-level aggregates of a historical day.
#[derive(Debug, Clone, PartialEq, Eq)]
pub struct DayCondition {
    pub avgtemp_c: Decimal,
    pub avghumidity: Decimal,
    pub maxwind_kph: Decimal,
    pub condition: ConditionFields,
}

/// One hour of a historical day.
#[derive(Debug, Clone, PartialEq, Eq)]
pub struct HourCondition {
    /// Local time of the hour, `YYYY-MM-DD HH:MM`.
    pub time: String,
    pub temp_c: Decimal,
    pub wind_kph: Decimal,
    pub wind_degree: Decimal,
    pub humidity: Decimal,
    pub pressure_mb: Decimal,
    pub condition: ConditionFields,
}

/// One day of a historical response.
#[derive(Debug, Clone, PartialEq, Eq)]
pub struct ForecastDay {
    pub date: String,
    pub day: DayCondition,
    pub hour: Vec<HourCondition>,
}

/// The days of a historical response.
#[derive(Debug, Clone, PartialEq, Eq)]
pub struct Forecast {
    pub forecastday: Vec<ForecastDay>,
}

/// The two shapes the service answers with.
#[derive(Debug, Clone, PartialEq, Eq)]
pub enum WeatherResponse {
    Current { location: Location, current: WeatherCondition },
    History { location: Location, forecast: Forecast },
}

/// What came back from one HTTP exchange: its status and its body, decoded or not.
#[derive(Debug, PartialEq, Eq)]
pub struct HttpReply {
    pub status: u16,
    pub body: Result<WeatherResponse, String>,
}

/// The normal form of a URL, as the URL parser writes it back, or `None` when the
/// text is no URL.
pub uninterp spec fn normalized_url(s: Seq<char>) -> Option<Seq<char>>;

/// The instant, in seconds since the Unix epoch, that a `YYYY-MM-DD HH:MM` text
/// names when read as UTC, or `None` when it names none.
pub open spec fn minute_text_seconds(s: Seq<char>) -> Option<i64> {
    match naive_datetime_reading(s, "%Y-%m-%d %H:%M"@) {
        Some((t, _, _, _)) => Some(t),
        None => None,
    }
}

/// Relies on `reqwest::Url::parse` and the URL's `Display`: whether the text is a URL,
/// and its normal form (with a `/` path for a bare host).
#[verifier::external_body]
fn parse_url(s: &str) -> (r: Option<String>)
    ensures
        r is None <==> normalized_url(s@) is None,
        r matches Some(u) ==> normalized_url(s@) == Some(u@),
{
    reqwest::Url::parse(s).ok().map(|u| u.to_string())
}

/// The instant of a `YYYY-MM-DD HH:MM` text read as UTC.
fn parse_minute_utc(s: &str) -> (r: Option<i64>)
    ensures
        r == minute_text_seconds(s@),
{
    match parse_naive_datetime(s, "%Y-%m-%d %H:%M") {
        Some((t, _, _, _)) => Some(t),
        None => None,
    }
}

/// `name, country`.
pub open spec fn place_text(l: Location) -> Seq<char> {
    l.name@ + ", "@ + l.country@
}

impl WeatherResponse {
    /// The response is historical but holds no day, or its first day no hour.
    pub open spec fn lacks_first_hour(&self) -> bool {
        match self {
            WeatherResponse::Current { .. } => false,
            WeatherResponse::History { forecast, .. } => forecast.forecastday@.len() == 0
                || forecast.forecastday@[0].hour@.len() == 0,
        }
    }

    /// The timestamp that dates the record: the current block's, or the first hour's.
    pub open spec fn timestamp_text(&self) -> Seq<char> {
        match self {
            WeatherResponse::Current { current, .. } => current.last_updated@,
            WeatherResponse::History { forecast, .. } => forecast.forecastday@[0].hour@[0].time@,
        }
    }

    /// `data` is this response read as a record taken at `observed`: the current block
    /// field by field; or the first day's averages, maximum wind and condition with the
    /// first hour's pressure and wind direction.
    pub open spec fn maps_to(&self, observed: i64, data: WeatherData) -> bool {
        match self {
            WeatherResponse::Current { location, current } => data.has_fields(
                place_text(*location),
                observed,
                current.temp_c,
                current.humidity,
                current.pressure_mb,
                current.condition.text@,
                current.wind_kph,
                current.wind_degree,
            ),
            WeatherResponse::History { location, forecast } => {
                let day = forecast.forecastday@[0];
                let hour = day.hour@[0];
                data.has_fields(
                    place_text(*location),
                    observed,
                    day.day.avgtemp_c,
                    day.day.avghumidity,
                    hour.pressure_mb,
                    day.day.condition.text@,
                    day.day.maxwind_kph,
                    hour.wind_degree,
                )
            },
        }
    }

    /// What reading the response gives when its timestamp reads as `observed`.
    pub open spec fn outcome(&self, observed: Option<i64>, r: Result<WeatherData, ProviderError>) -> bool {
        if self.lacks_first_hour() {
            r matches Err(ProviderError::Parse(_))
        } else {
            match observed {
                None => r matches Err(ProviderError::ParseDateTime(t)) && t@ == self.timestamp_text(),
                Some(t) => r matches Ok(d) && self.maps_to(t, d),
            }
        }
    }

    /// The record for this response, given what its timestamp reads as.
    pub fn record_with(&self, observed: Option<i64>) -> (r: Result<WeatherData, ProviderError>)
        ensures
            self.outcome(observed, r),
    {
        match self {
            WeatherResponse::Current { location, current } => {
                match observed {
                    None => Err(ProviderError::ParseDateTime(current.last_updated.clone())),
                    Some(t) => Ok(
                        WeatherData {
                            location: place_string(location),
                            datetime: t,
                            temp_c: current.temp_c,
                            humidity: current.humidity,
                            pressure: current.pressure_mb,
                            condition: current.condition.text.clone(),
                            wind_kph: current.wind_kph,
                            wind_deg: current.wind_degree,
                        },
                    ),
                }
            },
            WeatherResponse::History { location, forecast } => {
                if forecast.forecastday.len() == 0 {
                    return Err(ProviderError::Parse(String::from_str("history response has no day")));
                }
                let day = &forecast.forecastday[0];
                if day.hour.len() == 0 {
                    return Err(ProviderError::Parse(String::from_str("history day has no hour")));
                }
                let hour = &day.hour[0];
                match observed {
                    None => Err(ProviderError::ParseDateTime(hour.time.clone())),
                    Some(t) => Ok(
                        WeatherData {
                            location: place_string(location),
                            datetime: t,
                            temp_c: day.day.avgtemp_c,
                            humidity: day.day.avghumidity,
                            pressure: hour.pressure_mb,
                            condition: day.day.condition.text.clone(),
                            wind_kph: day.day.maxwind_kph,
                            wind_deg: hour.wind_degree,
                        },
                    ),
                }
            },
        }
    }

    /// `r` is the record for this response, its timestamp read as `YYYY-MM-DD HH:MM`.
    pub open spec fn record_result(&self, r: Result<WeatherData, ProviderError>) -> bool {
        if self.lacks_first_hour() {
            self.outcome(None, r)
        } else {
            self.outcome(minute_text_seconds(self.timestamp_text()), r)
        }
    }

    /// The record for this response; its timestamp must read as `YYYY-MM-DD HH:MM`.
    pub fn to_record(&self) -> (r: Result<WeatherData, ProviderError>)
        ensures
            self.record_result(r),
    {
        let stamp = match self {
            WeatherResponse::Current { current, .. } => &current.last_updated,
            WeatherResponse::History { forecast, .. } => {
                if forecast.forecastday.len() == 0 || forecast.forecastday[0].hour.len() == 0 {
                    return self.record_with(None);
                }
                &forecast.forecastday[0].hour[0].time
            },
        };
        let observed = parse_minute_utc(stamp.as_str());
        self.record_with(observed)
    }
}

fn place_string(l: &Location) -> (r: String)
    ensures
        r@ == place_text(*l),
{
    let mut r = l.name.clone();
    r.append(", ");
    r.append(l.country.as_str());
    r
}

/// `base` followed by the current-conditions path and query.
pub open spec fn current_url(base: Seq<char>, key: Seq<char>, location: Seq<char>) -> Seq<char> {
    base + "v1/current.json?key="@ + key + "&q="@ + location + "&aqi=no"@
}

/// `base` followed by the history path and query for `date`.
pub open spec fn history_url(
    base: Seq<char>,
    key: Seq<char>,
    location: Seq<char>,
    date: CalendarDate,
) -> Seq<char> {
    base + "v1/history.json?key="@ + key + "&q="@ + location + "&aqi=no&dt="@ + date.iso_text()
}

/// The current-or-historical provider.
#[derive(Debug, Clone, PartialEq, Eq)]
pub struct WeatherApi {
    api_key: String,
    base_url: String,
}

impl WeatherApi {
    pub closed spec fn key(&self) -> Seq<char> {
        self.api_key@
    }

    /// The base URL, in normal form, that request paths are appended to.
    pub closed spec fn base(&self) -> Seq<char> {
        self.base_url@
    }

    /// A provider with this API key and the production endpoint; a missing or empty
    /// key is refused.
    pub fn new(api_key: Option<String>) -> (r: Result<Self, ProviderError>)
        ensures
            match api_key {
                Some(k) if k@.len() > 0 => match normalized_url(DEFAULT_BASE_URL@) {
                    Some(u) => r matches Ok(p) && p.key() == k@ && p.base() == u,
                    None => r matches Err(ProviderError::Unexpected(_)),
                },
                _ => r matches Err(ProviderError::InvalidApiKey(_)),
            },
    {
        let key = match api_key {
            Some(k) => k,
            None => {
                return Err(ProviderError::InvalidApiKey(String::from_str("WeatherApi requires API_KEY")));
            },
        };
        if key.as_str().is_empty() {
            return Err(ProviderError::InvalidApiKey(String::from_str("WeatherApi requires API_KEY")));
        }
        match parse_url(DEFAULT_BASE_URL) {
            Some(u) => Ok(WeatherApi { api_key: key, base_url: u }),
            None => Err(ProviderError::Unexpected(String::from_str("Invalid API URL"))),
        }
    }

    /// The same provider against another endpoint (a test server, say).
    pub fn with_base_url(self, base_url: &str) -> (r: Result<Self, ProviderError>)
        ensures
            match normalized_url(base_url@) {
                Some(u) => r matches Ok(p) && p.key() == self.key() && p.base() == u,
                None => r matches Err(ProviderError::Unexpected(_)),
            },
    {
        match parse_url(base_url) {
            Some(u) => Ok(WeatherApi { api_key: self.api_key, base_url: u }),
            None => Err(ProviderError::Unexpected(String::from_str("Invalid API URL"))),
        }
    }

    /// What asking for weather at `location` gives: an empty location is refused; else the
    /// current-conditions URL without a date, that day's history URL with one.
    pub open spec fn url_outcome(
        &self,
        location: Seq<char>,
        date: Option<CalendarDate>,
        r: Result<String, ProviderError>,
    ) -> bool {
        if location.len() == 0 {
            r matches Err(ProviderError::InvalidLocation(l)) && l@ == location
        } else {
            r matches Ok(u) && u@ == match date {
                None => current_url(self.base(), self.key(), location),
                Some(d) => history_url(self.base(), self.key(), location, d),
            }
        }
    }

    /// The URL to ask for weather at `location`: current conditions without a date,
    /// that day's history with one. An empty location is refused before any request.
    pub fn request_url(&self, location: &str, date: Option<CalendarDate>) -> (r: Result<String, ProviderError>)
        requires
            date matches Some(d) ==> d.wf(),
        ensures
            self.url_outcome(location@, date, r),
    {
        if location.is_empty() {
            return Err(ProviderError::InvalidLocation(String::from_str(location)));
        }
        let mut u = self.base_url.clone();
        match date {
            None => {
                u.append("v1/current.json?key=");
                u.append(self.api_key.as_str());
                u.append("&q=");
                u.append(location);
                u.append("&aqi=no");
            },
            Some(d) => {
                u.append("v1/history.json?key=");
                u.append(self.api_key.as_str());
                u.append("&q=");
                u.append(location);
                u.append("&aqi=no&dt=");
                let day = d.to_iso_string();
                u.append(day.as_str());
            },
        }
        Ok(u)
    }

    /// The outcome of a request for `location`: a transport failure or a status outside
    /// 200..=299 is a request failure, an undecodable body a parse failure; otherwise the
    /// response's record, under the caller's `location`.
    pub fn finish(location: &str, reply: Result<HttpReply, String>) -> (r: Result<WeatherData, ProviderError>)
        ensures
            http_outcome(location@, reply, r),
    {
        match reply {
            Err(e) => Err(ProviderError::Request(e)),
            Ok(h) => {
                if h.status < 200 || h.status > 299 {
                    let mut m = String::from_str("HTTP status ");
                    append_decimal(&mut m, h.status);
                    return Err(ProviderError::Request(m));
                }
                match h.body {
                    Err(e) => Err(ProviderError::Parse(e)),
                    Ok(resp) => {
                        let r0 = resp.to_record();
                        let r = match r0 {
                            Ok(d) => Ok(WeatherData { location: String::from_str(location), ..d }),
                            Err(e) => Err(e),
                        };
                        proof {
                            assert(relocated(r0, location@, r));
                        }
                        r
                    },
                }
            },
        }
    }
}

/// What a request for `location` gives when `reply` came back: a transport failure or a
/// status outside 200..=299 is a request failure, an undecodable body a parse failure;
/// otherwise the response's record, under `location`.
pub open spec fn http_outcome(
    location: Seq<char>,
    reply: Result<HttpReply, String>,
    r: Result<WeatherData, ProviderError>,
) -> bool {
    match reply {
        Err(e) => (r matches Err(ProviderError::Request(m)) && m@ == e@),
        Ok(h) => if !(200 <= h.status <= 299) {
            r matches Err(ProviderError::Request(m)) && m@ == status_message(h.status)
        } else {
            match h.body {
                Err(why) => (r matches Err(ProviderError::Parse(m)) && m@ == why@),
                Ok(resp) => exists|r0: Result<WeatherData, ProviderError>|
                    #[trigger] relocated(r0, location, r) && resp.record_result(r0),
            }
        },
    }
}

/// The message of a request that the service answered with `status`.
pub open spec fn status_message(status: u16) -> Seq<char> {
    "HTTP status "@ + decimal_text(status as nat)
}

/// `r` is `r0` with the record's location replaced by `location`.
pub open spec fn relocated(
    r0: Result<WeatherData, ProviderError>,
    location: Seq<char>,
    r: Result<WeatherData, ProviderError>,
) -> bool {
    match r0 {
        Err(e) => r == Err::<WeatherData, ProviderError>(e),
        Ok(d) => r matches Ok(d2) && d2.has_fields(
            location,
            d.datetime,
            d.temp_c,
            d.humidity,
            d.pressure,
            d.condition@,
            d.wind_kph,
            d.wind_deg,
        ),
    }
}

/// A successful current-conditions reply whose timestamp reads gives the current block's
/// record, dated by that timestamp and under the caller's `location`.
pub proof fn law_current_reply_echoes_location(
    location: Seq<char>,
    h: HttpReply,
    place: Location,
    current: WeatherCondition,
    r: Result<WeatherData, ProviderError>,
)
    requires
        200 <= h.status <= 299,
        h.body == Ok::<WeatherResponse, String>(
            WeatherResponse::Current { location: place, current: current },
        ),
        minute_text_seconds(current.last_updated@) is Some,
        http_outcome(location, Ok(h), r),
    ensures
        r matches Ok(d) && d.has_fields(
            location,
            minute_text_seconds(current.last_updated@)->0,
            current.temp_c,
            current.humidity,
            current.pressure_mb,
            current.condition.text@,
            current.wind_kph,
            current.wind_degree,
        ),
{
    let resp = WeatherResponse::Current { location: place, current: current };
    let r0 = choose|r0: Result<WeatherData, ProviderError>|
        #[trigger] relocated(r0, location, r) && resp.record_result(r0);
    assert(relocated(r0, location, r) && resp.record_result(r0));
}

} // verus!
