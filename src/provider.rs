//! The providers the application can use, and the requests and replies that pass
//! between them and the transport.
use crate::errors::ProviderError;
use crate::openweather::{current_outcome, CurrentQuery, CurrentReading, OpenWeather};
use crate::weather::{CalendarDate, WeatherData};
use crate::weatherapi::{http_outcome, HttpReply, WeatherApi};
use vstd::prelude::*;
use vstd::string::StringExecFns;

verus! {

/// One configured provider.
#[derive(Debug, Clone, PartialEq, Eq)]
pub enum Provider {
    OpenWeather(OpenWeather),
    WeatherApi(WeatherApi),
}

/// What the transport is to do for one fetch.
#[derive(Debug, Clone, PartialEq, Eq)]
pub enum FetchRequest {
    /// Ask the current-conditions service.
    Current(CurrentQuery),
    /// Send an HTTP GET to this URL.
    Http(String),
}

/// What the transport brought back.
#[derive(Debug, PartialEq, Eq)]
pub enum FetchReply {
    /// The current-conditions service's reading, or its error message.
    Current(Result<CurrentReading, String>),
    /// The HTTP reply, or the transport's error message.
    Http(Result<HttpReply, String>),
}

impl FetchReply {
    /// A reading in the reply can be converted without overflow.
    pub open spec fn wf(&self) -> bool {
        self matches FetchReply::Current(Ok(w)) ==> w.wf()
    }
}

impl Provider {
    /// What asking this provider for weather at `location` on `date` gives.
    pub open spec fn request_outcome(
        &self,
        location: Seq<char>,
        date: Option<CalendarDate>,
        r: Result<FetchRequest, ProviderError>,
    ) -> bool {
        match self {
            Provider::OpenWeather(p) => if location.len() == 0 {
                r matches Err(ProviderError::InvalidLocation(l)) && l@ == location
            } else {
                r matches Ok(FetchRequest::Current(q)) && p.is_query(location, q)
            },
            Provider::WeatherApi(p) => match r {
                Ok(FetchRequest::Http(u)) => p.url_outcome(location, date, Ok(u)),
                Ok(FetchRequest::Current(_)) => false,
                Err(e) => p.url_outcome(location, date, Err(e)),
            },
        }
    }

    /// What this provider makes of `reply` to a request for `location`. A reply of the
    /// other provider's kind is unexpected.
    pub open spec fn reply_outcome(
        &self,
        location: Seq<char>,
        reply: FetchReply,
        r: Result<WeatherData, ProviderError>,
    ) -> bool {
        match (self, reply) {
            (Provider::OpenWeather(_), FetchReply::Current(x)) => current_outcome(x, r),
            (Provider::WeatherApi(_), FetchReply::Http(x)) => http_outcome(location, x, r),
            _ => r matches Err(ProviderError::Unexpected(_)),
        }
    }

    /// The request for weather at `location` on `date` (the current-conditions
    /// provider ignores the date).
    pub fn request(&self, location: &str, date: Option<CalendarDate>) -> (r: Result<FetchRequest, ProviderError>)
        requires
            date matches Some(d) ==> d.wf(),
        ensures
            self.request_outcome(location@, date, r),
    {
        match self {
            Provider::OpenWeather(p) => match p.query(location) {
                Ok(q) => Ok(FetchRequest::Current(q)),
                Err(e) => Err(e),
            },
            Provider::WeatherApi(p) => match p.request_url(location, date) {
                Ok(u) => Ok(FetchRequest::Http(u)),
                Err(e) => Err(e),
            },
        }
    }

    /// The record that `reply` gives for a request for `location`.
    pub fn finish(&self, location: &str, reply: FetchReply) -> (r: Result<WeatherData, ProviderError>)
        requires
            reply.wf(),
        ensures
            self.reply_outcome(location@, reply, r),
    {
        match self {
            Provider::OpenWeather(_) => match reply {
                FetchReply::Current(x) => OpenWeather::finish(x),
                FetchReply::Http(_) => Err(
                    ProviderError::Unexpected(String::from_str("reply is not a reading")),
                ),
            },
            Provider::WeatherApi(_) => match reply {
                FetchReply::Http(x) => WeatherApi::finish(location, x),
                FetchReply::Current(_) => Err(
                    ProviderError::Unexpected(String::from_str("reply is not an HTTP reply")),
                ),
            },
        }
    }
}

} // verus!
