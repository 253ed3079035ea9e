//! The application façade: find a provider by name, let it form its request, and
//! turn what the transport brings back into a record or an application error.
use crate::errors::{AppError, ProviderError};
use crate::provider::{FetchReply, FetchRequest, Provider};
use crate::registry::{strictly_sorted, ProviderRegistry};
use crate::weather::{CalendarDate, WeatherData};
use vstd::prelude::*;
use vstd::string::StringExecFns;

verus! {

/// A provider's outcome as the application reports it: success unchanged, a provider
/// error wrapped with its kind kept.
pub open spec fn lifted<T>(r0: Result<T, ProviderError>, r: Result<T, AppError>) -> bool {
    match r0 {
        Ok(x) => r == Ok::<T, AppError>(x),
        Err(e) => r == Err::<T, AppError>(AppError::Provider(e)),
    }
}

/// Weather lookups over a fixed set of named providers.
pub struct WeatherApp {
    registry: ProviderRegistry<Provider>,
}

impl WeatherApp {
    /// The providers by name.
    pub closed spec fn view(&self) -> Map<Seq<char>, Provider> {
        self.registry@
    }

    pub closed spec fn wf(&self) -> bool {
        self.registry.wf()
    }

    /// The provider names in the order `list` gives them.
    pub closed spec fn names(&self) -> Seq<Seq<char>> {
        self.registry.names_view()
    }

    pub fn new(registry: ProviderRegistry<Provider>) -> (r: Self)
        requires
            registry.wf(),
        ensures
            r.wf(),
            r@ == registry@,
            r.names() == registry.names_view(),
    {
        WeatherApp { registry }
    }

    /// The request for weather at `location` (on `date`, if given) from the provider
    /// named `provider_name`. An unknown name is an `InvalidProvider` error naming it; a
    /// provider's refusal comes back as a `Provider` error of the same kind.
    pub fn prepare(&self, provider_name: &str, location: &str, date: Option<CalendarDate>) -> (r: Result<FetchRequest, AppError>)
        requires
            self.wf(),
            date matches Some(d) ==> d.wf(),
        ensures
            !self@.contains_key(provider_name@) ==> (r matches Err(AppError::InvalidProvider(n))
                && n@ == provider_name@),
            self@.contains_key(provider_name@) ==> exists|r0: Result<FetchRequest, ProviderError>|
                #[trigger] lifted(r0, r) && self@[provider_name@].request_outcome(location@, date, r0),
    {
        match self.registry.get(provider_name) {
            None => Err(AppError::InvalidProvider(String::from_str(provider_name))),
            Some(p) => {
                let r0 = p.request(location, date);
                let r = match r0 {
                    Ok(q) => Ok(q),
                    Err(e) => Err(AppError::Provider(e)),
                };
                proof {
                    assert(lifted(r0, r));
                }
                r
            },
        }
    }

    /// The record that `reply` gives for a request for `location` made through
    /// `prepare` with the same provider name.
    pub fn complete(&self, provider_name: &str, location: &str, reply: FetchReply) -> (r: Result<WeatherData, AppError>)
        requires
            self.wf(),
            reply.wf(),
        ensures
            !self@.contains_key(provider_name@) ==> (r matches Err(AppError::InvalidProvider(n))
                && n@ == provider_name@),
            self@.contains_key(provider_name@) ==> exists|r0: Result<WeatherData, ProviderError>|
                #[trigger] lifted(r0, r) && self@[provider_name@].reply_outcome(location@, reply, r0),
    {
        match self.registry.get(provider_name) {
            None => Err(AppError::InvalidProvider(String::from_str(provider_name))),
            Some(p) => {
                let r0 = p.finish(location, reply);
                let r = match r0 {
                    Ok(d) => Ok(d),
                    Err(e) => Err(AppError::Provider(e)),
                };
                proof {
                    assert(lifted(r0, r));
                }
                r
            },
        }
    }

    /// Whether a provider of this name is known.
    pub fn provider_exist(&self, name: &str) -> (r: bool)
        requires
            self.wf(),
        ensures
            r == self@.contains_key(name@),
    {
        self.registry.get(name).is_some()
    }

    /// The provider names, in ascending order.
    pub fn list(&self) -> (r: Vec<String>)
        requires
            self.wf(),
        ensures
            r@.map_values(|s: String| s@) == self.names(),
            strictly_sorted(self.names()),
            forall|k: Seq<char>| self.names().contains(k) <==> #[trigger] self@.contains_key(k),
    {
        self.registry.list_providers()
    }
}

/// Holds the lookup that providers are found through.
pub struct ProviderManager<L> {
    lookup: L,
}

impl<L> ProviderManager<L> {
    pub closed spec fn spec_lookup(&self) -> L {
        self.lookup
    }

    pub fn new(lookup: L) -> (r: Self)
        ensures
            r.spec_lookup() == lookup,
    {
        ProviderManager { lookup }
    }

    pub fn lookup(&self) -> (r: &L)
        ensures
            *r == self.spec_lookup(),
    {
        &self.lookup
    }
}

impl<P> ProviderManager<ProviderRegistry<P>> {
    /// The provider registered under `name`, if any.
    pub fn get(&self, name: &str) -> (r: Option<&P>)
        requires
            self.spec_lookup().wf(),
        ensures
            r is Some <==> self.spec_lookup()@.contains_key(name@),
            r matches Some(p) ==> *p == self.spec_lookup()@[name@],
    {
        self.lookup.get(name)
    }
}

/// Every provider refuses an empty location with `InvalidLocation`, forming no request
/// at all.
pub proof fn law_empty_location_refused(
    p: Provider,
    date: Option<CalendarDate>,
    r: Result<FetchRequest, ProviderError>,
)
    requires
        p.request_outcome(Seq::<char>::empty(), date, r),
    ensures
        r matches Err(ProviderError::InvalidLocation(l)) && l@.len() == 0,
{
}

/// Through the application, an empty location for a registered provider comes back as
/// that provider's `InvalidLocation`, wrapped as a provider error.
pub proof fn law_app_empty_location(
    app: WeatherApp,
    provider_name: Seq<char>,
    date: Option<CalendarDate>,
    r: Result<FetchRequest, AppError>,
)
    requires
        app@.contains_key(provider_name),
        exists|r0: Result<FetchRequest, ProviderError>|
            #[trigger] lifted(r0, r) && app@[provider_name].request_outcome(Seq::<char>::empty(), date, r0),
    ensures
        r matches Err(AppError::Provider(ProviderError::InvalidLocation(l))) && l@.len() == 0,
{
}

} // verus!
