//! Provider kinds, settings, API-key resolution and building the registry.
use crate::errors::AppError;
use crate::openweather::OpenWeather;
use crate::provider::Provider;
use crate::registry::{compare_names, law_list_one_name, ProviderRegistry};
use crate::weatherapi::{normalized_url, WeatherApi, DEFAULT_BASE_URL};
use vstd::prelude::*;
use vstd::string::StringExecFns;

verus! {

/// The lower-case form of a text, as `str::to_lowercase` gives it.
pub uninterp spec fn lower_of(s: Seq<char>) -> Seq<char>;

/// The upper-case form of a text, as `str::to_uppercase` gives it.
pub uninterp spec fn upper_of(s: Seq<char>) -> Seq<char>;

/// Relies on `str::to_lowercase`: the result depends on the characters alone.
#[verifier::external_body]
fn lowercase(s: &str) -> (r: String)
    ensures
        r@ == lower_of(s@),
{
    s.to_lowercase()
}

/// Relies on `str::to_uppercase`: the result depends on the characters alone.
#[verifier::external_body]
fn uppercase(s: &str) -> (r: String)
    ensures
        r@ == upper_of(s@),
{
    s.to_uppercase()
}

/// The services this application can talk to.
#[derive(Debug, Clone, Copy, PartialEq, Eq, Structural)]
pub enum ProviderKind {
    OpenWeather,
    WeatherApi,
}

/// The kind whose name is exactly `name`.
pub open spec fn kind_named(name: Seq<char>) -> Option<ProviderKind> {
    if name == "openweather"@ {
        Some(ProviderKind::OpenWeather)
    } else if name == "weatherapi"@ {
        Some(ProviderKind::WeatherApi)
    } else {
        None
    }
}

impl ProviderKind {
    pub open spec fn spec_name(self) -> Seq<char> {
        match self {
            ProviderKind::OpenWeather => "openweather"@,
            ProviderKind::WeatherApi => "weatherapi"@,
        }
    }

    /// The kind's name, in lower case.
    pub fn name(&self) -> (r: String)
        ensures
            r@ == self.spec_name(),
    {
        match self {
            ProviderKind::OpenWeather => String::from_str("openweather"),
            ProviderKind::WeatherApi => String::from_str("weatherapi"),
        }
    }

    /// The kind whose name is exactly `name`.
    pub fn from_name(name: &str) -> (r: Option<ProviderKind>)
        ensures
            r == kind_named(name@),
    {
        if compare_names(name, "openweather") == 0 {
            Some(ProviderKind::OpenWeather)
        } else if compare_names(name, "weatherapi") == 0 {
            Some(ProviderKind::WeatherApi)
        } else {
            None
        }
    }

    /// The kind whose name is `name` in any case; an unknown name is an
    /// `InvalidProvider` error carrying it.
    pub fn from_str(name: &str) -> (r: Result<Self, AppError>)
        ensures
            match kind_named(lower_of(name@)) {
                Some(k) => r == Ok::<ProviderKind, AppError>(k),
                None => (r matches Err(AppError::InvalidProvider(n)) && n@ == name@),
            },
    {
        let lower = lowercase(name);
        match Self::from_name(lower.as_str()) {
            Some(k) => Ok(k),
            None => Err(AppError::InvalidProvider(String::from_str(name))),
        }
    }
}

impl Default for ProviderKind {
    fn default() -> (r: Self)
        ensures
            r == ProviderKind::WeatherApi,
    {
        ProviderKind::WeatherApi
    }
}

/// The settings of one provider.
#[derive(Debug, Clone, PartialEq, Eq)]
pub struct ProviderSettings {
    pub api_key: String,
}

/// The application's settings: the provider used by default and each provider's
/// settings under its name.
#[derive(Debug, Clone, PartialEq, Eq)]
pub struct Settings {
    pub default_provider: String,
    pub providers: Vec<(String, ProviderSettings)>,
}

/// Entry `i` is the first one under `key`.
pub open spec fn first_at<V>(s: Seq<(String, V)>, key: Seq<char>, i: int) -> bool {
    &&& 0 <= i < s.len()
    &&& s[i].0@ == key
    &&& forall|j: int| 0 <= j < i ==> (#[trigger] s[j]).0@ != key
}

/// Some entry is under `key`.
pub open spec fn has_entry<V>(s: Seq<(String, V)>, key: Seq<char>) -> bool {
    exists|i: int| 0 <= i < s.len() && (#[trigger] s[i]).0@ == key
}

/// The value of the first entry under `key`.
pub open spec fn first_value<V>(s: Seq<(String, V)>, key: Seq<char>) -> V {
    s[choose|i: int| first_at(s, key, i)].1
}

proof fn lemma_first_at_unique<V>(s: Seq<(String, V)>, key: Seq<char>, i: int)
    requires
        first_at(s, key, i),
    ensures
        has_entry(s, key),
        first_value(s, key) == s[i].1,
{
    assert(s[i].0@ == key);
    let c = choose|c: int| first_at(s, key, c);
    assert(first_at(s, key, c));
    if c < i {
        assert(s[c].0@ != key);
    } else if c > i {
        assert(s[i].0@ != key);
    }
}

/// The index of the first entry under `key`.
fn find_first<V>(s: &Vec<(String, V)>, key: &str) -> (r: Option<usize>)
    ensures
        r matches Some(i) ==> first_at(s@, key@, i as int),
        r is None ==> !has_entry(s@, key@),
{
    let n = s.len();
    let mut i: usize = 0;
    while i < n
        invariant
            n == s@.len(),
            i <= n,
            forall|j: int| 0 <= j < i ==> (#[trigger] s@[j]).0@ != key@,
        decreases n - i,
    {
        if compare_names(s[i].0.as_str(), key) == 0 {
            return Some(i);
        }
        i = i + 1;
    }
    None
}

/// The name of the environment variable that overrides a provider's API key.
pub open spec fn key_variable(provider_name: Seq<char>) -> Seq<char> {
    upper_of(provider_name) + "_API_KEY"@
}

/// `PROVIDER_API_KEY` for the provider `provider`.
pub fn api_key_variable(provider_name: &str) -> (r: String)
    ensures
        r@ == key_variable(provider_name@),
{
    let mut r = uppercase(provider_name);
    r.append("_API_KEY");
    r
}

/// A key that a provider accepts: present and not empty.
pub open spec fn usable_key(k: Option<Seq<char>>) -> bool {
    k matches Some(v) && v.len() > 0
}

impl Provider {
    /// The provider is of `kind`, built with `key` (and the production endpoint).
    pub open spec fn built_as(self, kind: ProviderKind, key: Seq<char>) -> bool {
        match (self, kind) {
            (Provider::OpenWeather(p), ProviderKind::OpenWeather) => p.key() == key,
            (Provider::WeatherApi(p), ProviderKind::WeatherApi) => p.key() == key && normalized_url(
                DEFAULT_BASE_URL@,
            ) == Some(p.base()),
            _ => false,
        }
    }
}

impl Settings {
    /// No two provider entries share a name, as in a map from names to settings.
    pub open spec fn wf(&self) -> bool {
        forall|i: int, j: int|
            0 <= i < j < self.providers@.len() ==> #[trigger] self.entry_name(i)
                != #[trigger] self.entry_name(j)
    }

    /// Whether no two provider entries share a name.
    pub fn has_unique_names(&self) -> (r: bool)
        ensures
            r == self.wf(),
    {
        let n = self.providers.len();
        let mut a: usize = 0;
        while a < n
            invariant
                n == self.providers@.len(),
                a <= n,
                forall|i: int, j: int|
                    0 <= i < a && i < j < n ==> #[trigger] self.entry_name(i)
                        != #[trigger] self.entry_name(j),
            decreases n - a,
        {
            let mut b: usize = a + 1;
            while b < n
                invariant
                    n == self.providers@.len(),
                    a < n,
                    a < b <= n,
                    forall|i: int, j: int|
                        0 <= i < a && i < j < n ==> #[trigger] self.entry_name(i)
                            != #[trigger] self.entry_name(j),
                    forall|j: int| a < j < b ==> self.entry_name(a as int) != #[trigger] self.entry_name(j),
                decreases n - b,
            {
                if compare_names(self.providers[a].0.as_str(), self.providers[b].0.as_str()) == 0 {
                    proof {
                        assert(self.entry_name(a as int) == self.entry_name(b as int));
                    }
                    return false;
                }
                b = b + 1;
            }
            proof {
                assert forall|i: int, j: int|
                    0 <= i < a + 1 && i < j < n implies #[trigger] self.entry_name(i)
                        != #[trigger] self.entry_name(j) by {
                    if i == a {
                        assert(self.entry_name(a as int) != self.entry_name(j));
                    }
                }
            }
            a = a + 1;
        }
        true
    }

    /// The API key of `provider_name`: the first value of its variable in `env` if there
    /// is one, else the key in the first settings entry of that name.
    pub open spec fn resolved_key(&self, env: Seq<(String, String)>, provider_name: Seq<char>) -> Option<Seq<char>> {
        self.key_with_variable(env, key_variable(provider_name), provider_name)
    }

    pub open spec fn entry_name(&self, i: int) -> Seq<char> {
        self.providers@[i].0@
    }

    /// Entry `i` names a known provider that cannot be built.
    pub open spec fn fails_at(&self, env: Seq<(String, String)>, i: int) -> bool {
        let name = self.entry_name(i);
        match kind_named(name) {
            None => false,
            Some(ProviderKind::OpenWeather) => !usable_key(self.resolved_key(env, name)),
            Some(ProviderKind::WeatherApi) => !usable_key(self.resolved_key(env, name))
                || normalized_url(DEFAULT_BASE_URL@) is None,
        }
    }

    pub open spec fn first_failure(&self, env: Seq<(String, String)>, i: int) -> bool {
        &&& 0 <= i < self.providers@.len()
        &&& self.fails_at(env, i)
        &&& forall|j: int| 0 <= j < i ==> !#[trigger] self.fails_at(env, j)
    }

    pub open spec fn any_failure(&self, env: Seq<(String, String)>) -> bool {
        exists|i: int| 0 <= i < self.providers@.len() && #[trigger] self.fails_at(env, i)
    }

    /// `name` is the name of an entry and of a known provider.
    pub open spec fn recognized(&self, name: Seq<char>) -> bool {
        kind_named(name) is Some && exists|i: int|
            0 <= i < self.providers@.len() && #[trigger] self.entry_name(i) == name
    }

    /// The API key for `provider_name`: the first value of `variable` in `env`, else the
    /// key of the first settings entry named `provider_name`.
    pub open spec fn key_with_variable(
        &self,
        env: Seq<(String, String)>,
        variable: Seq<char>,
        provider_name: Seq<char>,
    ) -> Option<Seq<char>> {
        if has_entry(env, variable) {
            Some(first_value(env, variable)@)
        } else if has_entry(self.providers@, provider_name) {
            Some(first_value(self.providers@, provider_name).api_key@)
        } else {
            None
        }
    }

    /// The API key for `provider_name`, the value of the environment variable `variable`
    /// before the settings' key.
    pub fn api_key_with_variable(
        &self,
        variable: &str,
        provider_name: &str,
        env: &Vec<(String, String)>,
    ) -> (r: Option<String>)
        ensures
            r is Some <==> self.key_with_variable(env@, variable@, provider_name@) is Some,
            r matches Some(k) ==> self.key_with_variable(env@, variable@, provider_name@) == Some(k@),
    {
        match find_first(env, variable) {
            Some(i) => {
                proof {
                    lemma_first_at_unique(env@, variable@, i as int);
                }
                Some(env[i].1.clone())
            },
            None => match find_first(&self.providers, provider_name) {
                Some(i) => {
                    proof {
                        lemma_first_at_unique(self.providers@, provider_name@, i as int);
                    }
                    Some(self.providers[i].1.api_key.clone())
                },
                None => None,
            },
        }
    }

    /// The API key for `provider_name`, the environment's value before the settings'.
    /// `env` holds the environment's variables as (name, value) pairs.
    pub fn get_api_key(&self, provider_name: &str, env: &Vec<(String, String)>) -> (r: Option<String>)
        ensures
            r is Some <==> self.resolved_key(env@, provider_name@) is Some,
            r matches Some(k) ==> self.resolved_key(env@, provider_name@) == Some(k@),
    {
        let var = api_key_variable(provider_name);
        self.api_key_with_variable(var.as_str(), provider_name, env)
    }
}

/// What building the registry from `settings` and `env` gives: the first entry of a
/// known provider that cannot be built is a `MissingApiKey` error naming it; with no
/// known provider at all, a `MissingApiKey` error saying so; else a registry with one
/// provider for each known name, built with its resolved key.
pub open spec fn build_outcome(
    settings: Settings,
    env: Seq<(String, String)>,
    r: Result<ProviderRegistry<Provider>, AppError>,
) -> bool {
    if settings.any_failure(env) {
        r matches Err(AppError::MissingApiKey(n)) && exists|i: int|
            #[trigger] settings.first_failure(env, i) && n@ == settings.entry_name(i)
    } else if !exists|k: Seq<char>| #[trigger] settings.recognized(k) {
        r matches Err(AppError::MissingApiKey(n)) && n@ == "No valid providers configured"@
    } else {
        r matches Ok(reg) && {
            &&& reg.wf()
            &&& forall|k: Seq<char>| #[trigger] reg@.contains_key(k) <==> settings.recognized(k)
            &&& forall|k: Seq<char>|
                #[trigger] reg@.contains_key(k) ==> reg@[k].built_as(
                    kind_named(k)->0,
                    settings.resolved_key(env, k)->0,
                )
        }
    }
}

/// Builds the registry of the providers named in `settings`, with API keys resolved
/// against `env` (the environment's variables as (name, value) pairs). Each name is
/// registered once, since the settings' names are distinct.
pub fn build_registry(settings: &Settings, env: &Vec<(String, String)>) -> (r: Result<ProviderRegistry<Provider>, AppError>)
    requires
        settings.wf(),
    ensures
        build_outcome(*settings, env@, r),
{
    let mut reg: ProviderRegistry<Provider> = ProviderRegistry::new();
    let n = settings.providers.len();
    let mut i: usize = 0;
    while i < n
        invariant
            n == settings.providers@.len(),
            i <= n,
            reg.wf(),
            forall|j: int| 0 <= j < i ==> !#[trigger] settings.fails_at(env@, j),
            forall|k: Seq<char>|
                #[trigger] reg@.contains_key(k) <==> (kind_named(k) is Some && exists|j: int|
                    0 <= j < i && #[trigger] settings.entry_name(j) == k),
            forall|k: Seq<char>|
                #[trigger] reg@.contains_key(k) ==> reg@[k].built_as(
                    kind_named(k)->0,
                    settings.resolved_key(env@, k)->0,
                ),
        decreases n - i,
    {
        let name = &settings.providers[i].0;
        let ghost gname = name@;
        assert(settings.entry_name(i as int) == gname);
        match ProviderKind::from_name(name.as_str()) {
            None => {},
            Some(kind) => {
                let key = settings.get_api_key(name.as_str(), env);
                let built = match kind {
                    ProviderKind::OpenWeather => match OpenWeather::new(key) {
                        Ok(p) => Ok(Provider::OpenWeather(p)),
                        Err(_) => Err(()),
                    },
                    ProviderKind::WeatherApi => match WeatherApi::new(key) {
                        Ok(p) => Ok(Provider::WeatherApi(p)),
                        Err(_) => Err(()),
                    },
                };
                match built {
                    Err(_) => {
                        proof {
                            assert(settings.fails_at(env@, i as int));
                            assert(settings.first_failure(env@, i as int));
                            assert(settings.any_failure(env@));
                        }
                        return Err(AppError::MissingApiKey(name.clone()));
                    },
                    Ok(p) => {
                        proof {
                            assert(p.built_as(kind, settings.resolved_key(env@, gname)->0));
                        }
                        let ghost before = reg@;
                        reg.register(name.as_str(), p);
                        proof {
                            assert forall|k: Seq<char>|
                                #[trigger] reg@.contains_key(k) <==> (kind_named(k) is Some && exists|j: int|
                                    0 <= j < i + 1 && #[trigger] settings.entry_name(j) == k) by {
                                if k == gname {
                                    assert(settings.entry_name(i as int) == k);
                                } else if reg@.contains_key(k) {
                                    assert(before.contains_key(k));
                                } else if kind_named(k) is Some && exists|j: int|
                                    0 <= j < i + 1 && #[trigger] settings.entry_name(j) == k {
                                    let j = choose|j: int| 0 <= j < i + 1 && #[trigger] settings.entry_name(j) == k;
                                    assert(j < i);
                                    assert(before.contains_key(k));
                                }
                            }
                        }
                    },
                }
            },
        }
        proof {
            if kind_named(gname) is None {
                assert forall|k: Seq<char>|
                    #[trigger] reg@.contains_key(k) <==> (kind_named(k) is Some && exists|j: int|
                        0 <= j < i + 1 && #[trigger] settings.entry_name(j) == k) by {
                    if kind_named(k) is Some && exists|j: int|
                        0 <= j < i + 1 && #[trigger] settings.entry_name(j) == k {
                        let j = choose|j: int| 0 <= j < i + 1 && #[trigger] settings.entry_name(j) == k;
                        if j == i {
                            assert(k == gname);
                        }
                    }
                }
            }
        }
        i = i + 1;
    }
    proof {
        assert(!settings.any_failure(env@));
        assert forall|k: Seq<char>| #[trigger] reg@.contains_key(k) <==> settings.recognized(k) by {}
    }
    if reg.is_empty() {
        proof {
            assert forall|k: Seq<char>| !#[trigger] settings.recognized(k) by {
                assert(!Map::<Seq<char>, Provider>::empty().contains_key(k));
            }
        }
        Err(AppError::MissingApiKey(String::from_str("No valid providers configured")))
    } else {
        proof {
            assert(exists|k: Seq<char>| reg@.contains_key(k)) by {
                if !exists|k: Seq<char>| reg@.contains_key(k) {
                    assert(reg@ =~= Map::<Seq<char>, Provider>::empty());
                }
            }
            let k = choose|k: Seq<char>| reg@.contains_key(k);
            assert(settings.recognized(k));
        }
        Ok(reg)
    }
}

/// With no entry that names a known provider and resolves a usable key, building the
/// registry fails.
pub proof fn law_build_needs_a_usable_provider(
    settings: Settings,
    env: Seq<(String, String)>,
    r: Result<ProviderRegistry<Provider>, AppError>,
)
    requires
        build_outcome(settings, env, r),
        forall|i: int|
            0 <= i < settings.providers@.len() ==> (kind_named(#[trigger] settings.entry_name(i)) is None
                || !usable_key(settings.resolved_key(env, settings.entry_name(i)))),
    ensures
        r matches Err(AppError::MissingApiKey(_)),
{
    if !settings.any_failure(env) {
        if exists|k: Seq<char>| #[trigger] settings.recognized(k) {
            let k = choose|k: Seq<char>| #[trigger] settings.recognized(k);
            let i = choose|i: int| 0 <= i < settings.providers@.len() && #[trigger] settings.entry_name(i) == k;
            assert(settings.fails_at(env, i));
        }
    }
}

/// Settings with exactly one entry, naming a known provider that can be built, give a
/// registry that lists exactly one name.
pub proof fn law_build_single_provider(
    settings: Settings,
    env: Seq<(String, String)>,
    r: Result<ProviderRegistry<Provider>, AppError>,
)
    requires
        build_outcome(settings, env, r),
        settings.providers@.len() == 1,
        kind_named(settings.entry_name(0)) is Some,
        !settings.fails_at(env, 0),
    ensures
        r matches Ok(reg) && reg.names_view().len() == 1,
{
    let a = settings.entry_name(0);
    assert(!settings.any_failure(env));
    assert(settings.recognized(a));
    let reg = r->Ok_0;
    assert forall|k: Seq<char>| reg@.contains_key(k) <==> k == a by {
        if settings.recognized(k) {
            let i = choose|i: int| 0 <= i < settings.providers@.len() && #[trigger] settings.entry_name(i) == k;
            assert(i == 0);
        }
    }
    law_list_one_name(reg, a);
}

} // verus!
