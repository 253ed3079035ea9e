//! Weather lookup: provider registry, request building and response
//! normalisation for several weather services.
pub mod app;
pub mod dates;
pub mod errors;
pub mod measure;
pub mod openweather;
pub mod provider;
pub mod registry;
pub mod settings;
pub mod weatherapi;
pub mod weather;
