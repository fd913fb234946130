//! Aggregation of weather forecasts from several independent providers.
//!
//! A [`forecast::Forecast`] maps calendar dates to temperatures and remembers
//! which provider it came from. A [`aggregate::ForecastAggregate`] collects the
//! forecasts of one request together with a warning for every provider whose
//! forecast could not be used, and averages what is left.

pub mod date;
pub mod entries;
pub mod fail;
pub mod forecast;
pub mod aggregate;
pub mod average;
pub mod provider;
pub mod manager;
pub mod text;
pub mod web;
