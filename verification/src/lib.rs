//! Cache-keyed fetch orchestration for a currency converter.
//!
//! The crate decides, for a source currency, a set of target codes and a
//! reading of the clock, whether stored exchange rates satisfy a request,
//! which codes still have to be fetched, and how fetched rates are merged
//! into the stored record. Reading files and talking to the network is left
//! to the caller, which performs the steps this crate asks for.

pub mod cache;
pub mod clock;
pub mod code_map;
pub mod error;
pub mod exchange;
pub mod http;
pub mod lookup;
pub mod params;
pub mod text;
pub mod validation;
