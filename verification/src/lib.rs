//! Statistics of property prices around stations: the searches that are
//! asked of a listing service, the adverts that are made of its answers, the
//! summaries of their prices, and the order in which a run fetches, retries
//! and stores.

pub mod aggregator;
pub mod cli;
pub mod dates;
pub mod db;
pub mod error;
pub mod ext;
pub mod gate;
pub mod http;
pub mod markup;
pub mod order;
pub mod pattern;
pub mod property;
pub mod property_log;
pub mod retry;
pub mod rightmove;
pub mod school;
pub mod stats;
pub mod text;
pub mod tube;
pub mod tube_api;
pub mod update_property;
