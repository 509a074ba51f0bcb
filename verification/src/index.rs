//! The namespace index: its schedule, its stored generations, its searches and
//! the coordination of the builds that fill it.

pub mod background;
pub mod builds;
pub mod cache;
pub mod cleanup;
pub mod entries;
pub mod generations;
pub mod health;
pub mod inventory_run;
pub mod lookup;
pub mod manager;
pub mod metrics;
pub mod profile;
pub mod ranking;
pub mod refresh;
pub mod runtime;
pub mod schedule;
pub mod search;
pub mod status;
pub mod storage;
