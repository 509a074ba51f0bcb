//! Decision logic of the OPC DA bridge gateway.

pub mod browse;
pub mod collections;
pub mod config;
pub mod controller;
pub mod host_metrics;
pub mod index;
pub mod logging;
pub mod measurement;
pub mod numerals;
pub mod opc;
pub mod opc_da_adapter;
pub mod paths;
pub mod text;
pub mod time;
pub mod tokens;
