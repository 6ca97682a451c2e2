//! Euro/dollar conversions on exchange rates published by the European
//! Central Bank: the calendar and decimal models, the money types, the
//! exchange-rate endpoint and the rules of the command line.

pub mod date;
pub mod decimal;
pub mod ecb;
pub mod money;
pub mod transat;
