//! The European Central Bank exchange-rate API: the response model and the
//! endpoint logic.

pub mod endpoints;
pub mod models;
