//! A parking-meter ledger: operators registered by an administrator open
//! parking sessions for license plates, fees are priced per started minute
//! at the operator's hourly rate, and sessions are settled by payment.
pub mod store;
pub mod pricing;
pub mod model;
pub mod contract;
