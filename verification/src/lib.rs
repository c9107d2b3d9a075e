//! A continuous card-presence polling loop for a payment-card reader.
//!
//! The library classifies the outcome of each read attempt, debounces
//! repeated presentations of the same card with a cooldown window, and
//! forwards recognized membership-card identifiers to a late-bound token
//! sink exactly once per presentation. The device protocol itself, the
//! sink's own behaviour and the async runtime live outside the library;
//! what is verified here is every decision the loop makes.

pub mod debounce;
pub mod dispatch;
pub mod outcome;
pub mod run;
pub mod token;
