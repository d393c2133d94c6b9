//! What holds of the library as a whole, stated on bytes, characters and numbers.

pub mod batches;
pub mod calls;
pub mod endpoints;
pub mod frames;
pub mod messages;
pub mod numbers;
pub mod queries;
pub mod relays;
pub mod reports;
pub mod texts;
pub mod values;
