//! What holds of the records whatever they are read from: the laws of the
//! mapping, each proved from the definitions of `decoded` and `encoded`.

pub mod literals;
pub mod refusals;
pub mod round_trip;
pub mod tags;
