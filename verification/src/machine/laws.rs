//! What the machine promises, over any number of keys and events.

pub mod aggregates;
pub mod channels;
pub mod effects;
pub mod lifecycle;
pub mod loading;
pub mod mutations;
pub mod outcomes;
pub mod races;
pub mod reach;
pub mod reads;
pub mod staleness;
pub mod steps;
pub mod terms;
pub mod timing;
pub mod values;
pub mod waiting;
pub mod writes;
