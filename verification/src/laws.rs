//! What holds of the library as a whole.

pub mod calls;
pub mod contents;
pub mod datasets;
pub mod merging;
pub mod phases;
pub mod stages;
pub mod texts;
pub mod uploads;
pub mod validation;
pub mod values;
