//! What the figures, texts and decisions of the library are for, said of their
//! inputs and results alone.

pub mod charts;
pub mod decisions;
pub mod figures;
pub mod listings;
pub mod portfolio;
pub mod reports;
pub mod texts;
