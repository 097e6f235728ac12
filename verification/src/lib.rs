//! Bazaar flipping: item names, order tracking with first-in-first-out cost
//! accounting, the sell-first lifecycle and the local flip scanner.

pub mod bazaar_lifecycle;
pub mod bazaar_scanner;
pub mod clock;
pub mod double;
pub mod double_laws;
pub mod listing;
pub mod number;
pub mod packing;
pub mod rounding;
pub mod text;
pub mod text_laws;
pub mod bazaar_tracker;
