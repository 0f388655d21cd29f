//! Bounded cascading date selection: a calendar engine over an inclusive
//! range of instants, and a year / month / day selection state machine
//! built on it, together with the small text formatters of the entry form.

pub mod calendar;
pub mod form;
pub mod instant;
pub mod monetary;
pub mod range;
pub mod select_option;
pub mod selector;
