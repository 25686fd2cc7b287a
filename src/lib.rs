//! Conversions between day counts and dates of the French Republican
//! Calendar, under two leap-year rules: the equinox rule, read from a
//! leap-year table, and the Romme rule, computed.

pub mod calendar;
pub mod date;
pub mod gregorian;
pub mod month;
pub mod numeral;
pub mod qdate;
pub mod romme_date;
pub mod table;
pub mod weekday;

pub use date::{Date, DateError, FrcDate};
pub use qdate::QDate;
pub use romme_date::RommeDate;
pub use table::LeapYearTable;
