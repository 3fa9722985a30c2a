//! Converts free-form numeric text into Unix timestamps and renders them
//! as calendar date-times.

pub mod calendar;
pub mod convert;
pub mod digits;
pub mod error;
pub mod render;
pub mod sanitize;
pub mod text;
