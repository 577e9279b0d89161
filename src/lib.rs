//! A terminal habit tracker: habit records with streak statistics, a
//! calendar-aligned completion heatmap, a navigable grid of habit cards
//! with a scrolling viewport, and a modal input state machine.
//!
//! Dates are day numbers counted from 1970-01-01 (day 0), the numbering
//! that chrono's `NaiveDate::to_epoch_days` uses.

pub mod calendar;
pub mod habit;
pub mod heatmap;
pub mod app;
pub mod text;
pub mod ui;
