//! Collection and filtering of structured trace events: per-span field
//! stores, scope aggregation, a bounded event buffer, a severity threshold
//! and a glob filter over event targets.

pub mod buffer;
pub mod collector;
pub mod components;
pub mod event;
pub mod fields;
pub mod glob;
pub mod level;
pub mod level_filter;
pub mod logs;
pub mod name_order;
pub mod prefix;
pub mod shared;
pub mod state;
pub mod string;
