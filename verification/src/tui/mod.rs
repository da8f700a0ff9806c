//! State and key handling of the terminal views.
pub mod app;
pub mod arbiter;
pub mod diagnostics;
pub mod findings;
pub mod help;
pub mod input;
pub mod keys;
pub mod network;
pub mod ordering;
pub mod overview;
pub mod rules;
pub mod selection;
pub mod sparklines;
pub mod units;
pub mod world3d;
