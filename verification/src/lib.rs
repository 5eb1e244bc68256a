//! Core configuration model for an interactive installer wizard.
//!
//! The library holds the data records for each configuration domain
//! (boot disk layout, timezone and locale, root credentials, network),
//! derives defaults from detected hardware, validates candidate values,
//! and drives the wizard's step-by-step state machine.  Rendering,
//! hardware discovery and the actual installation are left to callers:
//! they hand in plain values and read plain values back.

pub mod ip;
pub mod laws;
pub mod locales;
pub mod options;
pub mod summary;
pub mod text;
pub mod validate;
pub mod wizard;
