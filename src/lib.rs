//! Manifest and reconciliation engine of an add-on manager: the record of
//! installed packages, the selection of a catalog entry's latest file, and
//! the comparison of installed packages against catalog lookups.

pub mod addon_manager;
pub mod app;
pub mod curse;
pub mod reconcile;
pub mod text;
pub mod settings;
pub mod pipeline;
