//! Composable validation primitives over a JSON-like value model, with
//! breadcrumb paths for every violation and a bundle accessor that presents an
//! extracted directory or an in-memory archive through one interface.

pub mod issue;
pub mod value;
pub mod paths;
pub mod validators;
pub mod bundle;
pub mod bundle_checks;
pub mod laws;
