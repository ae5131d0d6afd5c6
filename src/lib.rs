//! Developer identity management: a registry of identities with their SSH
//! key pairs, and the switching state machine that keeps the installed key
//! files and the global version-control configuration in step with the one
//! active identity.
//!
//! Each operation of [`switcher::IdentitySwitcher`] updates the registry and
//! returns the external effects that the caller performs in order; the
//! [`laws`] module proves that performing them keeps the registry, the
//! installed keys and the configuration consistent.

pub mod identity;
pub mod laws;
pub mod registry;
pub mod switcher;
