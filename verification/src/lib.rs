//! Native bridge support library: the opaque handle issuance and tracking
//! subsystem that lets a managed client hold integer handles in place of
//! native objects, plus validation of user-supplied JVM parameters.

pub mod config;
pub mod handle;
