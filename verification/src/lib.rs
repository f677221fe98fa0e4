//! A declarative single-host provisioner core: configuration documents
//! describe packages, files, scripts and repackaged application bundles,
//! and the library decides, for each declared resource, whether the host
//! already matches the declared state and what has to be done when it
//! does not. All decision logic lives here and is verified; process
//! execution, network fetches and filesystem writes are performed by the
//! surrounding application, which feeds their outcomes back in.

pub mod actions;
pub mod config;
pub mod convergence;
pub mod modules;
pub mod opts;
pub mod provisioner;
pub mod render;
pub mod result;
pub mod templates;
