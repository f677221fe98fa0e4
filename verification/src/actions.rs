//! Action executors: one submodule per resource kind, each combining the
//! idempotency gate for that kind with the pure computations (paths,
//! command lines, file contents) that the kind needs.

pub mod app_image;
pub mod apt;
pub mod exec;
pub mod file;
pub mod s3;
