//! Self-extracting application bundles: the container format, the plan of the
//! staged resource tree, the bundler's command line and build steps, and the
//! decisions of the launcher stub embedded in every bundle.
pub mod format;
pub mod staging;
pub mod cli;
pub mod launcher;
pub mod stub;
pub mod pipeline;
pub mod toolchain;
