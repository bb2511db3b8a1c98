//! A rule-driven engine that rewrites the call sites of renamed structs, methods,
//! fields and enum variants, and applies the resulting edits to source text.

pub mod dispatch;
pub mod laws;
pub mod preloader;
pub mod registry;
pub mod runner;
pub mod sample;
pub mod semantic;
pub mod session;
pub mod splice;
pub mod upgrader;
pub mod utils;
pub mod version;
pub mod visitor;

pub use preloader::Preloader;
pub use registry::{Krate, Vers, Versions};
pub use runner::{Plan, Runner};
pub use sample::runner;
pub use semantic::SemverVersion;
pub use upgrader::{Edit, Patch, TextRange, ToTextRange, Upgrader};
pub use utils::{normalize, RunError};
pub use version::Version;
