//! Core of a packaging and installation toolchain for `.lis` archives.
//!
//! A `.lis` package is a compressed tar archive that holds an application,
//! what it needs, and a metadata document that says what is in it. This
//! library holds what the tools around such packages decide and compute:
//!
//! - the metadata document ([`metadata`]) and the project from which a
//!   package is built ([`project`]), with the documents they are written as
//!   ([`document`], [`metadata_document`], [`project_document`], [`xml`]);
//! - the authoring session ([`builder`]), the check of a project and the
//!   places of a build ([`packaging`]), the steps of a build
//!   ([`build_steps`]) and what a build tells the author ([`build_log`]);
//! - the layout of an archive ([`format`]) and what goes into one
//!   ([`dependencies`], [`desktop`]);
//! - the installation: where things go ([`install_paths`], [`installer`]),
//!   its steps ([`install_steps`]), its record ([`manifest`]) and the
//!   screens that lead through it ([`wizard`]).
//!
//! The library touches no file. Where work on disk is to be done, it says
//! what is to be done and is told how it went.

pub mod build_log;
pub mod build_steps;
pub mod builder;
pub mod dependencies;
pub mod desktop;
pub mod document;
pub mod error;
pub mod format;
pub mod install_paths;
pub mod install_steps;
pub mod installer;
pub mod manifest;
pub mod metadata;
pub mod metadata_document;
pub mod packaging;
pub mod paths;
pub mod project;
pub mod project_document;
pub mod text;
pub mod wizard;
pub mod xml;

pub use crate::dependencies::{detect_dependencies, find_binary, find_resources};
pub use crate::format::LisPackage;
pub use crate::metadata::Metadata;
