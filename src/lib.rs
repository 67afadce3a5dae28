//! Checks dependency manifests against registries and decides which
//! version constraints to rewrite.
//!
//! The engine: [`version`] (parsing and ordering versions), [`constraint`]
//! (constraints of several ecosystems: parsing, satisfaction, retargeting)
//! and [`resolver`] (in-range version, target, severity and the constraints
//! to write). Around it: readers of manifests and lock files, registry
//! listings, the file updater, and the tools' smaller decisions.

pub mod text;
pub mod names;
pub mod version;
pub mod constraint;
pub mod cli;
pub mod types;
pub mod resolver;
pub mod registry;
pub mod output;
pub mod upgrade;

pub mod toml_doc;
pub mod json_doc;
pub mod yaml_doc;

pub mod parser;
pub mod requirements;
pub mod pyproject;
pub mod conda;
pub mod lockfiles;
pub mod detector;
pub mod updater;
pub mod python;
pub mod uv_python;
pub mod global;

pub mod npm;
pub mod cargo;
