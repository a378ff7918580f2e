//! Project analysis and conversion logic for MSPM0 CCS and Keil projects:
//! inspecting a project, discovering the development environment, putting
//! SysConfig into Keil's Tools menu, judging build validations and
//! converting a project into the other IDE's format.

pub mod text;
pub mod number;
pub mod registry;
pub mod winpath;
pub mod sysconfig;
pub mod validation;
pub mod sorting;
pub mod model;
pub mod project;
pub mod xml;
pub mod xml_text;
pub mod outside;
pub mod pack;
pub mod inspect;
pub mod inspection;
pub mod tools;
pub mod tool_search;
pub mod discovery;
pub mod environment;
pub mod configure;
pub mod builds;
pub mod convert;
pub mod keil_project;
pub mod ccs_project;

pub use model::{
    BuildValidationReport, ConversionReport, ConversionRequest, EnvironmentDiscovery, EnvironmentRequest,
    KeilEnvironmentDiscovery, KeilEnvironmentRequest, KeilSysConfigRequest, KeilSysConfigResult, ProjectFile,
    ProjectInspection, ProjectKind, ResourceInfo, ValidatedResources,
};
pub use tools::validate_toolchains;
pub use environment::{discover_environment, discover_keil_environment, validate_development_resources};
pub use configure::configure_keil_sysconfig;
pub use builds::{cleanup_validation_copy, validate_project_build, validate_project_build_with_progress};
pub use inspection::{detect_project, inspect_project};
pub use pack::validate_resources;
