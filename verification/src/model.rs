//! The values that the library exchanges with its callers: project
//! inspections, conversion requests and reports, environment discovery and
//! build validation results.
use vstd::prelude::*;

verus! {

/// The two IDE project formats.
#[derive(Debug, Clone, Copy, PartialEq, Eq, Structural)]
pub enum ProjectKind {
    Ccs,
    Keil,
}

/// What a validated SDK and Pack provide.
#[derive(Debug, Clone)]
pub struct ResourceInfo {
    pub sdk_version: String,
    pub pack_name: String,
    pub pack_version: String,
    pub devices: Vec<String>,
}

/// A file that a project builds or includes.
#[derive(Debug, Clone)]
pub struct ProjectFile {
    pub path: String,
    pub group: String,
    pub file_type: String,
}

/// What a project holds that a conversion carries over.
#[derive(Debug, Clone)]
pub struct ProjectInspection {
    pub kind: ProjectKind,
    pub target_kind: ProjectKind,
    pub name: String,
    pub device: String,
    pub files: Vec<ProjectFile>,
    pub include_paths: Vec<String>,
    pub defines: Vec<String>,
    pub warnings: Vec<String>,
}

/// A request to convert a project into the other IDE's format.
#[derive(Debug, Clone)]
pub struct ConversionRequest {
    pub project_path: String,
    pub sdk_path: String,
    pub pack_path: String,
    pub output_path: String,
}

/// The outcome of a conversion.
#[derive(Debug, Clone)]
pub struct ConversionReport {
    pub source_kind: ProjectKind,
    pub target_kind: ProjectKind,
    pub device: String,
    pub output_path: String,
    pub generated_files: Vec<String>,
    pub warnings: Vec<String>,
}

/// The outcome of building a project with its IDE.
#[derive(Debug, Clone)]
pub struct BuildValidationReport {
    pub success: bool,
    pub summary: String,
    pub log: String,
    pub log_path: Option<String>,
    pub validated_project_path: Option<String>,
    pub cleanup_path: Option<String>,
}

/// A validated SDK, Pack and pair of IDE executables.
#[derive(Debug, Clone)]
pub struct ValidatedResources {
    pub sdk_version: String,
    pub pack_name: String,
    pub pack_version: String,
    pub devices: Vec<String>,
    pub ccs_executable: String,
    pub keil_executable: String,
}

/// The paths a user chose, any of them empty, for environment discovery.
#[derive(Debug, Clone)]
pub struct EnvironmentRequest {
    pub project_path: String,
    pub sdk_path: String,
    pub pack_path: String,
    pub ccs_path: String,
    pub keil_path: String,
    pub sysconfig_path: String,
    pub search_depth: u8,
}

/// The development environment found for a project.
#[derive(Debug, Clone)]
pub struct EnvironmentDiscovery {
    pub project_kind: ProjectKind,
    pub device: String,
    pub sdk_path: Option<String>,
    pub sdk_version: Option<String>,
    pub pack_path: Option<String>,
    pub pack_name: Option<String>,
    pub pack_version: Option<String>,
    pub pack_installed: bool,
    pub pack_download_url: Option<String>,
    pub ccs_path: Option<String>,
    pub ccs_executable: Option<String>,
    pub keil_path: Option<String>,
    pub keil_executable: Option<String>,
    pub sysconfig_path: Option<String>,
    pub sysconfig_executable: Option<String>,
    pub warnings: Vec<String>,
}

/// The paths a user chose for configuring Keil's SysConfig entry.
#[derive(Debug, Clone)]
pub struct KeilEnvironmentRequest {
    pub sdk_path: String,
    pub keil_path: String,
    pub sysconfig_path: String,
    pub search_depth: u8,
}

/// The environment found for configuring Keil's SysConfig entry.
#[derive(Debug, Clone)]
pub struct KeilEnvironmentDiscovery {
    pub sdk_path: Option<String>,
    pub sdk_version: Option<String>,
    pub keil_path: Option<String>,
    pub keil_executable: Option<String>,
    pub sysconfig_path: Option<String>,
    pub sysconfig_executable: Option<String>,
    pub warnings: Vec<String>,
}

/// A request to put SysConfig into Keil's Tools menu.
#[derive(Debug, Clone)]
pub struct KeilSysConfigRequest {
    pub sdk_path: String,
    pub keil_path: String,
    pub sysconfig_path: String,
    pub search_depth: u8,
}

/// What configuring Keil's SysConfig entry did.
#[derive(Debug, Clone)]
pub struct KeilSysConfigResult {
    pub changed: bool,
    pub slot: u8,
    pub title: String,
    pub executable: String,
    pub working_directory: String,
    pub arguments: String,
    pub updated_files: Vec<String>,
    pub backup_files: Vec<String>,
}

} // verus!
