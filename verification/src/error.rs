//! The library's error type.
use vstd::prelude::*;
use crate::text::concat2;

verus! {

/// Errors of the library. Errors that come from outside crates (Docker, I/O,
/// YAML, JSON) carry their message as text.
#[derive(Debug)]
pub enum EnvibeError {
    Docker(String),
    Io(String),
    Yaml(String),
    Json(String),
    Config(String),
    PortAllocation(String),
    ServiceNotFound(String),
    ProjectNotFound(String),
    Process(String),
    DockerNotRunning,
    ContainerNotFound(String),
    Interpolation(String),
    Git(String),
    NotFound(String),
}

/// The text shown for an error.
pub open spec fn error_text(e: EnvibeError) -> Seq<char> {
    match e {
        EnvibeError::Docker(m) => "Docker error: "@ + m@,
        EnvibeError::Io(m) => "IO error: "@ + m@,
        EnvibeError::Yaml(m) => "YAML parsing error: "@ + m@,
        EnvibeError::Json(m) => "JSON error: "@ + m@,
        EnvibeError::Config(m) => "Configuration error: "@ + m@,
        EnvibeError::PortAllocation(m) => "Port allocation failed: "@ + m@,
        EnvibeError::ServiceNotFound(m) => "Service not found: "@ + m@,
        EnvibeError::ProjectNotFound(m) => "Project not found: "@ + m@,
        EnvibeError::Process(m) => "Process error: "@ + m@,
        EnvibeError::DockerNotRunning => "Docker daemon not running"@,
        EnvibeError::ContainerNotFound(m) => "Container not found: "@ + m@,
        EnvibeError::Interpolation(m) => "Variable interpolation error: "@ + m@,
        EnvibeError::Git(m) => "Git error: "@ + m@,
        EnvibeError::NotFound(m) => "Not found: "@ + m@,
    }
}

impl EnvibeError {
    /// The text shown for this error.
    pub fn message(&self) -> (s: String)
        ensures
            s@ == error_text(*self),
    {
        match self {
            EnvibeError::Docker(m) => concat2("Docker error: ", m.as_str()),
            EnvibeError::Io(m) => concat2("IO error: ", m.as_str()),
            EnvibeError::Yaml(m) => concat2("YAML parsing error: ", m.as_str()),
            EnvibeError::Json(m) => concat2("JSON error: ", m.as_str()),
            EnvibeError::Config(m) => concat2("Configuration error: ", m.as_str()),
            EnvibeError::PortAllocation(m) => concat2("Port allocation failed: ", m.as_str()),
            EnvibeError::ServiceNotFound(m) => concat2("Service not found: ", m.as_str()),
            EnvibeError::ProjectNotFound(m) => concat2("Project not found: ", m.as_str()),
            EnvibeError::Process(m) => concat2("Process error: ", m.as_str()),
            EnvibeError::DockerNotRunning => "Docker daemon not running".to_owned(),
            EnvibeError::ContainerNotFound(m) => concat2("Container not found: ", m.as_str()),
            EnvibeError::Interpolation(m) => concat2("Variable interpolation error: ", m.as_str()),
            EnvibeError::Git(m) => concat2("Git error: ", m.as_str()),
            EnvibeError::NotFound(m) => concat2("Not found: ", m.as_str()),
        }
    }
}

} // verus!
