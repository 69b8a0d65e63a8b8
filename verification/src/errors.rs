//! The typed error taxonomy of the pipeline. Every failure is one of these
//! kinds, carrying enough context (path, underlying cause) to diagnose.

use vstd::prelude::*;

verus! {

/// One failure kind of the pipeline. I/O causes are carried as plain text.
#[derive(Debug)]
pub enum ShenronError {
    /// The target path does not exist.
    MissingTarget(String),
    /// A directory target holds no candidate config file.
    MissingConfig(String),
    /// A directory target holds several candidate config files and no
    /// preferred name among them; `files` lists the candidate file names,
    /// comma-joined in lexicographic order.
    AmbiguousConfig { dir: String, files: String },
    /// Reading a file failed.
    ReadFile { path: String, cause: String },
    /// The config document could not be parsed.
    ParseConfig { path: String, cause: String },
    /// The config document parsed but violates an invariant.
    Validation(String),
    /// Writing a file failed.
    WriteFile { path: String, cause: String },
    /// Serializing the override blob failed.
    Json(String),
    /// An argument value cannot be shell-quoted (it holds a NUL byte);
    /// carries the offending value.
    Quote(String),
}

/// The human-readable description of an error.
pub open spec fn spec_message(e: ShenronError) -> Seq<char> {
    match e {
        ShenronError::MissingTarget(p) => "target path does not exist: "@ + p@,
        ShenronError::MissingConfig(p) => "no config file (*.yml or *.yaml) found in "@ + p@,
        ShenronError::AmbiguousConfig { dir, files } => "multiple config files found in "@ + dir@
            + ": "@ + files@,
        ShenronError::ReadFile { path, cause } => "failed to read "@ + path@ + ": "@ + cause@,
        ShenronError::ParseConfig { path, cause } => "failed to parse YAML config "@ + path@
            + ": "@ + cause@,
        ShenronError::Validation(m) => "config validation failed: "@ + m@,
        ShenronError::WriteFile { path, cause } => "failed to write "@ + path@ + ": "@ + cause@,
        ShenronError::Json(m) => "failed to serialize JSON: "@ + m@,
        ShenronError::Quote(v) => "argument contains unsupported null byte: "@ + v@,
    }
}

impl ShenronError {
    /// Renders the error for display.
    pub fn message(&self) -> (r: String)
        ensures
            r@ == spec_message(*self),
    {
        let mut out = String::new();
        match self {
            ShenronError::MissingTarget(p) => {
                out.append("target path does not exist: ");
                out.append(p.as_str());
            },
            ShenronError::MissingConfig(p) => {
                out.append("no config file (*.yml or *.yaml) found in ");
                out.append(p.as_str());
            },
            ShenronError::AmbiguousConfig { dir, files } => {
                out.append("multiple config files found in ");
                out.append(dir.as_str());
                out.append(": ");
                out.append(files.as_str());
            },
            ShenronError::ReadFile { path, cause } => {
                out.append("failed to read ");
                out.append(path.as_str());
                out.append(": ");
                out.append(cause.as_str());
            },
            ShenronError::ParseConfig { path, cause } => {
                out.append("failed to parse YAML config ");
                out.append(path.as_str());
                out.append(": ");
                out.append(cause.as_str());
            },
            ShenronError::Validation(m) => {
                out.append("config validation failed: ");
                out.append(m.as_str());
            },
            ShenronError::WriteFile { path, cause } => {
                out.append("failed to write ");
                out.append(path.as_str());
                out.append(": ");
                out.append(cause.as_str());
            },
            ShenronError::Json(m) => {
                out.append("failed to serialize JSON: ");
                out.append(m.as_str());
            },
            ShenronError::Quote(v) => {
                out.append("argument contains unsupported null byte: ");
                out.append(v.as_str());
            },
        }
        proof {
            assert(out@ =~= spec_message(*self));
        }
        out
    }
}

} // verus!
