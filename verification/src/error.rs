//! What can stop a scan.

use vstd::prelude::*;

verus! {

/// A failure that ends the run.
#[derive(Debug, Clone, PartialEq, Eq)]
pub enum ScanError {
    /// The pattern between slashes is not a regular expression.
    InvalidRegex { detail: String },
    /// The plain search text could not be turned into a matcher.
    InvalidGrep { detail: String },
    /// One of the library's own patterns was refused by the engine.
    BrokenPattern { detail: String },
    /// A file was there but could not be read.
    ReadFailed { path: String, detail: String },
}

/// A `ScanError` as plain values.
pub enum ScanErrorModel {
    InvalidRegex { detail: Seq<char> },
    InvalidGrep { detail: Seq<char> },
    BrokenPattern { detail: Seq<char> },
    ReadFailed { path: Seq<char>, detail: Seq<char> },
}

impl View for ScanError {
    type V = ScanErrorModel;

    open spec fn view(&self) -> ScanErrorModel {
        match self {
            ScanError::InvalidRegex { detail } => ScanErrorModel::InvalidRegex { detail: detail@ },
            ScanError::InvalidGrep { detail } => ScanErrorModel::InvalidGrep { detail: detail@ },
            ScanError::BrokenPattern { detail } => ScanErrorModel::BrokenPattern {
                detail: detail@,
            },
            ScanError::ReadFailed { path, detail } => ScanErrorModel::ReadFailed {
                path: path@,
                detail: detail@,
            },
        }
    }
}

/// The line that reports `e`.
pub open spec fn message_of(e: ScanErrorModel) -> Seq<char> {
    match e {
        ScanErrorModel::InvalidRegex { detail } => "Invalid regex pattern: "@ + detail,
        ScanErrorModel::InvalidGrep { detail } => "Invalid grep pattern: "@ + detail,
        ScanErrorModel::BrokenPattern { detail } => "Failed to compile regex: "@ + detail,
        ScanErrorModel::ReadFailed { path, detail } => "Failed to read file: "@ + path + ": "@
            + detail,
    }
}

impl ScanError {
    /// The line that reports this error.
    pub fn message(&self) -> (m: String)
        ensures
            m@ == message_of(self@),
    {
        let mut m = String::new();
        match self {
            ScanError::InvalidRegex { detail } => {
                m.append("Invalid regex pattern: ");
                m.append(detail.as_str());
            },
            ScanError::InvalidGrep { detail } => {
                m.append("Invalid grep pattern: ");
                m.append(detail.as_str());
            },
            ScanError::BrokenPattern { detail } => {
                m.append("Failed to compile regex: ");
                m.append(detail.as_str());
            },
            ScanError::ReadFailed { path, detail } => {
                m.append("Failed to read file: ");
                m.append(path.as_str());
                m.append(": ");
                m.append(detail.as_str());
            },
        }
        m
    }
}

} // verus!
