//! The failures that setting up a project can end in.

use vstd::prelude::*;

verus! {

/// Why a step of the project setup failed. Failures that come from outside
/// the library are carried as their message.
#[derive(Debug)]
pub enum ProjectError {
    /// A file could not be read or written.
    Io(String),
    /// The user declined to go on.
    UserCancelled,
    /// A command, or a pattern built for a search, could not be run.
    CommandFailed(String),
    /// The requested framework is not one the generator knows.
    UnsupportedFramework(String),
    /// A template could not be rendered.
    TemplateError(String),
    /// A value could not be serialised or read back.
    JsonError(String),
    /// A prompt could not be shown or answered.
    DialoguerError(String),
}

} // verus!
