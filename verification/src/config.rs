//! Run configuration and fatal setup checks.

use vstd::prelude::*;

verus! {

/// Everything one run needs to know, created once from validated command-line
/// input and then shared read-only by every worker.
#[derive(Debug, Clone)]
pub struct Config {
    pub input: String,
    pub output: Option<String>,
    pub single_thread: bool,
    pub force: bool,
    pub allow_gif: bool,
    pub remain_profile: bool,
    pub side_maximum: u16,
    pub only_shrink: bool,
    pub sharpen: bool,
    pub quality: u8,
    pub force_to_chroma_quartered: bool,
}

/// A fatal error found before any work item runs; it aborts the whole run.
#[derive(Debug, Clone, Copy, PartialEq, Eq, Structural)]
pub enum SetupError {
    /// The maximum side length was zero.
    SideMaximumZero,
    /// The lossy-compression quality was above 100.
    QualityOutOfRange,
    /// The input path names a directory but the output path is an existing file.
    OutputIsFile,
    /// The input path names a file but the output path is an existing directory.
    OutputIsDirectory,
}

/// What the filesystem says about a path that was looked up.
#[derive(Debug, Clone, Copy, PartialEq, Eq, Structural)]
pub enum FsNode {
    File,
    Directory,
    Missing,
}

impl Config {
    /// The numeric bounds a run must satisfy before any traversal starts:
    /// a positive maximum side length and a quality of at most 100.
    pub open spec fn spec_valid(&self) -> bool {
        self.side_maximum > 0 && self.quality <= 100
    }

    /// Checks the numeric arguments, reporting the first violation in the
    /// order they are given on the command line.
    pub fn validate(&self) -> (r: Result<(), SetupError>)
        ensures
            r is Ok <==> self.spec_valid(),
            self.side_maximum == 0 ==> r == Result::<(), SetupError>::Err(
                SetupError::SideMaximumZero,
            ),
            self.side_maximum > 0 && self.quality > 100 ==> r == Result::<(), SetupError>::Err(
                SetupError::QualityOutOfRange,
            ),
    {
        if self.side_maximum == 0 {
            Err(SetupError::SideMaximumZero)
        } else if self.quality > 100 {
            Err(SetupError::QualityOutOfRange)
        } else {
            Ok(())
        }
    }
}

/// Decides whether an already-looked-up output path is usable for the given
/// kind of input: a file input may not target an existing directory, and a
/// directory input may not target an existing file. A missing output is
/// always acceptable (its directories are created later, per item).
pub fn check_output_type(input_is_file: bool, output: FsNode) -> (r: Result<(), SetupError>)
    ensures
        r is Ok <==> (output == FsNode::Missing || (input_is_file <==> output == FsNode::File)),
        output == FsNode::File && !input_is_file ==> r == Result::<(), SetupError>::Err(
            SetupError::OutputIsFile,
        ),
        output == FsNode::Directory && input_is_file ==> r == Result::<(), SetupError>::Err(
            SetupError::OutputIsDirectory,
        ),
{
    match output {
        FsNode::File => {
            if input_is_file {
                Ok(())
            } else {
                Err(SetupError::OutputIsFile)
            }
        },
        FsNode::Directory => {
            if input_is_file {
                Err(SetupError::OutputIsDirectory)
            } else {
                Ok(())
            }
        },
        FsNode::Missing => Ok(()),
    }
}

} // verus!
