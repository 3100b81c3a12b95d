//! The error taxonomy shared by every decode and encode step.

use vstd::prelude::*;

verus! {

/// Ilda library errors.
#[derive(Clone, Debug, PartialEq, Eq)]
pub enum IldaError {
    /// The ILDA file is too small to read.
    FileTooSmall,
    /// Problems were encountered while reading the ILDA data.
    InvalidData,
    /// Too many points in a frame.
    TooManyPoints(usize),
    /// Too many frames in an animation.
    TooManyFrames(usize),
    /// Problems were encountered while reading the ILDA data, specifically
    /// with an invalid ILDA header section.
    InvalidHeader,
    /// An underlying read failed, including an unexpected end of input in the
    /// middle of a header or record.
    IoError,
    /// No data in the file, or nothing could be parsed.
    NoData,
    /// Not yet supported.
    Unsupported,
}

impl IldaError {
    /// A short name for the error variant.
    pub fn description(&self) -> (r: &'static str)
        ensures
            r@ == self.spec_description(),
    {
        proof {
            reveal_strlit("FileTooSmall");
            reveal_strlit("InvalidData");
            reveal_strlit("InvalidHeader");
            reveal_strlit("IoError");
            reveal_strlit("NoData");
            reveal_strlit("TooManyPoints");
            reveal_strlit("TooManyFrames");
            reveal_strlit("Unsupported");
        }
        match *self {
            IldaError::FileTooSmall => "FileTooSmall",
            IldaError::InvalidData => "InvalidData",
            IldaError::InvalidHeader => "InvalidHeader",
            IldaError::IoError => "IoError",
            IldaError::NoData => "NoData",
            IldaError::TooManyPoints(_) => "TooManyPoints",
            IldaError::TooManyFrames(_) => "TooManyFrames",
            IldaError::Unsupported => "Unsupported",
        }
    }

    /// The name `description` returns, as a character sequence.
    pub open spec fn spec_description(&self) -> Seq<char> {
        match *self {
            IldaError::FileTooSmall => "FileTooSmall"@,
            IldaError::InvalidData => "InvalidData"@,
            IldaError::InvalidHeader => "InvalidHeader"@,
            IldaError::IoError => "IoError"@,
            IldaError::NoData => "NoData"@,
            IldaError::TooManyPoints(_) => "TooManyPoints"@,
            IldaError::TooManyFrames(_) => "TooManyFrames"@,
            IldaError::Unsupported => "Unsupported"@,
        }
    }
}

} // verus!
