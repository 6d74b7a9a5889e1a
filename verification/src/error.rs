//! Why a composition was refused.

use vstd::prelude::*;

verus! {

/// The reasons for which no canvas is produced.
#[derive(Debug, Clone, Copy, PartialEq, Eq, Structural)]
pub enum Error {
    /// The source cannot be brought into the working pixel format: its
    /// samples do not make up an image of its stated size, or it has no
    /// extent where the placement has to scale or repeat it.
    UnsupportedFormat,
    /// The target has no pixels: its width or its height is zero.
    DegenerateTarget,
}

impl Error {
    pub open spec fn spec_describe(&self) -> Seq<char> {
        match self {
            Error::UnsupportedFormat => "Image format error: unsupported format"@,
            Error::DegenerateTarget => "Target error: width or height is zero"@,
        }
    }

    /// A sentence for the user.
    pub fn describe(&self) -> (text: &'static str)
        ensures
            text@ == self.spec_describe(),
    {
        match self {
            Error::UnsupportedFormat => "Image format error: unsupported format",
            Error::DegenerateTarget => "Target error: width or height is zero",
        }
    }
}

} // verus!
