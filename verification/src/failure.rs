//! The ways in which a conversion fails.

use vstd::prelude::*;

verus! {

/// Why a conversion stopped. Every failure is final: nothing is retried and
/// no later stage runs.
#[derive(Debug, Clone, Copy, PartialEq, Eq, Structural)]
pub enum Failure {
    /// The source could not be read.
    UnreadableInput,
    /// The first line is missing or is not the format tag.
    FormatMismatch,
    /// The width or the height is missing or is no number.
    MalformedHeader,
    /// The palette's count or one of its colours is missing or malformed.
    MalformedPalette,
    /// A pixel row is missing, has the wrong length or holds a token that is
    /// no index into the palette.
    MalformedPixelRow,
    /// The encoder refused the image, or the destination could not be
    /// written.
    EncodeFailure,
}

impl Failure {
    /// The status line of this failure, as a view.
    pub open spec fn message_text(self) -> Seq<char> {
        match self {
            Failure::UnreadableInput => "Error while opening file."@,
            Failure::FormatMismatch => "File has wrong type."@,
            Failure::MalformedHeader => "Could not get size."@,
            Failure::MalformedPalette => "Could not load color pallet."@,
            Failure::MalformedPixelRow => "Error while creating image."@,
            Failure::EncodeFailure => "Error while saving file."@,
        }
    }

    /// The status line that tells a person of this failure.
    pub fn message(self) -> (text: &'static str)
        ensures
            text@ == self.message_text(),
    {
        match self {
            Failure::UnreadableInput => "Error while opening file.",
            Failure::FormatMismatch => "File has wrong type.",
            Failure::MalformedHeader => "Could not get size.",
            Failure::MalformedPalette => "Could not load color pallet.",
            Failure::MalformedPixelRow => "Error while creating image.",
            Failure::EncodeFailure => "Error while saving file.",
        }
    }
}

} // verus!
