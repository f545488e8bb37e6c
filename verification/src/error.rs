//! What can keep the editor from doing what it was asked to do.

use vstd::prelude::*;

verus! {

#[derive(Clone, Copy, Debug, PartialEq, Eq, Structural)]
pub enum EditorError {
    /// A position of an additional edit of a completion names no offset.
    BadAdditionalEditPosition,
    /// The position at which the edit of a completion starts names no offset.
    BadEditStartPosition,
    /// The position at which the edit of a completion ends names no offset.
    BadEditEndPosition,
    /// The edits overlap, reach behind the text, or make it too long.
    EditRejected,
    /// The language server answered a request with an error.
    RequestFailed,
}

impl EditorError {
    /// The error in words.
    pub fn message(&self) -> (r: &'static str)
        ensures
            r@ == (match *self {
                EditorError::BadAdditionalEditPosition => "Bad additional edit position"@,
                EditorError::BadEditStartPosition => "bad edit start position"@,
                EditorError::BadEditEndPosition => "bad edit end position"@,
                EditorError::EditRejected => "edit rejected"@,
                EditorError::RequestFailed => "request failed"@,
            }),
    {
        match self {
            EditorError::BadAdditionalEditPosition => "Bad additional edit position",
            EditorError::BadEditStartPosition => "bad edit start position",
            EditorError::BadEditEndPosition => "bad edit end position",
            EditorError::EditRejected => "edit rejected",
            EditorError::RequestFailed => "request failed",
        }
    }
}

} // verus!
