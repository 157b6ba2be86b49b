//! Positions in a source file, and values tagged with one.
use vstd::prelude::*;

verus! {

/// A row and a column in a source file.
#[derive(Debug, Clone, Copy, PartialEq, Eq)]
pub struct FilePosition {
    pub row: u32,
    pub column: u32,
}

impl FilePosition {
    /// The start of a file.
    pub fn new() -> (r: Self)
        ensures
            r.row == 0,
            r.column == 0,
    {
        FilePosition { row: 0, column: 0 }
    }
}

/// A value together with the position it was found at.
pub struct FilePositionM<T> {
    pub file_position: FilePosition,
    pub inner_type: T,
}

impl<T> FilePositionM<T> {
    /// `inner_type` at the start of a file.
    pub fn new(inner_type: T) -> (r: Self)
        ensures
            r.inner_type == inner_type,
            r.file_position.row == 0,
            r.file_position.column == 0,
    {
        FilePositionM { file_position: FilePosition::new(), inner_type }
    }

    /// The value, without its position.
    pub fn from(self) -> (r: T)
        ensures
            r == self.inner_type,
    {
        self.inner_type
    }
}

/// `inner` at the start of a file.
pub fn wrap<T>(inner: T) -> (r: FilePositionM<T>)
    ensures
        r.inner_type == inner,
        r.file_position.row == 0,
        r.file_position.column == 0,
{
    FilePositionM::new(inner)
}

} // verus!
