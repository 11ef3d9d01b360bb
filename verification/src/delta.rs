//! The change set as plain values: one delta per changed file, with the two
//! sides of the file and the hunks that differ between them.

use vstd::prelude::*;

verus! {

/// The mode of a tree entry.
#[derive(Clone, Copy, Debug, PartialEq, Eq, Structural)]
pub enum BlobMode {
    Unreadable,
    Tree,
    Blob,
    BlobGroupWritable,
    BlobExecutable,
    Link,
    Commit,
}

impl BlobMode {
    /// A regular file, executable or not.
    pub open spec fn regular(self) -> bool {
        self is Blob || self is BlobExecutable
    }

    /// Whether the mode is that of a regular file, executable or not.
    pub fn is_regular(&self) -> (regular: bool)
        ensures
            regular == self.regular(),
    {
        match self {
            BlobMode::Blob => true,
            BlobMode::BlobExecutable => true,
            _ => false,
        }
    }
}

/// The mode that a raw mode of a tree entry stands for, if it is one of the
/// seven that are known.
pub open spec fn mode_for(raw: int) -> Option<BlobMode> {
    if raw == 0o000000 {
        Some(BlobMode::Unreadable)
    } else if raw == 0o040000 {
        Some(BlobMode::Tree)
    } else if raw == 0o100644 {
        Some(BlobMode::Blob)
    } else if raw == 0o100664 {
        Some(BlobMode::BlobGroupWritable)
    } else if raw == 0o100755 {
        Some(BlobMode::BlobExecutable)
    } else if raw == 0o120000 {
        Some(BlobMode::Link)
    } else if raw == 0o160000 {
        Some(BlobMode::Commit)
    } else {
        None
    }
}

/// Names the mode that a raw mode of a tree entry stands for. A raw mode
/// that is none of the seven has no name.
pub fn mode_of(raw: i32) -> (mode: Option<BlobMode>)
    ensures
        mode == mode_for(raw as int),
{
    if raw == 0o000000 {
        Some(BlobMode::Unreadable)
    } else if raw == 0o040000 {
        Some(BlobMode::Tree)
    } else if raw == 0o100644 {
        Some(BlobMode::Blob)
    } else if raw == 0o100664 {
        Some(BlobMode::BlobGroupWritable)
    } else if raw == 0o100755 {
        Some(BlobMode::BlobExecutable)
    } else if raw == 0o120000 {
        Some(BlobMode::Link)
    } else if raw == 0o160000 {
        Some(BlobMode::Commit)
    } else {
        None
    }
}

/// The mode of a side of a delta, from what the tree of that side answered
/// for its entry: the raw mode, or nothing where the tree has no such entry.
/// A side that does not exist has no mode, and neither has an entry whose raw
/// mode is not known.
pub fn side_mode(exists: bool, entry: Option<i32>) -> (mode: Option<BlobMode>)
    ensures
        mode == match entry {
            Some(raw) => if exists {
                mode_for(raw as int)
            } else {
                None
            },
            None => None,
        },
{
    match entry {
        Some(raw) => if exists {
            mode_of(raw)
        } else {
            None
        },
        None => None,
    }
}

/// The path of a side of a delta.
#[derive(Clone, Debug, PartialEq, Eq)]
pub enum SidePath {
    /// The side has no path.
    Absent,
    /// The side has a path that is not valid UTF-8.
    NotText,
    /// The side has this path.
    Text(String),
}

impl SidePath {
    /// The path, where there is one that is text.
    pub fn text(&self) -> (text: Option<&str>)
        ensures
            match *self {
                SidePath::Text(path) => text matches Some(held) && held@ == path@,
                _ => text is None,
            },
    {
        match self {
            SidePath::Text(path) => Some(path.as_str()),
            _ => None,
        }
    }
}

/// The path of a side, from what the backend answered: whether the side has
/// a path at all, and the path as text where it is valid UTF-8.
pub fn side_path(has_path: bool, text: Option<String>) -> (path: SidePath)
    ensures
        path == match text {
            Some(held) => if has_path {
                SidePath::Text(held)
            } else {
                SidePath::Absent
            },
            None => if has_path {
                SidePath::NotText
            } else {
                SidePath::Absent
            },
        },
{
    match text {
        Some(held) => if has_path {
            SidePath::Text(held)
        } else {
            SidePath::Absent
        },
        None => if has_path {
            SidePath::NotText
        } else {
            SidePath::Absent
        },
    }
}

/// One side of a delta: the file before or after the change.
#[derive(Clone, Debug, PartialEq, Eq)]
pub struct FileSide {
    pub path: SidePath,
    pub exists: bool,
    /// The mode of the entry, where the side exists and the mode is known.
    pub mode: Option<BlobMode>,
    pub binary: bool,
    pub size: u64,
}

impl FileSide {
    /// The side is a regular file, executable or not.
    pub open spec fn regular(self) -> bool {
        self.mode matches Some(mode) && mode.regular()
    }

    /// Whether the side is a regular file, executable or not.
    pub fn is_regular(&self) -> (regular: bool)
        ensures
            regular == self.regular(),
    {
        match self.mode {
            Some(mode) => mode.is_regular(),
            None => false,
        }
    }
}

/// A contiguous range of lines that differs between the two revisions,
/// context lines included.
#[derive(Clone, Copy, Debug, PartialEq, Eq, Structural)]
pub struct Hunk {
    pub old_start: u32,
    pub old_lines: u32,
    pub new_start: u32,
    pub new_lines: u32,
}

impl Hunk {
    /// The line after the last old line of the hunk.
    pub open spec fn old_end(self) -> int {
        self.old_start + self.old_lines
    }

    /// The line after the last old line of the hunk.
    pub fn old_end_line(&self) -> (end: u64)
        ensures
            end == self.old_end(),
    {
        self.old_start as u64 + self.old_lines as u64
    }
}

/// The number of old lines of all the hunks.
pub open spec fn line_total(hunks: Seq<Hunk>) -> nat
    decreases hunks.len(),
{
    if hunks.len() == 0 {
        0
    } else {
        line_total(hunks.drop_last()) + hunks.last().old_lines as nat
    }
}

/// The old lines of one hunk, in ascending order.
pub open spec fn lines_of_hunk(hunk: Hunk) -> Seq<int> {
    Seq::new(hunk.old_lines as nat, |k: int| hunk.old_start + k)
}

/// The old lines of all the hunks: hunk after hunk, each in ascending order.
pub open spec fn hunk_lines(hunks: Seq<Hunk>) -> Seq<int>
    decreases hunks.len(),
{
    if hunks.len() == 0 {
        Seq::empty()
    } else {
        hunk_lines(hunks.drop_last()) + lines_of_hunk(hunks.last())
    }
}

/// There are as many old lines as the hunks count.
pub proof fn lemma_hunk_lines_len(hunks: Seq<Hunk>)
    ensures
        hunk_lines(hunks).len() == line_total(hunks),
    decreases hunks.len(),
{
    if hunks.len() > 0 {
        lemma_hunk_lines_len(hunks.drop_last());
    }
}

/// The change to one file.
#[derive(Clone, Debug, PartialEq, Eq)]
pub struct FileDelta {
    pub old_file: FileSide,
    pub new_file: FileSide,
    pub hunks: Vec<Hunk>,
}

impl FileDelta {
    /// An old side that exists has a path that is text.
    pub open spec fn well_formed(&self) -> bool {
        self.old_file.exists ==> self.old_file.path is Text
    }

    /// Whether the old side, if it exists, has a path that is text.
    pub fn is_well_formed(&self) -> (well_formed: bool)
        ensures
            well_formed == self.well_formed(),
    {
        if self.old_file.exists {
            match self.old_file.path {
                SidePath::Text(_) => true,
                _ => false,
            }
        } else {
            true
        }
    }
}

} // verus!
