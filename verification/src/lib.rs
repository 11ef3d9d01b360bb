//! Attribution of the lines touched by a proposed change to the authors who
//! last modified them.
//!
//! Given a revision to merge into and a revision to merge from, the lines
//! that the change touches, with a few lines of context around each
//! modification, are blamed as they stood at the merge base of the two
//! revisions, and counted by author. The authors with the most lines know the
//! changed code best.
//!
//! A run resolves its revisions and builds its change set ([`pipeline`],
//! [`changes`]),
//! decides for each changed file whether it is blamed ([`filter`],
//! [`blame`]), asks the backend about each old line of each hunk and counts
//! the lines by author ([`lines`], [`boundary`], [`attribution`]), adds up
//! the counts of all files ([`aggregator`]) and ranks the authors
//! ([`report`]). The calls into the backend are in [`backend`]; [`table`]
//! holds what the two tables of the library, the attribution map and the memo
//! table of ancestry answers, have in common.

pub mod aggregator;
pub mod attribution;
pub mod author;
pub mod backend;
pub mod blame;
pub mod boundary;
pub mod changes;
pub mod delta;
pub mod filter;
pub mod lines;
pub mod pipeline;
pub mod report;
pub mod revision;
pub mod table;
