//! Direction of a paginated read.
use vstd::prelude::*;

verus! {

/// A cursor of a paginated read, by the direction it pages in.
#[derive(Debug, Clone, Copy, PartialEq, Eq, Structural)]
pub enum PaginatedCursor {
    /// Pages after the cursor, `first` items at a time.
    Forward { first: usize },
    /// Pages before the cursor, `last` items at a time.
    Backward { last: usize },
}

/// The direction in which a resolved page was read.
#[derive(Debug, Clone, Copy, PartialEq, Eq, Hash, Structural)]
pub enum ResolvedPaginationDirection {
    Forward,
    Backward,
}

impl ResolvedPaginationDirection {
    /// The direction of `cursor`.
    pub fn from_paginated_cursor(cursor: &PaginatedCursor) -> (r: ResolvedPaginationDirection)
        ensures
            cursor is Forward <==> r == ResolvedPaginationDirection::Forward,
            cursor is Backward <==> r == ResolvedPaginationDirection::Backward,
    {
        match cursor {
            PaginatedCursor::Forward { .. } => ResolvedPaginationDirection::Forward,
            PaginatedCursor::Backward { .. } => ResolvedPaginationDirection::Backward,
        }
    }
}

} // verus!
