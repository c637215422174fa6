//! The two families of error: those of path lookup and those of the schema.

use vstd::prelude::*;

verus! {

/// Why a path could not be followed to a value of the wanted kind.
#[derive(Debug)]
pub enum QueryError {
    /// The path segment at index `depth` does not exist: the segments before
    /// it lead to a table that has no entry for it.
    Vacant { depth: usize },
    /// Something of kind `kind` stands where another kind is needed.  Where
    /// the path goes on through a node that is no table, `depth` is the
    /// index of the segment that leads to that node.  Where the whole path
    /// leads to a value that is not of the kind asked for, `depth` is the
    /// length of the path.
    Conflict { depth: usize, kind: &'static str },
}

/// What a [`QueryError`] says.
pub enum QueryErrorView {
    Vacant { depth: nat },
    Conflict { depth: nat, kind: Seq<char> },
}

impl View for QueryError {
    type V = QueryErrorView;

    open spec fn view(&self) -> QueryErrorView {
        match *self {
            QueryError::Vacant { depth } => QueryErrorView::Vacant { depth: depth as nat },
            QueryError::Conflict { depth, kind } => QueryErrorView::Conflict {
                depth: depth as nat,
                kind: kind@,
            },
        }
    }
}

/// A value found where the schema wants another kind.
#[derive(Debug)]
pub struct PathError {
    /// Dotted path of the offending value.
    pub path: String,
    /// Name of the kind that the schema wants there.
    pub expected: &'static str,
    /// Name of the kind that was found.
    pub got: &'static str,
}

/// What a [`PathError`] says.
pub struct PathErrorView {
    pub path: Seq<char>,
    pub expected: Seq<char>,
    pub got: Seq<char>,
}

impl View for PathError {
    type V = PathErrorView;

    open spec fn view(&self) -> PathErrorView {
        PathErrorView { path: self.path@, expected: self.expected@, got: self.got@ }
    }
}

/// The views of a list of path errors, in order.
pub open spec fn path_error_views(errors: Seq<PathError>) -> Seq<PathErrorView> {
    Seq::new(errors.len(), |i: int| errors[i]@)
}

/// All or nothing: the values where there is no error, and else the errors.
pub open spec fn verdict<T, E>(values: Seq<T>, errors: Seq<E>) -> Result<Seq<T>, Seq<E>> {
    if errors.len() > 0 {
        Err(errors)
    } else {
        Ok(values)
    }
}

} // verus!
