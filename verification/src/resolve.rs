//! The field resolver: turns a field selector plus an optional header row
//! into a concrete zero-based position, with case-insensitive first-match
//! lookup for names, and validates positions against the header width.

use vstd::prelude::*;
use crate::text::{lower_of, lowercase};

verus! {

/// How a field is located: by (case-insensitive) column or key name, or
/// by an explicit zero-based index. An explicit index always wins over a
/// name; the configuration constructor discards the name in that case.
#[derive(Debug, Clone, PartialEq, Eq)]
pub enum FieldSelector {
    ByName(String),
    ByIndex(usize),
}

/// The mathematical value of a [`FieldSelector`].
pub enum SelectorView {
    Name(Seq<char>),
    Index(int),
}

impl View for FieldSelector {
    type V = SelectorView;

    open spec fn view(&self) -> SelectorView {
        match self {
            FieldSelector::ByName(s) => SelectorView::Name(s@),
            FieldSelector::ByIndex(i) => SelectorView::Index(*i as int),
        }
    }
}

/// Which of the two configured fields an error is about.
#[derive(Debug, Clone, Copy, PartialEq, Eq, Structural)]
pub enum Field {
    Title,
    Description,
}

/// Why a selector could not be turned into a valid position.
#[derive(Debug, Clone, PartialEq, Eq)]
pub enum ResolveError {
    /// A name-based selector was used while no header is available.
    HeaderRequired,
    /// No header entry matches the name, case-insensitively.
    NameNotFound(String),
    /// A resolved position is not below the header width; the payload is
    /// the field, the offending index, and the width it was checked against.
    IndexOutOfBounds(Field, usize, usize),
}

/// The mathematical value of a [`ResolveError`].
pub enum ResolveErrorView {
    HeaderRequired,
    NameNotFound(Seq<char>),
    IndexOutOfBounds(Field, int, int),
}

impl View for ResolveError {
    type V = ResolveErrorView;

    open spec fn view(&self) -> ResolveErrorView {
        match self {
            ResolveError::HeaderRequired => ResolveErrorView::HeaderRequired,
            ResolveError::NameNotFound(n) => ResolveErrorView::NameNotFound(n@),
            ResolveError::IndexOutOfBounds(f, i, l) => ResolveErrorView::IndexOutOfBounds(
                *f,
                *i as int,
                *l as int,
            ),
        }
    }
}

/// The position of the first header entry, at or after `i`, whose case
/// folding equals the case folding of `name`.
pub open spec fn spec_find_ci(header: Seq<Seq<char>>, name: Seq<char>, i: int) -> Option<int>
    decreases header.len() - i,
{
    if i < 0 || i >= header.len() {
        None
    } else if lower_of(header[i]) == lower_of(name) {
        Some(i)
    } else {
        spec_find_ci(header, name, i + 1)
    }
}

/// What [`resolve`] returns: an explicit index resolves to itself without
/// any lookup or bounds check; a name resolves to the first
/// case-insensitive match in the header, requires a header to be present,
/// and fails with the name when nothing matches.
pub open spec fn spec_resolve(sel: SelectorView, header: Option<Seq<Seq<char>>>) -> Result<
    int,
    ResolveErrorView,
> {
    match sel {
        SelectorView::Index(i) => Ok(i),
        SelectorView::Name(n) => match header {
            None => Err(ResolveErrorView::HeaderRequired),
            Some(h) => match spec_find_ci(h, n, 0) {
                Some(i) => Ok(i),
                None => Err(ResolveErrorView::NameNotFound(n)),
            },
        },
    }
}

/// Whether an executable resolution result has the mathematical value `s`.
pub open spec fn resolve_result_matches(
    r: Result<usize, ResolveError>,
    s: Result<int, ResolveErrorView>,
) -> bool {
    match (r, s) {
        (Ok(i), Ok(j)) => i as int == j,
        (Err(e), Err(f)) => e@ == f,
        _ => false,
    }
}

/// The view of an optional header row.
pub open spec fn header_view(header: Option<&Vec<String>>) -> Option<Seq<Seq<char>>> {
    match header {
        Some(h) => Some(h.deep_view()),
        None => None,
    }
}

/// Turns a selector and an optional ordered header into a concrete
/// zero-based position, or fails. Bounds are not checked here; see
/// [`check_bounds`].
pub fn resolve(selector: &FieldSelector, header: Option<&Vec<String>>) -> (r: Result<
    usize,
    ResolveError,
>)
    ensures
        resolve_result_matches(r, spec_resolve(selector@, header_view(header))),
{
    match selector {
        FieldSelector::ByIndex(i) => Ok(*i),
        FieldSelector::ByName(n) => match header {
            None => Err(ResolveError::HeaderRequired),
            Some(h) => {
                let folded = lowercase(n.as_str());
                let ghost hv = h.deep_view();
                let mut i: usize = 0;
                while i < h.len()
                    invariant
                        i <= h.len(),
                        hv == h.deep_view(),
                        header_view(header) == Some(hv),
                        selector@ == SelectorView::Name(n@),
                        folded@ == lower_of(n@),
                        spec_find_ci(hv, n@, 0) == spec_find_ci(hv, n@, i as int),
                        forall|j: int| 0 <= j < i ==> lower_of(hv[j]) != lower_of(n@),
                    decreases h.len() - i,
                {
                    let entry = lowercase(h[i].as_str());
                    proof {
                        assert(hv[i as int] == h@[i as int]@);
                    }
                    if entry == folded {
                        proof {
                            assert(lower_of(hv[i as int]) == lower_of(n@));
                            assert(spec_find_ci(hv, n@, i as int) == Some(i as int));
                        }
                        return Ok(i);
                    }
                    i = i + 1;
                }
                Err(ResolveError::NameNotFound(n.clone()))
            },
        },
    }
}

/// Checks a resolved position against the header width: `Ok` exactly when
/// `index < limit`, and otherwise the out-of-bounds error carrying the
/// field, the index, and the limit.
pub fn check_bounds(field: Field, index: usize, limit: usize) -> (r: Result<(), ResolveError>)
    ensures
        index < limit ==> r is Ok,
        index >= limit ==> (r matches Err(e) && e@ == ResolveErrorView::IndexOutOfBounds(
            field,
            index as int,
            limit as int,
        )),
{
    if index < limit {
        Ok(())
    } else {
        Err(ResolveError::IndexOutOfBounds(field, index, limit))
    }
}

} // verus!
