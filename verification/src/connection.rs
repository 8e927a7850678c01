//! The pagination connection engine: request validation, window resolution
//! and connection assembly.

use vstd::prelude::*;

use crate::store::{window_spec, Store, StoreError};

verus! {

/// A single row of a paginated result, tagged with its absolute position.
pub struct Edge<T> {
    pub node: T,
    /// Zero-based absolute offset of `node` in the full ordered result set.
    pub cursor: u64,
}

/// A paginated response: the rows of the requested window in store order,
/// plus flags saying whether rows exist before or after the window.
pub struct Connection<T> {
    pub edges: Vec<Edge<T>>,
    pub has_previous_page: bool,
    pub has_next_page: bool,
}

/// An unambiguous directional page request, produced only by successful
/// validation of the four client-supplied pagination arguments.
#[derive(Debug, Clone, Copy, PartialEq)]
pub enum Range {
    /// `(limit, offset)`: paginate forward, starting at the given offset.
    Forward((u64, u64)),
    /// `(limit, before)`: paginate backward from the cursor `before`, or
    /// from the end of the result set when `before` is `None`.
    Backward((u64, Option<u64>)),
}

/// Why validation of the pagination arguments failed.
#[derive(Debug)]
pub enum ValidationError {
    /// Mutually exclusive pagination arguments were both supplied.
    ConflictingBounds(String),
    /// Neither `first` nor `last` was supplied.
    MissingBound(String),
}

/// Reason reported when both `first` and `last` are supplied.
pub open spec fn msg_first_and_last() -> Seq<char> {
    "first and last must not be set at the same time"@
}

/// Reason reported when both `first` and `before` are supplied.
pub open spec fn msg_first_and_before() -> Seq<char> {
    "first or before must not be set at the same time"@
}

/// Reason reported when both `last` and `after` are supplied.
pub open spec fn msg_last_and_after() -> Seq<char> {
    "last or after must not be set at the same time"@
}

/// Reason reported when neither `first` nor `last` is supplied.
pub open spec fn msg_no_bound() -> Seq<char> {
    "first or last must be set"@
}

impl Range {
    /// Validate the four pagination arguments into a directional range.
    ///
    /// The rules are checked in order, the first failing rule winning:
    /// `first` excludes `last` and `before`; `last` excludes `after`; one of
    /// `first` or `last` must be supplied. A pure function of its inputs:
    /// validation issues no query.
    pub fn new(
        first: Option<u64>,
        last: Option<u64>,
        after: Option<u64>,
        before: Option<u64>,
    ) -> (r: Result<Range, ValidationError>)
        ensures
            first is Some && last is Some ==> (r matches Err(
                ValidationError::ConflictingBounds(m),
            ) && m@ == msg_first_and_last()),
            first is Some && last is None && before is Some ==> (r matches Err(
                ValidationError::ConflictingBounds(m),
            ) && m@ == msg_first_and_before()),
            first is Some && last is None && before is None ==> r == Ok::<
                Range,
                ValidationError,
            >(Range::Forward((first->0, after.unwrap_or(0)))),
            first is None && last is Some && after is Some ==> (r matches Err(
                ValidationError::ConflictingBounds(m),
            ) && m@ == msg_last_and_after()),
            first is None && last is Some && after is None ==> r == Ok::<
                Range,
                ValidationError,
            >(Range::Backward((last->0, before))),
            first is None && last is None ==> (r matches Err(ValidationError::MissingBound(m))
                && m@ == msg_no_bound()),
    {
        if let Some(f) = first {
            if last.is_some() {
                Err(
                    ValidationError::ConflictingBounds(
                        String::from_str("first and last must not be set at the same time"),
                    ),
                )
            } else if before.is_some() {
                Err(
                    ValidationError::ConflictingBounds(
                        String::from_str("first or before must not be set at the same time"),
                    ),
                )
            } else {
                let offset = match after {
                    Some(a) => a,
                    None => 0,
                };
                Ok(Range::Forward((f, offset)))
            }
        } else if let Some(l) = last {
            if after.is_some() {
                Err(
                    ValidationError::ConflictingBounds(
                        String::from_str("last or after must not be set at the same time"),
                    ),
                )
            } else {
                Ok(Range::Backward((l, before)))
            }
        } else {
            Err(ValidationError::MissingBound(String::from_str("first or last must be set")))
        }
    }
}

/// The batch a forward resolution fetches: one row more than the page size,
/// so that "rows exist past the window" is learnt without a count query.
pub open spec fn forward_fetched<T>(rows: Seq<T>, first: u64, after: u64) -> Seq<T> {
    window_spec(rows, after as int, first as int + 1)
}

/// The connection a forward resolution of `first`/`after` yields against a
/// store holding `rows`.
pub open spec fn is_forward_resolution<T>(
    rows: Seq<T>,
    first: u64,
    after: u64,
    c: Connection<T>,
) -> bool {
    let fetched = forward_fetched(rows, first, after);
    let kept = if fetched.len() > first {
        fetched.take(fetched.len() - 1)
    } else {
        fetched
    };
    &&& c.edges@.len() == kept.len()
    &&& (forall|i: int|
        #![trigger c.edges@[i]]
        0 <= i < kept.len() ==> c.edges@[i].node == kept[i] && c.edges@[i].cursor == after + i)
    &&& c.has_previous_page == (after > 0)
    &&& c.has_next_page == (fetched.len() > first)
}

/// The bound a backward resolution actually uses: `before` clamped into the
/// store's row count, or the row count itself when `before` is absent.
pub open spec fn effective_before(before: Option<u64>, total: int) -> int {
    match before {
        Some(b) => if b <= total {
            b as int
        } else {
            total
        },
        None => total,
    }
}

/// Where the backward window starts: one page (plus the boundary row) back
/// from the effective bound, saturating at the first row.
pub open spec fn backward_start_spec(last: u64, before: Option<u64>, total: int) -> int {
    let eb = effective_before(before, total);
    if eb > last {
        eb - last - 1
    } else {
        0
    }
}

/// The connection a backward resolution of `last`/`before` yields against a
/// store holding `rows`.
pub open spec fn is_backward_resolution<T>(
    rows: Seq<T>,
    last: u64,
    before: Option<u64>,
    c: Connection<T>,
) -> bool {
    let total = rows.len() as int;
    let eb = effective_before(before, total);
    let start = backward_start_spec(last, before, total);
    let fetched = window_spec(rows, start, last as int);
    &&& c.edges@.len() == fetched.len()
    &&& (forall|i: int|
        #![trigger c.edges@[i]]
        0 <= i < fetched.len() ==> c.edges@[i].node == fetched[i] && c.edges@[i].cursor == start
            + i)
    &&& c.has_previous_page == (start > 0)
    &&& c.has_next_page == (eb < total)
}

/// The connection `range` yields against a store holding `rows`. The
/// resolution is a function of the range and the row snapshot alone.
pub open spec fn is_resolution_of<T>(range: Range, rows: Seq<T>, c: Connection<T>) -> bool {
    match range {
        Range::Forward((first, after)) => is_forward_resolution(rows, first, after, c),
        Range::Backward((last, before)) => is_backward_resolution(rows, last, before, c),
    }
}

/// Assemble a forward page from `records`, the batch fetched at offset
/// `after` with limit one past the page size `first`. A batch longer than
/// `first` rows announces a next page and its last row is dropped; the kept
/// rows keep their fetch order, row `i` tagged with cursor `after + i`.
/// `has_previous_page` reflects only that the client skipped rows: it does
/// not verify rows exist before `after`. Assembly never fails.
pub fn forward_connection<T>(first: u64, after: u64, records: Vec<T>) -> (c: Connection<T>)
    requires
        after + records@.len() <= u64::MAX as int + 1,
    ensures
        c.has_previous_page == (after > 0),
        c.has_next_page == (records@.len() > first),
        c.edges@.len() == (if records@.len() > first {
            records@.len() - 1
        } else {
            records@.len() as int
        }),
        forall|i: int|
            #![trigger c.edges@[i]]
            0 <= i < c.edges@.len() ==> c.edges@[i].node == records@[i] && c.edges@[i].cursor
                == after + i,
{
    let ghost orig: Seq<T> = records@;
    let mut rest = records;
    let total_len: usize = rest.len();
    let has_next_page = (total_len as u64) > first;
    let kept_len: usize = if has_next_page {
        total_len - 1
    } else {
        total_len
    };
    let mut edges: Vec<Edge<T>> = Vec::new();
    let mut idx: usize = 0;
    while idx < kept_len
        invariant
            idx <= kept_len <= orig.len(),
            rest@ == orig.skip(idx as int),
            edges@.len() == idx,
            forall|i: int|
                #![trigger edges@[i]]
                0 <= i < idx ==> edges@[i].node == orig[i] && edges@[i].cursor == after + i,
            after + orig.len() <= u64::MAX as int + 1,
        decreases kept_len - idx,
    {
        let node = rest.remove(0);
        let cursor: u64 = after + (idx as u64);
        edges.push(Edge { node: node, cursor: cursor });
        proof {
            assert(rest@ =~= orig.skip(idx as int + 1));
        }
        idx = idx + 1;
    }
    Connection { edges, has_previous_page: after > 0, has_next_page }
}

/// Where the backward window of `last` rows bounded by `before` starts in a
/// store of `total` rows. The subtraction saturates: when the effective
/// bound does not exceed the page size, the window starts at the first row.
pub fn backward_start(last: u64, before: Option<u64>, total: u64) -> (s: u64)
    ensures
        s == backward_start_spec(last, before, total as int),
{
    let eb: u64 = match before {
        Some(b) => if b <= total {
            b
        } else {
            total
        },
        None => total,
    };
    if eb > last {
        eb - last - 1
    } else {
        0
    }
}

/// Assemble a backward page from `records`, the batch of at most `last`
/// rows fetched at the window start that [`backward_start`] computes from
/// `last`, `before` and the store's `total` row count. Row `i` is tagged
/// with cursor `start + i`; a next page exists exactly when the effective
/// bound lies strictly before the end of the store. Assembly never fails.
pub fn backward_connection<T>(
    last: u64,
    before: Option<u64>,
    total: u64,
    records: Vec<T>,
) -> (c: Connection<T>)
    requires
        records@.len() <= last,
    ensures
        c.has_previous_page == (backward_start_spec(last, before, total as int) > 0),
        c.has_next_page == (effective_before(before, total as int) < total),
        c.edges@.len() == records@.len(),
        forall|i: int|
            #![trigger c.edges@[i]]
            0 <= i < records@.len() ==> c.edges@[i].node == records@[i] && c.edges@[i].cursor
                == backward_start_spec(last, before, total as int) + i,
{
    let eb: u64 = match before {
        Some(b) => if b <= total {
            b
        } else {
            total
        },
        None => total,
    };
    let start: u64 = if eb > last {
        eb - last - 1
    } else {
        0
    };
    let has_previous_page = start > 0;
    let has_next_page = eb < total;
    let ghost orig: Seq<T> = records@;
    let mut rest = records;
    let kept_len: usize = rest.len();
    let mut edges: Vec<Edge<T>> = Vec::new();
    let mut idx: usize = 0;
    while idx < kept_len
        invariant
            idx <= kept_len == orig.len(),
            rest@ == orig.skip(idx as int),
            edges@.len() == idx,
            forall|i: int|
                #![trigger edges@[i]]
                0 <= i < idx ==> edges@[i].node == orig[i] && edges@[i].cursor == start + i,
            orig.len() <= last,
            start == backward_start_spec(last, before, total as int),
        decreases kept_len - idx,
    {
        let node = rest.remove(0);
        let cursor: u64 = start + (idx as u64);
        edges.push(Edge { node: node, cursor: cursor });
        proof {
            assert(rest@ =~= orig.skip(idx as int + 1));
        }
        idx = idx + 1;
    }
    Connection { edges, has_previous_page, has_next_page }
}

impl Range {
    /// Resolve this range against `store` into a connection: fetch the
    /// window (for a backward range, after the count query that locates the
    /// end of the result set) and assemble the edges and flags. The forward
    /// path issues no count query; the backward path issues exactly one,
    /// before its fetch. A store failure on either query aborts the
    /// resolution at once and is handed back unchanged.
    pub fn get_connection<T, S: Store<T>>(&self, store: &S) -> (r: Result<
        Connection<T>,
        StoreError,
    >)
        requires
            self matches Range::Forward(fa) ==> fa.0 < u64::MAX,
        ensures
            r matches Ok(c) ==> is_resolution_of(*self, store.rows(), c),
    {
        proof {
            store.rows_len_bounded();
        }
        match self {
            Range::Forward((first, after)) => {
                let fetched = match store.fetch(*after, *first + 1) {
                    Ok(v) => v,
                    Err(e) => {
                        return Err(e);
                    },
                };
                let c = forward_connection(*first, *after, fetched);
                Ok(c)
            },
            Range::Backward((last, before)) => {
                let total = match store.count() {
                    Ok(n) => n,
                    Err(e) => {
                        return Err(e);
                    },
                };
                let start = backward_start(*last, *before, total);
                let fetched = match store.fetch(start, *last) {
                    Ok(v) => v,
                    Err(e) => {
                        return Err(e);
                    },
                };
                let c = backward_connection(*last, *before, total, fetched);
                Ok(c)
            },
        }
    }
}

/// Law: cursor continuity. In any successful forward or backward
/// resolution the returned cursors form a contiguous ascending run with no
/// gaps: edge `i` carries the cursor of edge 0 plus `i`.
pub proof fn lemma_cursor_continuity<T>(range: Range, rows: Seq<T>, c: Connection<T>)
    requires
        is_resolution_of(range, rows, c),
    ensures
        forall|i: int|
            #![trigger c.edges@[i]]
            0 <= i < c.edges@.len() ==> c.edges@[i].cursor == c.edges@[0].cursor + i,
{
    assert forall|i: int| #![trigger c.edges@[i]] 0 <= i < c.edges@.len() implies c.edges@[i].cursor
        == c.edges@[0].cursor + i by {
        match range {
            Range::Forward((first, after)) => {
                assert(c.edges@[0].cursor == after + 0);
                assert(c.edges@[i].cursor == after + i);
            },
            Range::Backward((last, before)) => {
                let start = backward_start_spec(last, before, rows.len() as int);
                assert(c.edges@[0].cursor == start + 0);
                assert(c.edges@[i].cursor == start + i);
            },
        }
    }
}

/// Law: idempotence. Two successful resolutions of the same range against
/// the same snapshot of rows return the same connection: the same nodes
/// under the same cursors, and the same flags.
pub proof fn lemma_resolution_idempotent<T>(
    range: Range,
    rows: Seq<T>,
    c1: Connection<T>,
    c2: Connection<T>,
)
    requires
        is_resolution_of(range, rows, c1),
        is_resolution_of(range, rows, c2),
    ensures
        c1.edges@ == c2.edges@,
        c1.has_previous_page == c2.has_previous_page,
        c1.has_next_page == c2.has_next_page,
{
    assert forall|i: int| 0 <= i < c1.edges@.len() implies c1.edges@[i] == c2.edges@[i] by {
        match range {
            Range::Forward((first, after)) => {
                assert(c1.edges@[i].node == c2.edges@[i].node);
                assert(c1.edges@[i].cursor == c2.edges@[i].cursor);
            },
            Range::Backward((last, before)) => {
                assert(c1.edges@[i].node == c2.edges@[i].node);
                assert(c1.edges@[i].cursor == c2.edges@[i].cursor);
            },
        }
    }
    assert(c1.edges@ =~= c2.edges@);
}

} // verus!
