//! The ordered-store capability the pagination engine consumes, and a
//! verified in-memory store.

use vstd::prelude::*;

verus! {

/// A failure reported by the underlying data store. The engine never
/// inspects it: resolution aborts and the failure travels back unchanged.
#[derive(Debug, Clone)]
pub struct StoreError {
    pub message: String,
}

/// The rows an ordered store hands back for a window of at most `limit`
/// rows starting at row `offset`: the window clipped to the rows that
/// exist.
pub open spec fn window_spec<T>(rows: Seq<T>, offset: int, limit: int) -> Seq<T>
    recommends
        0 <= offset,
        0 <= limit,
{
    let len = rows.len() as int;
    let start = if offset <= len {
        offset
    } else {
        len
    };
    let end = if offset + limit <= len {
        offset + limit
    } else {
        len
    };
    rows.subrange(start, end)
}

/// An ordered, offset-and-limit-bounded query capability over a snapshot
/// of rows: exactly what the pagination engine consumes from a data store.
/// Either call may fail; of a failure nothing is promised.
pub trait Store<T>: Sized {
    /// The store's full result set, in its stable order.
    spec fn rows(&self) -> Seq<T>;

    /// The result set fits the store's own counting type.
    proof fn rows_len_bounded(&self)
        ensures
            self.rows().len() <= u64::MAX,
    ;

    /// Fetch at most `limit` rows starting at row `offset`, in store order.
    fn fetch(&self, offset: u64, limit: u64) -> (r: Result<Vec<T>, StoreError>)
        ensures
            r matches Ok(v) ==> v@ == window_spec(self.rows(), offset as int, limit as int),
    ;

    /// Report the total number of rows.
    fn count(&self) -> (r: Result<u64, StoreError>)
        ensures
            r matches Ok(n) ==> n == self.rows().len(),
    ;
}

/// An in-memory store: a vector of rows already in their stable order.
/// Its queries never fail.
pub struct MemStore<T> {
    pub items: Vec<T>,
}

impl<T: Copy> Store<T> for MemStore<T> {
    open spec fn rows(&self) -> Seq<T> {
        self.items@
    }

    proof fn rows_len_bounded(&self) {
        let l: usize = vstd::std_specs::vec::spec_vec_len(&self.items);
        assert(self.rows().len() == l);
    }

    fn fetch(&self, offset: u64, limit: u64) -> (r: Result<Vec<T>, StoreError>)
        ensures
            r is Ok,
    {
        let len: usize = self.items.len();
        let start: usize = if offset <= len as u64 {
            offset as usize
        } else {
            len
        };
        let room: usize = len - start;
        let take: usize = if limit <= room as u64 {
            limit as usize
        } else {
            room
        };
        let end: usize = start + take;
        let mut out: Vec<T> = Vec::new();
        let mut i: usize = start;
        while i < end
            invariant
                start <= i <= end <= self.items@.len(),
                out@ == self.items@.subrange(start as int, i as int),
            decreases end - i,
        {
            let node = self.items[i];
            out.push(node);
            proof {
                assert(out@ =~= self.items@.subrange(start as int, i as int + 1));
            }
            i = i + 1;
        }
        proof {
            assert(out@ =~= window_spec(self.rows(), offset as int, limit as int));
        }
        Ok(out)
    }

    fn count(&self) -> (r: Result<u64, StoreError>)
        ensures
            r is Ok,
    {
        Ok(self.items.len() as u64)
    }
}

} // verus!
