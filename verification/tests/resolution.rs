use rust_web_tools::connection::{
    backward_connection, backward_start, forward_connection, Connection, Range,
};
use rust_web_tools::store::MemStore;

fn ten_rows() -> MemStore<u64> {
    // Node values chosen distinct from their cursors.
    MemStore {
        items: vec![10, 11, 12, 13, 14, 15, 16, 17, 18, 19],
    }
}

fn cursors<T>(c: &Connection<T>) -> Vec<u64> {
    c.edges.iter().map(|e| e.cursor).collect()
}

fn nodes(c: &Connection<u64>) -> Vec<u64> {
    c.edges.iter().map(|e| e.node).collect()
}

// Forward contract: `first = 3`, `after = 5` against ten rows fetches the
// window `offset = 5, limit = 4`; the fourth row announces the next page
// and is dropped, and each kept row `i` carries cursor `offset + i`.
#[test]
fn forward_contract() {
    let range = Range::new(Some(3), None, Some(5), None).unwrap();
    let c = range.get_connection(&ten_rows()).unwrap();
    assert_eq!(cursors(&c), vec![5, 6, 7]);
    assert_eq!(nodes(&c), vec![15, 16, 17]);
    assert!(c.has_previous_page);
    assert!(c.has_next_page);
}

#[test]
fn forward_at_end_has_no_next_page() {
    let range = Range::new(Some(3), None, Some(7), None).unwrap();
    let c = range.get_connection(&ten_rows()).unwrap();
    assert_eq!(cursors(&c), vec![7, 8, 9]);
    assert!(c.has_previous_page);
    assert!(!c.has_next_page);
}

#[test]
fn forward_from_start() {
    let range = Range::new(Some(4), None, None, None).unwrap();
    let c = range.get_connection(&ten_rows()).unwrap();
    assert_eq!(cursors(&c), vec![0, 1, 2, 3]);
    assert!(!c.has_previous_page);
    assert!(c.has_next_page);
}

// `has_previous_page` only reflects that the client skipped rows: past the
// end of the store it still reports true. Preserved behaviour.
#[test]
fn forward_past_end_still_reports_previous_page() {
    let range = Range::new(Some(3), None, Some(50), None).unwrap();
    let c = range.get_connection(&ten_rows()).unwrap();
    assert_eq!(cursors(&c), Vec::<u64>::new());
    assert!(c.has_previous_page);
    assert!(!c.has_next_page);
}

// Backward contract: ten rows, `last = 3`, no `before`: total = 10,
// effective bound 10, window start max(0, 10 - 3 - 1) = 6, cursors
// [6, 7, 8], a previous page and no next page.
#[test]
fn backward_contract() {
    let range = Range::new(None, Some(3), None, None).unwrap();
    let c = range.get_connection(&ten_rows()).unwrap();
    assert_eq!(cursors(&c), vec![6, 7, 8]);
    assert_eq!(nodes(&c), vec![16, 17, 18]);
    assert!(c.has_previous_page);
    assert!(!c.has_next_page);
}

// Backward underflow clamp: two rows, `last = 5`: the unclamped window
// start 2 - 5 - 1 would be negative, so it saturates to 0.
#[test]
fn backward_underflow_clamps_to_zero() {
    let store = MemStore {
        items: vec![10u64, 11],
    };
    let range = Range::new(None, Some(5), None, None).unwrap();
    let c = range.get_connection(&store).unwrap();
    assert_eq!(cursors(&c), vec![0, 1]);
    assert!(!c.has_previous_page);
    assert!(!c.has_next_page);
}

#[test]
fn backward_with_before_cursor() {
    let range = Range::new(None, Some(3), None, Some(8)).unwrap();
    let c = range.get_connection(&ten_rows()).unwrap();
    // effective bound 8, window start 8 - 3 - 1 = 4, rows beyond remain.
    assert_eq!(cursors(&c), vec![4, 5, 6]);
    assert!(c.has_previous_page);
    assert!(c.has_next_page);
}

#[test]
fn backward_clamps_large_before_to_total() {
    let range = Range::new(None, Some(3), None, Some(50)).unwrap();
    let c = range.get_connection(&ten_rows()).unwrap();
    assert_eq!(cursors(&c), vec![6, 7, 8]);
    assert!(c.has_previous_page);
    assert!(!c.has_next_page);
}

#[test]
fn empty_store() {
    let store = MemStore {
        items: Vec::<u64>::new(),
    };
    let fwd = Range::new(Some(3), None, None, None).unwrap();
    let c = fwd.get_connection(&store).unwrap();
    assert!(c.edges.is_empty());
    assert!(!c.has_previous_page);
    assert!(!c.has_next_page);
    let bwd = Range::new(None, Some(3), None, None).unwrap();
    let c = bwd.get_connection(&store).unwrap();
    assert!(c.edges.is_empty());
    assert!(!c.has_previous_page);
    assert!(!c.has_next_page);
}

// Cursor continuity on concrete requests: returned cursors are a
// contiguous ascending run whose length is the number of edges.
#[test]
fn cursors_are_contiguous() {
    let store = ten_rows();
    for range in [
        Range::new(Some(4), None, Some(2), None).unwrap(),
        Range::new(None, Some(4), None, Some(7)).unwrap(),
    ] {
        let c = range.get_connection(&store).unwrap();
        let cs = cursors(&c);
        assert_eq!(cs.len(), c.edges.len());
        for i in 1..cs.len() {
            assert_eq!(cs[i], cs[0] + i as u64);
        }
    }
}

// Idempotence: the identical request against an unchanged store yields an
// identical connection.
#[test]
fn repeated_request_is_identical() {
    let store = ten_rows();
    for range in [
        Range::new(Some(3), None, Some(5), None).unwrap(),
        Range::new(None, Some(3), None, Some(8)).unwrap(),
    ] {
        let c1 = range.get_connection(&store).unwrap();
        let c2 = range.get_connection(&store).unwrap();
        assert_eq!(cursors(&c1), cursors(&c2));
        assert_eq!(nodes(&c1), nodes(&c2));
        assert_eq!(c1.has_previous_page, c2.has_previous_page);
        assert_eq!(c1.has_next_page, c2.has_next_page);
    }
}

// The builders taken on their own, as the unverified web layer calls them.
#[test]
fn forward_builder_drops_the_probe_row() {
    let c = forward_connection(3, 5, vec![15u64, 16, 17, 18]);
    assert_eq!(cursors(&c), vec![5, 6, 7]);
    assert_eq!(nodes(&c), vec![15, 16, 17]);
    assert!(c.has_previous_page);
    assert!(c.has_next_page);

    let c = forward_connection(3, 0, vec![15u64, 16]);
    assert_eq!(cursors(&c), vec![0, 1]);
    assert!(!c.has_previous_page);
    assert!(!c.has_next_page);
}

#[test]
fn backward_builder_tags_from_window_start() {
    assert_eq!(backward_start(3, None, 10), 6);
    assert_eq!(backward_start(5, None, 2), 0);
    assert_eq!(backward_start(3, Some(8), 10), 4);
    let c = backward_connection(3, None, 10, vec![16u64, 17, 18]);
    assert_eq!(cursors(&c), vec![6, 7, 8]);
    assert_eq!(nodes(&c), vec![16, 17, 18]);
    assert!(c.has_previous_page);
    assert!(!c.has_next_page);
}
