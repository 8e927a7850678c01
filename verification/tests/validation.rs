use rust_web_tools::connection::{Range, ValidationError};

// Mutual exclusivity: any input with both `first` and `last` set fails with
// ConflictingBounds, whatever the cursors say.
#[test]
fn first_and_last_conflict() {
    for after in [None, Some(4u64)] {
        for before in [None, Some(9u64)] {
            let r = Range::new(Some(1), Some(2), after, before);
            match r {
                Err(ValidationError::ConflictingBounds(m)) => {
                    assert_eq!(m, "first and last must not be set at the same time");
                }
                _ => panic!("expected ConflictingBounds"),
            }
        }
    }
}

#[test]
fn first_and_before_conflict() {
    let r = Range::new(Some(3), None, None, Some(7));
    match r {
        Err(ValidationError::ConflictingBounds(m)) => {
            assert_eq!(m, "first or before must not be set at the same time");
        }
        _ => panic!("expected ConflictingBounds"),
    }
}

#[test]
fn last_and_after_conflict() {
    let r = Range::new(None, Some(3), Some(2), None);
    match r {
        Err(ValidationError::ConflictingBounds(m)) => {
            assert_eq!(m, "last or after must not be set at the same time");
        }
        _ => panic!("expected ConflictingBounds"),
    }
}

// Mandatory bound: with neither `first` nor `last`, validation fails with
// MissingBound, whatever the cursors say.
#[test]
fn missing_bound() {
    for after in [None, Some(4u64)] {
        for before in [None, Some(9u64)] {
            let r = Range::new(None, None, after, before);
            match r {
                Err(ValidationError::MissingBound(m)) => {
                    assert_eq!(m, "first or last must be set");
                }
                _ => panic!("expected MissingBound"),
            }
        }
    }
}

#[test]
fn forward_with_cursor() {
    let r = Range::new(Some(3), None, Some(5), None).unwrap();
    assert!(matches!(r, Range::Forward((3, 5))));
}

#[test]
fn forward_defaults_offset_to_zero() {
    let r = Range::new(Some(20), None, None, None).unwrap();
    assert!(matches!(r, Range::Forward((20, 0))));
}

#[test]
fn backward_keeps_before() {
    let r = Range::new(None, Some(3), None, Some(8)).unwrap();
    assert!(matches!(r, Range::Backward((3, Some(8)))));
    let r = Range::new(None, Some(3), None, None).unwrap();
    assert!(matches!(r, Range::Backward((3, None))));
}
