use editor_core::delta::{Delta, DeltaElement};

fn insert_at_5() -> Delta {
    // "0123456789" with "abc" put in at 5.
    Delta {
        els: vec![
            DeltaElement::Copy(0, 5),
            DeltaElement::Insert("abc".to_string()),
            DeltaElement::Copy(5, 10),
        ],
        base_len: 10,
    }
}

fn delete_3_to_6() -> Delta {
    Delta { els: vec![DeltaElement::Copy(0, 3), DeltaElement::Copy(6, 10)], base_len: 10 }
}

#[test]
fn transform_through_insert() {
    let d = insert_at_5();
    assert!(d.is_valid());
    assert_eq!(d.new_document_len(), 13);
    assert_eq!(d.transform_offset(0, false), 0);
    assert_eq!(d.transform_offset(0, true), 0);
    assert_eq!(d.transform_offset(4, true), 4);
    assert_eq!(d.transform_offset(5, false), 5);
    assert_eq!(d.transform_offset(5, true), 8);
    assert_eq!(d.transform_offset(6, false), 9);
    assert_eq!(d.transform_offset(10, false), 13);
    assert_eq!(d.transform_offset(10, true), 13);
}

#[test]
fn transform_through_delete() {
    let d = delete_3_to_6();
    assert!(d.is_valid());
    assert_eq!(d.new_document_len(), 7);
    assert_eq!(d.transform_offset(2, true), 2);
    assert_eq!(d.transform_offset(3, false), 3);
    assert_eq!(d.transform_offset(3, true), 3);
    assert_eq!(d.transform_offset(4, false), 3);
    assert_eq!(d.transform_offset(5, true), 3);
    assert_eq!(d.transform_offset(6, false), 3);
    assert_eq!(d.transform_offset(7, false), 4);
    assert_eq!(d.transform_offset(10, true), 7);
}

#[test]
fn transform_through_replace_spanning_region() {
    // "0123456789": 2..7 gives way to "xy".
    let d = Delta {
        els: vec![
            DeltaElement::Copy(0, 2),
            DeltaElement::Insert("xy".to_string()),
            DeltaElement::Copy(7, 10),
        ],
        base_len: 10,
    };
    assert!(d.is_valid());
    assert_eq!(d.new_document_len(), 7);
    assert_eq!(d.transform_offset(1, false), 1);
    assert_eq!(d.transform_offset(2, false), 2);
    assert_eq!(d.transform_offset(2, true), 4);
    assert_eq!(d.transform_offset(4, false), 4);
    assert_eq!(d.transform_offset(7, false), 4);
    assert_eq!(d.transform_offset(8, false), 5);
}

#[test]
fn remapping_twice_shifts_twice() {
    // Remapping is to be done once: a second pass moves the offset again.
    let d = insert_at_5();
    let once = d.transform_offset(6, false);
    assert_eq!(once, 9);
    let d2 = Delta {
        els: vec![
            DeltaElement::Copy(0, 5),
            DeltaElement::Insert("abc".to_string()),
            DeltaElement::Copy(5, 13),
        ],
        base_len: 13,
    };
    assert_eq!(d2.transform_offset(once, false), 12);
}

#[test]
fn insert_at_start_and_end() {
    let front = Delta {
        els: vec![DeltaElement::Insert("ab".to_string()), DeltaElement::Copy(0, 4)],
        base_len: 4,
    };
    assert!(front.is_valid());
    assert_eq!(front.transform_offset(0, false), 0);
    assert_eq!(front.transform_offset(0, true), 2);
    assert_eq!(front.transform_offset(1, false), 3);
    let back = Delta {
        els: vec![DeltaElement::Copy(0, 4), DeltaElement::Insert("ab".to_string())],
        base_len: 4,
    };
    assert!(back.is_valid());
    assert_eq!(back.transform_offset(4, false), 4);
    assert_eq!(back.transform_offset(4, true), 6);
}

#[test]
fn identity_leaves_offsets() {
    let d = Delta::identity(7);
    assert!(d.is_valid());
    assert_eq!(d.new_document_len(), 7);
    for ix in 0..=7 {
        assert_eq!(d.transform_offset(ix, false), ix);
        assert_eq!(d.transform_offset(ix, true), ix);
    }
}

#[test]
fn inserted_length_counts_bytes() {
    let d = Delta {
        els: vec![
            DeltaElement::Copy(0, 1),
            DeltaElement::Insert("é€".to_string()),
            DeltaElement::Copy(1, 2),
        ],
        base_len: 2,
    };
    assert!(d.is_valid());
    assert_eq!(d.new_document_len(), 7);
    assert_eq!(d.transform_offset(1, true), 6);
    assert_eq!(d.transform_offset(2, false), 7);
}

#[test]
fn malformed_deltas_are_invalid() {
    let backwards = Delta { els: vec![DeltaElement::Copy(5, 3)], base_len: 10 };
    assert!(!backwards.is_valid());
    let beyond = Delta { els: vec![DeltaElement::Copy(0, 11)], base_len: 10 };
    assert!(!beyond.is_valid());
    let unordered = Delta {
        els: vec![DeltaElement::Copy(5, 8), DeltaElement::Copy(0, 5)],
        base_len: 10,
    };
    assert!(!unordered.is_valid());
    let overlapping = Delta {
        els: vec![DeltaElement::Copy(0, 6), DeltaElement::Copy(5, 10)],
        base_len: 10,
    };
    assert!(!overlapping.is_valid());
    let empty = Delta { els: vec![], base_len: 10 };
    assert!(empty.is_valid());
    assert_eq!(empty.new_document_len(), 0);
    assert_eq!(empty.transform_offset(4, true), 0);
}

#[test]
fn clone_keeps_the_pieces() {
    let d = insert_at_5();
    let c = d.clone();
    assert_eq!(c.base_len, 10);
    assert_eq!(c.els.len(), 3);
    assert_eq!(c.transform_offset(5, true), 8);
}
