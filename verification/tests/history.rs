use editor_core::history::JumpHistory;
use editor_core::position::EditorLocation;

fn loc(path: &str, offset: usize) -> EditorLocation<usize> {
    EditorLocation { path: path.to_string(), position: Some(offset), scroll_offset: None, history: None }
}

fn filled(n: usize) -> JumpHistory {
    let mut h = JumpHistory::new();
    for i in 0..n {
        h.save_jump_location(loc("f.rs", i * 10));
    }
    h
}

#[test]
fn saving_moves_behind_the_list() {
    let h = filled(3);
    assert_eq!(h.locations.len(), 3);
    assert_eq!(h.current_location, 3);
}

#[test]
fn back_and_forth_returns_to_the_start() {
    for n in 1..=4 {
        let mut h = filled(4);
        // The view has moved on to offset 999 since its last jump.
        let mut here = loc("f.rs", 999);
        for _ in 0..n {
            here = h.jump_location_backward(Some(here)).unwrap();
        }
        assert_eq!(here.position, Some((4 - n) * 10));
        for _ in 0..n {
            here = h.jump_location_forward().unwrap();
        }
        assert_eq!(here.path, "f.rs");
        assert_eq!(here.position, Some(999));
        assert_eq!(h.current_location, 4);
        assert_eq!(h.locations.len(), 5);
        // At the newest place no step forward is left.
        assert!(h.jump_location_forward().is_none());
    }
}

#[test]
fn the_place_is_put_on_the_list_once() {
    let mut h = filled(2);
    let first = h.jump_location_backward(Some(loc("f.rs", 77))).unwrap();
    assert_eq!(first.position, Some(10));
    assert_eq!(h.locations.len(), 3);
    let second = h.jump_location_backward(Some(loc("f.rs", 10))).unwrap();
    assert_eq!(second.position, Some(0));
    // Inside the list nothing more is put on it.
    assert_eq!(h.locations.len(), 3);
    assert_eq!(h.current_location, 0);
    // At the oldest place no step back is left.
    assert!(h.jump_location_backward(Some(loc("f.rs", 0))).is_none());
    assert_eq!(h.locations.len(), 3);
}

#[test]
fn empty_history_has_no_steps() {
    let mut h = JumpHistory::new();
    assert!(h.jump_location_backward(Some(loc("f.rs", 1))).is_none());
    assert!(h.jump_location_forward().is_none());
    assert_eq!(h.locations.len(), 0);
}

#[test]
fn step_back_from_an_unknown_place() {
    let mut h = filled(3);
    // Without a place to put on the list the step skips one.
    let at = h.jump_location_backward(None).unwrap();
    assert_eq!(at.position, Some(10));
    assert_eq!(h.locations.len(), 3);
    let mut one = filled(1);
    assert!(one.jump_location_backward(None).is_none());
    assert_eq!(one.current_location, 1);
}
