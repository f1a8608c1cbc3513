use pikaboo::checkin::CheckinNote;

const U: u64 = 7;
const V: u64 = 8;

#[test]
fn second_checkin_in_the_window_is_not_new() {
    let mut note = CheckinNote::new();
    assert!(note.checkin(U, 1_000, 60));
    assert!(!note.checkin(U, 1_030, 60));
    assert!(!note.checkin(U, 1_059, 60));
}

#[test]
fn another_user_in_the_window_is_new() {
    let mut note = CheckinNote::new();
    assert!(note.checkin(U, 1_000, 60));
    assert!(note.checkin(V, 1_010, 60));
    assert!(!note.checkin(V, 1_020, 60));
    assert!(!note.checkin(U, 1_020, 60));
}

#[test]
fn window_rolls_over_at_exactly_one_cooldown() {
    let mut note = CheckinNote::new();
    assert!(note.checkin(U, 1_000, 60));
    assert!(!note.checkin(U, 1_059, 60));
    assert!(note.checkin(U, 1_060, 60));
    assert!(!note.checkin(U, 1_061, 60));
}

#[test]
fn the_boundary_slides_with_the_event_that_opens_the_window() {
    let mut note = CheckinNote::new();
    assert!(note.checkin(U, 1_000, 60));
    // Opens the next window at 1_075, so that the one after opens at 1_135
    // and not at 1_120.
    assert!(note.checkin(V, 1_075, 60));
    assert!(note.checkin(U, 1_080, 60));
    assert!(!note.checkin(U, 1_120, 60));
    assert!(!note.checkin(U, 1_134, 60));
    assert!(note.checkin(U, 1_135, 60));
}

#[test]
fn event_before_the_first_cooldown_falls_in_the_first_window() {
    let mut note = CheckinNote::new();
    assert!(note.checkin(U, 10, 60));
    assert!(!note.checkin(U, 59, 60));
    assert!(note.checkin(U, 60, 60));
}

#[test]
fn cooldown_of_zero_makes_every_checkin_new_unless_time_runs_back() {
    let mut note = CheckinNote::new();
    assert!(note.checkin(U, 5, 0));
    assert!(note.checkin(U, 5, 0));
    assert!(note.checkin(U, 6, 0));
    assert!(!note.checkin(U, 4, 0));
}

#[test]
fn cooldown_beyond_the_range_never_rolls_over() {
    let mut note = CheckinNote::new();
    assert!(note.checkin(U, 100, 10));
    assert!(!note.checkin(U, u64::MAX, u64::MAX));
    assert!(note.checkin(V, u64::MAX, u64::MAX));
}
