use rooq::preview::{can_go_next, can_go_previous, next_frame, next_page, previous_page};

#[test]
fn paging_is_clamped_to_the_rendered_pages() {
    assert!(!can_go_previous(0));
    assert!(can_go_previous(3));
    assert!(can_go_next(0, 6));
    assert!(!can_go_next(5, 6));
    assert!(!can_go_next(0, 1));
    assert!(!can_go_next(0, 0));
    assert_eq!(previous_page(0), 0);
    assert_eq!(previous_page(4), 3);
    assert_eq!(next_page(2, 6), 3);
    assert_eq!(next_page(5, 6), 5);
}

#[test]
fn animation_wraps_after_the_last_frame() {
    assert_eq!(next_frame(0, 3, true), 1);
    assert_eq!(next_frame(2, 3, true), 0);
    assert_eq!(next_frame(2, 3, false), 2);
    assert_eq!(next_frame(0, 1, true), 0);
}
