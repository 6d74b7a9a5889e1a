use parapet::rect::{Position, Rect};

fn rect(x: u32, y: u32, width: u32, height: u32) -> Rect {
    Rect::new(x, y, width, height)
}

#[test]
fn new_keeps_the_four_numbers() {
    let r = Rect::new(1, 2, 3, 4);
    assert_eq!((r.x, r.y, r.width, r.height), (1, 2, 3, 4));
}

#[test]
fn clamp_shrinks_to_the_far_edges() {
    assert_eq!(rect(0, 0, 100, 100).clamp(rect(90, 90, 50, 50)), rect(90, 90, 10, 10));
}

#[test]
fn clamp_keeps_what_already_fits() {
    assert_eq!(rect(0, 0, 100, 100).clamp(rect(10, 20, 30, 40)), rect(10, 20, 30, 40));
}

#[test]
fn clamp_shrinks_one_axis_alone() {
    assert_eq!(rect(0, 0, 100, 100).clamp(rect(10, 90, 30, 40)), rect(10, 90, 30, 10));
    assert_eq!(rect(0, 0, 100, 100).clamp(rect(90, 10, 30, 40)), rect(90, 10, 10, 40));
}

#[test]
fn clamp_of_an_origin_outside_is_empty_at_zero() {
    assert_eq!(rect(0, 0, 100, 100).clamp(rect(101, 0, 5, 5)), rect(0, 0, 0, 0));
    assert_eq!(rect(10, 10, 100, 100).clamp(rect(5, 50, 5, 5)), rect(0, 0, 0, 0));
}

#[test]
fn clamp_of_an_origin_on_the_far_edge_keeps_the_origin() {
    assert_eq!(rect(0, 0, 100, 100).clamp(rect(100, 100, 5, 5)), rect(100, 100, 0, 0));
}

#[test]
fn clamp_is_idempotent_on_examples() {
    let frames = [rect(0, 0, 100, 100), rect(10, 20, 5, 7), rect(0, 0, 0, 0), rect(3, 3, u32::MAX, 9)];
    let others = [
        rect(90, 90, 50, 50),
        rect(0, 0, 1, 1),
        rect(12, 22, 100, 100),
        rect(200, 200, 1, 1),
        rect(15, 27, 0, 0),
        rect(u32::MAX, 5, u32::MAX, u32::MAX),
    ];
    for r in frames.iter() {
        for other in others.iter() {
            let once = r.clamp(*other);
            assert_eq!(r.clamp(once), once);
        }
    }
}

#[test]
fn clamp_does_not_wrap_at_the_largest_coordinates() {
    let frame = rect(0, 0, u32::MAX, u32::MAX);
    assert_eq!(frame.clamp(rect(5, 7, u32::MAX, u32::MAX)), rect(5, 7, u32::MAX - 5, u32::MAX - 7));
}

#[test]
fn relative_center_shares_the_centre() {
    assert_eq!(rect(0, 0, 100, 100).relative(Position::Center, 20, 20), rect(40, 40, 20, 20));
}

#[test]
fn relative_center_rounds_both_halves_down() {
    assert_eq!(rect(0, 0, 10, 7).relative(Position::Center, 3, 3), rect(4, 2, 3, 3));
}

#[test]
fn relative_center_stops_at_zero() {
    assert_eq!(rect(0, 0, 10, 10).relative(Position::Center, 30, 4), rect(0, 3, 30, 4));
}

#[test]
fn relative_left_is_cut_to_the_room_before_self() {
    assert_eq!(rect(0, 0, 100, 100).relative(Position::Left, 150, 10), rect(0, 0, 0, 10));
    assert_eq!(rect(30, 5, 100, 100).relative(Position::Left, 150, 10), rect(0, 5, 30, 10));
}

#[test]
fn relative_left_ends_where_self_begins() {
    let r = rect(30, 5, 100, 100).relative(Position::Left, 10, 10);
    assert_eq!(r, rect(20, 5, 10, 10));
    assert_eq!(r.right(), 30);
}

#[test]
fn relative_right_begins_where_self_ends() {
    assert_eq!(rect(30, 5, 100, 100).relative(Position::Right, 10, 12), rect(130, 5, 10, 12));
}

#[test]
fn relative_top_is_cut_to_the_room_above_self() {
    assert_eq!(rect(30, 5, 100, 100).relative(Position::Top, 10, 12), rect(30, 0, 10, 5));
    assert_eq!(rect(30, 50, 100, 100).relative(Position::Top, 10, 12), rect(30, 38, 10, 12));
}

#[test]
fn relative_bottom_begins_where_self_ends() {
    assert_eq!(rect(30, 5, 100, 100).relative(Position::Bottom, 10, 12), rect(30, 105, 10, 12));
}

#[test]
fn contains_point_counts_both_far_edges() {
    let r = rect(10, 20, 5, 6);
    assert!(r.contains_point(10, 20));
    assert!(r.contains_point(15, 26));
    assert!(!r.contains_point(16, 26));
    assert!(!r.contains_point(15, 27));
    assert!(!r.contains_point(9, 20));
    assert!(!r.contains_point(10, 19));
}

#[test]
fn contains_width_and_height_compare_origin_and_extent() {
    let screen = rect(0, 0, 10, 10);
    assert!(screen.contains_width(&rect(0, 0, 10, 50)));
    assert!(!screen.contains_width(&rect(0, 0, 11, 1)));
    assert!(screen.contains_height(&rect(0, 0, 50, 10)));
    assert!(!screen.contains_height(&rect(0, 0, 1, 11)));
    assert!(!rect(5, 5, 10, 10).contains_width(&rect(4, 5, 1, 1)));
    assert!(!rect(5, 5, 10, 10).contains_height(&rect(5, 4, 1, 1)));
}

#[test]
fn edges_and_centre_are_derived_from_the_fields() {
    let r = rect(10, 20, 5, 7);
    assert_eq!(r.right(), 15);
    assert_eq!(r.bottom(), 27);
    assert_eq!(r.center(), (12, 23));
}

#[test]
fn edges_saturate_instead_of_wrapping() {
    let r = rect(u32::MAX - 1, u32::MAX - 2, 10, 10);
    assert_eq!(r.right(), u32::MAX);
    assert_eq!(r.bottom(), u32::MAX);
    assert_eq!(r.center(), (u32::MAX, u32::MAX));
    assert!(r.right() >= r.x && r.bottom() >= r.y);
}
