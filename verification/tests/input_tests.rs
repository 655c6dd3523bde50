use porthole::input::{
    coalesce_movement, ButtonInfo, Event, MouseDisplacement, MouseEvent, ScrollInfo,
};

fn event(x: i8, y: i8, left: bool, up: bool) -> MouseEvent {
    MouseEvent {
        displacement: MouseDisplacement { x, y },
        mousemove: ScrollInfo { scrolling_up: up, scrolling_down: false },
        buttonact: ButtonInfo {
            left_button_hold: left,
            right_button_hold: false,
            fourth_button_hold: false,
            fifth_button_hold: false,
        },
    }
}

#[test]
fn coalesce_sums_matching_movements() {
    let first = event(3, 4, true, false);
    let rest = vec![
        Event::MouseMovement(event(1, 1, true, false)),
        Event::MouseMovement(event(2, 0, true, false)),
    ];
    let (dx, dy, used) = coalesce_movement(&first, &rest);
    assert_eq!((dx, dy, used), (6, 5, 2));
}

#[test]
fn coalesce_stops_at_different_modifier_state() {
    let first = event(3, 4, true, false);
    let rest = vec![
        Event::MouseMovement(event(1, 1, true, false)),
        Event::MouseMovement(event(5, 5, false, false)),
        Event::MouseMovement(event(7, 7, true, false)),
    ];
    let (dx, dy, used) = coalesce_movement(&first, &rest);
    assert_eq!((dx, dy, used), (4, 5, 1));
}

#[test]
fn coalesce_stops_at_scroll_state_change() {
    let first = event(1, 0, false, false);
    let rest = vec![Event::MouseMovement(event(1, 0, false, true))];
    let (dx, dy, used) = coalesce_movement(&first, &rest);
    assert_eq!((dx, dy, used), (1, 0, 0));
}

#[test]
fn coalesce_stops_at_non_movement_event() {
    let first = event(-2, 6, false, false);
    let rest = vec![
        Event::Other,
        Event::MouseMovement(event(9, 9, false, false)),
    ];
    let (dx, dy, used) = coalesce_movement(&first, &rest);
    assert_eq!((dx, dy, used), (-2, 6, 0));
}

#[test]
fn coalesce_with_empty_queue_returns_first_displacement() {
    let first = event(-5, -6, false, false);
    let rest: Vec<Event> = Vec::new();
    let (dx, dy, used) = coalesce_movement(&first, &rest);
    assert_eq!((dx, dy, used), (-5, -6, 0));
}
