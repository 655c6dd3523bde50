use porthole::input::{ButtonInfo, MouseDisplacement, MouseEvent, ScrollInfo};
use porthole::manager::{check_graphics_info, WindowManager};
use porthole::rect::Rect;

fn movement(left: bool, right: bool) -> MouseEvent {
    MouseEvent {
        displacement: MouseDisplacement { x: 0, y: 0 },
        mousemove: ScrollInfo { scrolling_up: false, scrolling_down: false },
        buttonact: ButtonInfo {
            left_button_hold: left,
            right_button_hold: right,
            fourth_button_hold: false,
            fifth_button_hold: false,
        },
    }
}

fn front_pixels(m: &WindowManager) -> Vec<u32> {
    let w = m.screen_width();
    let h = m.screen_height();
    let mut out = Vec::new();
    for y in 0..h {
        for x in 0..w {
            out.push(m.front_buffer().get_pixel(x as isize, y as isize));
        }
    }
    out
}

#[test]
fn new_manager_has_default_cursor_and_empty_registry() {
    let m = WindowManager::new(800, 600);
    assert_eq!(m.window_count(), 0);
    assert_eq!(m.mouse.x, 200);
    assert_eq!(m.mouse.y, 200);
    assert_eq!(m.mouse.width, 11);
    assert_eq!(m.mouse.height, 18);
    assert_eq!(m.screen_width(), 800);
    assert_eq!(m.screen_height(), 600);
}

#[test]
fn check_graphics_info_validates_descriptor() {
    assert!(check_graphics_info(0, 800, 600).is_err());
    assert!(check_graphics_info(0xA0000, 800, 9000).is_err());
    assert_eq!(check_graphics_info(0xA0000, 800, 600), Ok((800, 600)));
}

#[test]
fn end_to_end_compose_render_and_drag() {
    let mut m = WindowManager::new(800, 600);
    let w = m.new_window(&Rect::new(100, 100, 0, 0));
    assert!(m.fill_window(w, 0x112233));
    assert_eq!(m.window_pixel(w, 50, 50), Some(0x112233));
    m.update();
    m.render();
    assert_eq!(m.front_buffer().get_pixel(50, 50), 0x112233);

    // move the cursor onto the window, then drag left-held by (10, 5)
    m.update_mouse_position(-150, 150);
    assert_eq!(m.mouse.x, 50);
    assert_eq!(m.mouse.y, 50);
    m.drag_windows(10, 5, &movement(true, false));
    let r = m.window_rect(w).unwrap();
    assert_eq!(r.x, 10);
    assert_eq!(r.y, 0); // the top edge would be violated, so y reverts
    assert_eq!(r.width, 100);
    assert_eq!(r.height, 100);
}

#[test]
fn later_window_occludes_earlier_on_overlap() {
    let mut m = WindowManager::new(800, 600);
    let a = m.new_window(&Rect::new(100, 100, 0, 0));
    let b = m.new_window(&Rect::new(100, 100, 50, 50));
    assert!(m.fill_window(a, 0xAAAAAA));
    assert!(m.fill_window(b, 0xBBBBBB));
    m.update();
    assert_eq!(m.back_buffer().get_pixel(75, 75), 0xBBBBBB);
    assert_eq!(m.back_buffer().get_pixel(10, 10), 0xAAAAAA);
    assert_eq!(m.back_buffer().get_pixel(300, 300), 0x000000);
}

#[test]
fn update_render_is_idempotent_without_redraw() {
    let mut m = WindowManager::new(320, 240);
    let w = m.new_window(&Rect::new(60, 60, 20, 20));
    assert!(m.fill_window(w, 0x445566));
    m.update();
    m.render();
    // the pass consumed the window's content
    assert_eq!(m.window_pixel(w, 30, 30), Some(0x000000));
    m.update();
    m.render();
    let first = front_pixels(&m);
    // no redraw, no mouse movement: the next pass composites the same frame
    m.update();
    m.render();
    let second = front_pixels(&m);
    assert_eq!(first, second);
    // a window that did not redraw shows blank
    assert_eq!(m.front_buffer().get_pixel(40, 40), 0x000000);
}

#[test]
fn window_not_redrawing_appears_blank_next_frame() {
    let mut m = WindowManager::new(320, 240);
    let w = m.new_window(&Rect::new(60, 60, 20, 20));
    assert!(m.fill_window(w, 0x445566));
    m.update();
    m.render();
    assert_eq!(m.front_buffer().get_pixel(40, 40), 0x445566);
    m.update();
    m.render();
    assert_eq!(m.front_buffer().get_pixel(40, 40), 0x000000);
}

#[test]
fn cursor_moves_exactly_when_fully_on_screen() {
    let mut m = WindowManager::new(800, 600);
    m.update_mouse_position(13, 7);
    assert_eq!(m.mouse.x, 213);
    assert_eq!(m.mouse.y, 193);
}

#[test]
fn cursor_move_past_right_edge_is_discarded_per_axis() {
    let mut m = WindowManager::new(800, 600);
    // 200 + 700 + 11 > 800: the horizontal proposal is discarded entirely
    m.update_mouse_position(700, 10);
    assert_eq!(m.mouse.x, 200);
    assert_eq!(m.mouse.y, 190);
}

#[test]
fn cursor_move_past_top_edge_is_discarded_per_axis() {
    let mut m = WindowManager::new(800, 600);
    m.update_mouse_position(5, 300);
    assert_eq!(m.mouse.x, 205);
    assert_eq!(m.mouse.y, 200);
}

#[test]
fn left_drag_moves_only_colliding_windows() {
    let mut m = WindowManager::new(800, 600);
    let hit = m.new_window(&Rect::new(100, 100, 150, 150));
    let miss = m.new_window(&Rect::new(100, 100, 500, 500));
    m.drag_windows(7, 3, &movement(true, false));
    let r_hit = m.window_rect(hit).unwrap();
    let r_miss = m.window_rect(miss).unwrap();
    assert_eq!(r_hit.x, 157);
    assert_eq!(r_hit.y, 147);
    assert_eq!(r_miss.x, 500);
    assert_eq!(r_miss.y, 500);
}

#[test]
fn right_drag_resizes_and_defers_reallocation() {
    let mut m = WindowManager::new(800, 600);
    let w = m.new_window(&Rect::new(100, 100, 150, 150));
    m.drag_windows(10, 4, &movement(false, true));
    let r = m.window_rect(w).unwrap();
    assert_eq!(r.width, 110);
    assert_eq!(r.height, 96);
    assert_eq!(m.window_resized(w), Some(true));
    // the backing buffer is untouched until the next fill
    assert_eq!(m.window_buffer_size(w), Some((100, 100)));
    assert!(m.fill_window(w, 0x1F1F1F));
    assert_eq!(m.window_buffer_size(w), Some((110, 96)));
    assert_eq!(m.window_resized(w), Some(false));
}

#[test]
fn no_button_drag_changes_nothing() {
    let mut m = WindowManager::new(800, 600);
    let w = m.new_window(&Rect::new(100, 100, 150, 150));
    m.drag_windows(10, 4, &movement(false, false));
    let r = m.window_rect(w).unwrap();
    assert_eq!((r.x, r.y, r.width, r.height), (150, 150, 100, 100));
    assert_eq!(m.window_resized(w), Some(false));
}

#[test]
fn closed_window_is_skipped_and_ids_stay_stable() {
    let mut m = WindowManager::new(320, 240);
    let a = m.new_window(&Rect::new(50, 50, 0, 0));
    let b = m.new_window(&Rect::new(50, 50, 100, 100));
    assert!(m.fill_window(a, 0x111111));
    assert!(m.fill_window(b, 0x222222));
    m.close_window(a);
    assert_eq!(m.window_rect(a), None);
    assert!(!m.fill_window(a, 0x333333));
    m.update();
    m.render();
    assert_eq!(m.front_buffer().get_pixel(10, 10), 0x000000);
    assert_eq!(m.front_buffer().get_pixel(120, 120), 0x222222);
}

#[test]
fn cursor_is_overlaid_on_the_back_buffer() {
    let mut m = WindowManager::new(800, 600);
    m.update();
    // the cursor's top-left bitmap cell is an opaque border pixel
    assert_eq!(m.back_buffer().get_pixel(200, 200), 0xFFFFFF);
}

#[test]
fn print_in_window_renders_into_the_managed_window() {
    let mut m = WindowManager::new(320, 240);
    let w = m.new_window(&Rect::new(64, 64, 0, 0));
    let mut rows = vec![0u8; 4096];
    rows[(b'Z' as usize) * 16] = 0x80;
    let font = porthole::text::FontTable::new(rows).unwrap();
    assert!(m.print_in_window(w, "Z", 0xF0F0F0, 0x0F0F0F, &font, 0, 0));
    assert_eq!(m.window_pixel(w, 0, 0), Some(0xF0F0F0));
    assert_eq!(m.window_pixel(w, 1, 0), Some(0x0F0F0F));
    assert!(!m.print_in_window(99, "Z", 0, 0, &font, 0, 0));
}
