use compositor::metrics::{Dimensions, GridMetrics, GridPoint};
use compositor::rendered_window::{DrawError, LineFragment, RenderedWindow};
use compositor::style::{Color, Colors, Style};

fn defaults() -> Colors {
    Colors {
        foreground: Some(Color { r: 200, g: 200, b: 200, a: 255 }),
        background: Some(Color { r: 10, g: 10, b: 10, a: 255 }),
        special: None,
    }
}

fn fragment(text: &str, left: u64, top: u64, width: u64, style: Option<Style>) -> LineFragment {
    LineFragment { text: text.to_string(), window_left: left, window_top: top, width, style }
}

fn fresh_window() -> RenderedWindow {
    RenderedWindow::new(1, GridPoint { x: 0, y: 0 }, Dimensions { width: 10, height: 4 })
}

#[test]
fn new_window_is_settled_and_empty() {
    let w = fresh_window();
    assert_eq!(w.id, 1);
    assert!(!w.hidden);
    assert!(w.floating_order.is_none());
    assert_eq!(w.content.len(), 0);
    assert_eq!(w.position.current(), (0, 0));
    assert!(!w.position.x.is_animating());
    assert_eq!(w.scroll.current(), 0);
}

#[test]
fn draw_line_records_resolved_runs() {
    let mut w = fresh_window();
    let frags = vec![fragment("hi", 2, 1, 4, None)];
    assert!(w.draw_line(&frags, &defaults()).is_ok());
    assert_eq!(w.content.len(), 1);
    let run = &w.content[0];
    assert_eq!(run.text, "hi");
    assert_eq!(run.left, 2);
    assert_eq!(run.top, 1000);
    assert_eq!(run.width, 4);
    assert_eq!(run.background, Color { r: 10, g: 10, b: 10, a: 255 });
    assert_eq!(run.foreground, Color { r: 200, g: 200, b: 200, a: 255 });
    assert!(!run.bold && !run.italic);
}

#[test]
fn draw_line_without_defaults_is_a_configuration_error() {
    let mut w = fresh_window();
    let bare = Colors { foreground: None, background: None, special: None };
    let frags = vec![fragment("hi", 0, 0, 2, None)];
    let r = w.draw_line(&frags, &bare);
    assert!(matches!(r, Err(DrawError::MissingDefaultColor)));
    // Nothing was drawn.
    assert_eq!(w.content.len(), 0);
}

#[test]
fn draw_line_uses_the_current_scroll_offset() {
    let mut w = fresh_window();
    // Scroll down one and a half rows and let the animation finish.
    w.set_destination_scroll(1500);
    w.advance(10_000, 150, 300);
    assert_eq!(w.scroll.current(), 1500);
    let frags = vec![fragment("x", 0, 3, 1, None)];
    w.draw_line(&frags, &defaults()).unwrap();
    // Row 3 shifted up by the current scroll offset.
    assert_eq!(w.content[0].top, 1500);
}

#[test]
fn resize_discards_stale_content() {
    // Resize discards stale content: after a resize the surface shows
    // nothing until it is redrawn.
    let mut w = fresh_window();
    let frags = vec![fragment("abc", 0, 0, 3, None)];
    w.draw_line(&frags, &defaults()).unwrap();
    assert_eq!(w.content.len(), 1);
    w.resize(Dimensions { width: 20, height: 8 });
    assert_eq!(w.grid_size, Dimensions { width: 20, height: 8 });
    assert_eq!(w.content.len(), 0);
    assert_eq!(w.top_run_at(0, 0), None);
}

#[test]
fn resize_keeps_animation_state() {
    let mut w = fresh_window();
    w.set_destination_position(5000, 0);
    w.advance(75, 150, 300);
    let mid = w.position.current();
    w.resize(Dimensions { width: 3, height: 3 });
    assert_eq!(w.position.current(), mid);
    assert!(w.position.x.is_animating());
}

#[test]
fn clear_resets_content_only() {
    let mut w = fresh_window();
    let frags = vec![fragment("abc", 0, 0, 3, None)];
    w.draw_line(&frags, &defaults()).unwrap();
    w.set_destination_scroll(2000);
    w.clear();
    assert_eq!(w.content.len(), 0);
    assert_eq!(w.scroll.destination(), 2000);
    assert_eq!(w.grid_size, Dimensions { width: 10, height: 4 });
}

#[test]
fn later_runs_cover_earlier_ones() {
    let mut w = fresh_window();
    let first = vec![fragment("aaaa", 0, 0, 4, None)];
    let second = vec![fragment("bb", 1, 0, 2, None)];
    w.draw_line(&first, &defaults()).unwrap();
    w.draw_line(&second, &defaults()).unwrap();
    // Column 1 is covered by both; the later draw wins.
    assert_eq!(w.top_run_at(0, 1), Some(1));
    // Column 0 only by the first.
    assert_eq!(w.top_run_at(0, 0), Some(0));
    // Column 9 by neither.
    assert_eq!(w.top_run_at(0, 9), None);
}

#[test]
fn pixel_region_tracks_the_animated_position() {
    let metrics = GridMetrics::from_cell_size(10, 20);
    let mut w = fresh_window();
    let r0 = w.pixel_region(&metrics);
    assert_eq!((r0.left, r0.top), (0, 0));
    assert_eq!(r0.width, 10 * 10 * 1000);
    assert_eq!(r0.height, 4 * 20 * 1000);
    w.set_destination_position(2000, 1000);
    w.advance(150, 150, 300);
    let r1 = w.pixel_region(&metrics);
    assert_eq!((r1.left, r1.top), (2000 * 10, 1000 * 20));
    assert_eq!((r1.width, r1.height), (r0.width, r0.height));
}

#[test]
fn draw_returns_details_and_flight_state() {
    let metrics = GridMetrics::from_cell_size(10, 20);
    let mut w = fresh_window();
    w.set_destination_position(1000, 0);
    let (details, still) = w.draw(&metrics, 75, 150, 300);
    assert!(still);
    assert_eq!(details.id, 1);
    assert!(details.floating_order.is_none());
    let (details2, still2) = w.draw(&metrics, 75, 150, 300);
    assert!(!still2);
    assert_eq!(details2.region.left, 1000 * 10);
}
