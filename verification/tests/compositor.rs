use compositor::metrics::GridMetrics;
use compositor::renderer::{DrawCommand, Renderer, RendererSettings};
use compositor::rendered_window::{DrawError, LineFragment, WindowDrawCommand};
use compositor::style::{Color, Colors, Style};

fn metrics() -> GridMetrics {
    GridMetrics::from_cell_size(10, 20)
}

fn default_style() -> Style {
    Style {
        colors: Colors {
            foreground: Some(Color { r: 200, g: 200, b: 200, a: 255 }),
            background: Some(Color { r: 10, g: 10, b: 10, a: 255 }),
            special: None,
        },
        reverse: false,
        italic: false,
        bold: false,
        strikethrough: false,
        blend: 0,
        underline: None,
    }
}

fn position(grid_id: u64, x: i64, y: i64, w: u64, h: u64, z: Option<u64>) -> DrawCommand {
    DrawCommand::Window {
        grid_id,
        command: WindowDrawCommand::Position {
            grid_position: (x, y),
            grid_size: (w, h),
            floating_order: z,
        },
    }
}

fn ready_renderer() -> Renderer {
    let mut r = Renderer::new(metrics());
    r.handle_draw_command(DrawCommand::DefaultStyleChanged(default_style())).unwrap();
    r
}

#[test]
fn position_creates_then_updates() {
    let mut r = ready_renderer();
    r.handle_draw_command(position(1, 0, 0, 10, 2, None)).unwrap();
    assert_eq!(r.windows.len(), 1);
    assert_eq!(r.windows[0].id, 1);
    assert_eq!(r.windows[0].position.current(), (0, 0));
    // A second position command for the same id animates instead of
    // recreating.
    r.handle_draw_command(position(1, 5000, 0, 10, 2, None)).unwrap();
    assert_eq!(r.windows.len(), 1);
    assert!(r.windows[0].position.x.is_animating());
}

#[test]
fn windows_are_kept_in_identifier_order() {
    let mut r = ready_renderer();
    r.handle_draw_command(position(7, 0, 0, 4, 4, None)).unwrap();
    r.handle_draw_command(position(2, 0, 0, 4, 4, None)).unwrap();
    r.handle_draw_command(position(5, 0, 0, 4, 4, None)).unwrap();
    let ids: Vec<u64> = r.windows.iter().map(|w| w.id).collect();
    assert_eq!(ids, vec![2, 5, 7]);
}

#[test]
fn close_is_idempotent() {
    // Idempotent close: closing an unknown identifier is a no-op, and
    // a second close right after a first one is safe.
    let mut r = ready_renderer();
    r.handle_draw_command(DrawCommand::CloseWindow(9)).unwrap();
    assert_eq!(r.windows.len(), 0);
    r.handle_draw_command(position(1, 0, 0, 4, 4, None)).unwrap();
    r.handle_draw_command(DrawCommand::CloseWindow(1)).unwrap();
    assert_eq!(r.windows.len(), 0);
    r.handle_draw_command(DrawCommand::CloseWindow(1)).unwrap();
    assert_eq!(r.windows.len(), 0);
}

#[test]
fn recreation_after_close_is_a_fresh_window() {
    let mut r = ready_renderer();
    r.handle_draw_command(position(1, 0, 0, 4, 4, None)).unwrap();
    let frags = vec![LineFragment {
        text: "x".to_string(),
        window_left: 0,
        window_top: 0,
        width: 1,
        style: None,
    }];
    r.handle_draw_command(DrawCommand::Window {
        grid_id: 1,
        command: WindowDrawCommand::DrawLine(frags),
    })
    .unwrap();
    r.handle_draw_command(DrawCommand::CloseWindow(1)).unwrap();
    r.handle_draw_command(position(1, 2000, 0, 4, 4, None)).unwrap();
    assert_eq!(r.windows.len(), 1);
    assert_eq!(r.windows[0].content.len(), 0);
    assert_eq!(r.windows[0].position.current(), (2000, 0));
}

#[test]
fn stale_commands_are_ignored() {
    let mut r = ready_renderer();
    let frags = vec![LineFragment {
        text: "x".to_string(),
        window_left: 0,
        window_top: 0,
        width: 1,
        style: None,
    }];
    let cmds = vec![
        DrawCommand::Window { grid_id: 3, command: WindowDrawCommand::DrawLine(frags) },
        DrawCommand::Window { grid_id: 3, command: WindowDrawCommand::Clear },
        DrawCommand::Window { grid_id: 3, command: WindowDrawCommand::Hide },
        DrawCommand::Window { grid_id: 3, command: WindowDrawCommand::Show },
        DrawCommand::Window {
            grid_id: 3,
            command: WindowDrawCommand::Scroll {
                top: 0,
                bottom: 4,
                left: 0,
                right: 4,
                rows: 1,
                cols: 0,
            },
        },
        DrawCommand::Window {
            grid_id: 3,
            command: WindowDrawCommand::Viewport { top_line: 0, bottom_line: 4000 },
        },
        DrawCommand::Window { grid_id: 3, command: WindowDrawCommand::Close },
    ];
    for c in cmds {
        assert!(r.handle_draw_command(c).is_ok());
    }
    assert_eq!(r.windows.len(), 0);
}

#[test]
fn draw_line_without_defaults_reports_the_error() {
    let mut r = Renderer::new(metrics());
    r.handle_draw_command(position(1, 0, 0, 4, 4, None)).unwrap();
    let frags = vec![LineFragment {
        text: "x".to_string(),
        window_left: 0,
        window_top: 0,
        width: 1,
        style: None,
    }];
    let res = r.handle_draw_command(DrawCommand::Window {
        grid_id: 1,
        command: WindowDrawCommand::DrawLine(frags),
    });
    assert!(matches!(res, Err(DrawError::MissingDefaultColor)));
}

#[test]
fn scroll_accumulates_on_the_destination() {
    let mut r = ready_renderer();
    r.handle_draw_command(position(1, 0, 0, 4, 4, None)).unwrap();
    let scroll = |rows: i64| DrawCommand::Window {
        grid_id: 1,
        command: WindowDrawCommand::Scroll { top: 0, bottom: 4, left: 0, right: 4, rows, cols: 2 },
    };
    r.handle_draw_command(scroll(3)).unwrap();
    assert_eq!(r.windows[0].scroll.destination(), 3000);
    r.handle_draw_command(scroll(-1)).unwrap();
    assert_eq!(r.windows[0].scroll.destination(), 2000);
    // The horizontal parameters are carried in the data model even
    // though they do not animate.
    assert_eq!(r.windows[0].scroll_region, (0, 4, 0, 4));
    assert_eq!(r.windows[0].scroll_cols, 2);
}

#[test]
fn viewport_is_recorded_and_nothing_else_moves() {
    let mut r = ready_renderer();
    r.handle_draw_command(position(1, 0, 0, 4, 4, None)).unwrap();
    r.handle_draw_command(DrawCommand::Window {
        grid_id: 1,
        command: WindowDrawCommand::Viewport { top_line: 12_000, bottom_line: 16_000 },
    })
    .unwrap();
    assert_eq!(r.windows[0].viewport_top, 12_000);
    assert_eq!(r.windows[0].viewport_bottom, 16_000);
    assert_eq!(r.windows[0].content.len(), 0);
}

#[test]
fn stacking_order_is_base_by_id_then_floats_by_z() {
    // Stacking order: base windows A (id 1) and B (id 2), floating C
    // (id 5, z-index 5) overlapping both; the draw order is [A, B, C].
    let mut r = ready_renderer();
    r.handle_draw_command(position(2, 0, 0, 10, 2, None)).unwrap();
    r.handle_draw_command(position(1, 0, 0, 10, 2, None)).unwrap();
    r.handle_draw_command(position(5, 0, 0, 5, 1, Some(5))).unwrap();
    let settings = RendererSettings::default();
    r.draw_frame(16, &settings);
    let ids: Vec<u64> = r.window_regions.iter().map(|d| d.id).collect();
    assert_eq!(ids, vec![1, 2, 5]);
    // A pixel covered by both A and C shows C: the topmost draw there
    // is the floating window.
    let hit = r.hit_test(5_000, 5_000).unwrap();
    assert_eq!(r.window_regions[hit].id, 5);
    assert_eq!(r.window_regions[hit].floating_order, Some(5));
    // A pixel outside C but inside A and B shows B, the later base draw.
    let hit2 = r.hit_test(70_000, 5_000).unwrap();
    assert_eq!(r.window_regions[hit2].id, 2);
    // A pixel nothing covers shows the bare root.
    assert_eq!(r.hit_test(-5_000, -5_000), None);
}

#[test]
fn floating_ties_break_by_identifier() {
    let mut r = ready_renderer();
    r.handle_draw_command(position(9, 0, 0, 2, 2, Some(1))).unwrap();
    r.handle_draw_command(position(4, 0, 0, 2, 2, Some(1))).unwrap();
    r.handle_draw_command(position(6, 0, 0, 2, 2, Some(0))).unwrap();
    let settings = RendererSettings::default();
    r.draw_frame(16, &settings);
    let ids: Vec<u64> = r.window_regions.iter().map(|d| d.id).collect();
    assert_eq!(ids, vec![6, 4, 9]);
}

#[test]
fn hidden_and_degenerate_windows_are_not_composited() {
    let mut r = ready_renderer();
    r.handle_draw_command(position(1, 0, 0, 4, 4, None)).unwrap();
    r.handle_draw_command(position(2, 0, 0, 0, 4, None)).unwrap();
    r.handle_draw_command(DrawCommand::Window { grid_id: 1, command: WindowDrawCommand::Hide })
        .unwrap();
    let settings = RendererSettings::default();
    r.draw_frame(16, &settings);
    assert_eq!(r.window_regions.len(), 0);
    // The hidden window kept its surface; showing it again suffices.
    r.handle_draw_command(DrawCommand::Window { grid_id: 1, command: WindowDrawCommand::Show })
        .unwrap();
    r.draw_frame(16, &settings);
    let ids: Vec<u64> = r.window_regions.iter().map(|d| d.id).collect();
    assert_eq!(ids, vec![1]);
}

#[test]
fn draw_frame_reports_animations_in_flight() {
    let mut r = ready_renderer();
    r.handle_draw_command(position(1, 0, 0, 4, 4, None)).unwrap();
    let settings = RendererSettings::default();
    assert!(!r.draw_frame(16, &settings));
    r.handle_draw_command(position(1, 3000, 0, 4, 4, None)).unwrap();
    assert!(r.draw_frame(16, &settings));
    // The stock position animation runs 150 ms.
    assert!(!r.draw_frame(134, &settings));
    assert_eq!(r.windows[0].position.current(), (3000, 0));
}

#[test]
fn metrics_change_invalidates_every_surface() {
    let mut r = ready_renderer();
    r.handle_draw_command(position(1, 0, 0, 4, 4, None)).unwrap();
    let frags = vec![LineFragment {
        text: "x".to_string(),
        window_left: 0,
        window_top: 0,
        width: 1,
        style: None,
    }];
    r.handle_draw_command(DrawCommand::Window {
        grid_id: 1,
        command: WindowDrawCommand::DrawLine(frags),
    })
    .unwrap();
    assert_eq!(r.windows[0].content.len(), 1);
    r.handle_metrics_change(GridMetrics::from_cell_size(12, 24));
    assert_eq!(r.windows[0].content.len(), 0);
    assert_eq!(r.metrics.cell_size().width, 12);
}

#[test]
fn batch_applies_in_arrival_order() {
    // A Position followed by a DrawLine in one batch resizes before
    // drawing, so the drawn run lands on the new surface.
    let mut r = ready_renderer();
    r.handle_draw_command(position(1, 0, 0, 4, 4, None)).unwrap();
    let batch = vec![
        position(1, 0, 0, 8, 8, None),
        DrawCommand::Window {
            grid_id: 1,
            command: WindowDrawCommand::DrawLine(vec![LineFragment {
                text: "x".to_string(),
                window_left: 0,
                window_top: 0,
                width: 1,
                style: None,
            }]),
        },
    ];
    r.apply_commands(batch).unwrap();
    assert_eq!(r.windows[0].grid_size.width, 8);
    assert_eq!(r.windows[0].content.len(), 1);
}

#[test]
fn batch_stops_at_the_first_error() {
    // No defaults are configured, so the DrawLine fails; the Hide that
    // follows it in the batch must not be applied.
    let mut r = Renderer::new(metrics());
    r.handle_draw_command(position(1, 0, 0, 4, 4, None)).unwrap();
    let batch = vec![
        DrawCommand::Window {
            grid_id: 1,
            command: WindowDrawCommand::DrawLine(vec![LineFragment {
                text: "x".to_string(),
                window_left: 0,
                window_top: 0,
                width: 1,
                style: None,
            }]),
        },
        DrawCommand::Window { grid_id: 1, command: WindowDrawCommand::Hide },
    ];
    let res = r.apply_commands(batch);
    assert!(matches!(res, Err(DrawError::MissingDefaultColor)));
    assert!(!r.windows[0].hidden);
}

#[test]
fn settings_default_matches_the_stock_configuration() {
    let s = RendererSettings::default();
    assert_eq!(s.position_animation_length_ms, 150);
    assert_eq!(s.scroll_animation_length_ms, 300);
    assert_eq!(s.floating_opacity_per_mille, 700);
    assert!(s.floating_blur);
    assert_eq!(s.floating_blur_amount_x_sub, 2000);
    assert_eq!(s.floating_blur_amount_y_sub, 2000);
    assert_eq!(s.transparency_per_mille, 1000);
    assert!(!s.debug_renderer);
}
