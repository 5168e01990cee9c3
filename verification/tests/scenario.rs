use compositor::metrics::GridMetrics;
use compositor::renderer::{DrawCommand, Renderer, RendererSettings};
use compositor::rendered_window::{LineFragment, WindowDrawCommand};
use compositor::style::{Color, Colors, Style};

// One end-to-end pass through the pipeline: create a window, draw a
// line, composite, move the window, and watch the animation land.
#[test]
fn end_to_end_draw_move_and_settle() {
    let metrics = GridMetrics::from_cell_size(10, 20);
    let mut r = Renderer::new(metrics);
    let default_bg = Color { r: 30, g: 30, b: 30, a: 255 };
    let default_fg = Color { r: 240, g: 240, b: 240, a: 255 };
    r.handle_draw_command(DrawCommand::DefaultStyleChanged(Style {
        colors: Colors {
            foreground: Some(default_fg),
            background: Some(default_bg),
            special: None,
        },
        reverse: false,
        italic: false,
        bold: false,
        strikethrough: false,
        blend: 0,
        underline: None,
    }))
    .unwrap();

    // Window id 1 at grid position (0, 0), ten columns by two rows.
    r.handle_draw_command(DrawCommand::Window {
        grid_id: 1,
        command: WindowDrawCommand::Position {
            grid_position: (0, 0),
            grid_size: (10, 2),
            floating_order: None,
        },
    })
    .unwrap();

    r.handle_draw_command(DrawCommand::Window {
        grid_id: 1,
        command: WindowDrawCommand::DrawLine(vec![LineFragment {
            text: "Hello -> =>".to_string(),
            window_left: 0,
            window_top: 0,
            width: 20,
            style: None,
        }]),
    })
    .unwrap();

    let settings = RendererSettings::default();
    let animating = r.draw_frame(16, &settings);
    assert!(!animating);

    // The drawn region is the pixel rectangle at (0, 0) sized
    // 10 cells by 2 cells, in pixel subunits.
    assert_eq!(r.window_regions.len(), 1);
    let region = r.window_regions[0].region;
    assert_eq!(r.window_regions[0].id, 1);
    assert_eq!((region.left, region.top), (0, 0));
    assert_eq!(region.width, 10 * 10 * 1000);
    assert_eq!(region.height, 2 * 20 * 1000);

    // The drawn run's background is the default background colour.
    let run_index = r.windows[0].top_run_at(0, 0).unwrap();
    assert_eq!(r.windows[0].content[run_index].background, default_bg);
    assert_eq!(r.windows[0].content[run_index].text, "Hello -> =>");

    // Move the window to grid position (0, 5) at the same size.
    r.handle_draw_command(DrawCommand::Window {
        grid_id: 1,
        command: WindowDrawCommand::Position {
            grid_position: (0, 5000),
            grid_size: (10, 2),
            floating_order: None,
        },
    })
    .unwrap();

    // One frame of exactly the position-animation duration lands it.
    let still = r.draw_frame(settings.position_animation_length_ms, &settings);
    assert!(!still);
    assert_eq!(r.windows[0].position.current(), (0, 5000));
    let moved = r.window_regions[0].region;
    assert_eq!((moved.left, moved.top), (0, 5000 * 20));
    assert_eq!((moved.width, moved.height), (region.width, region.height));
}
