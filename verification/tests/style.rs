use compositor::style::{Color, Colors, Style, UnderlineStyle};

fn color(r: u8, g: u8, b: u8) -> Color {
    Color { r, g, b, a: 255 }
}

fn plain_style(colors: Colors) -> Style {
    Style {
        colors,
        reverse: false,
        italic: false,
        bold: false,
        strikethrough: false,
        blend: 0,
        underline: None,
    }
}

fn defaults() -> Colors {
    Colors {
        foreground: Some(color(220, 220, 220)),
        background: Some(color(20, 20, 20)),
        special: Some(color(255, 0, 0)),
    }
}

#[test]
fn own_colors_win_over_defaults() {
    let s = plain_style(Colors {
        foreground: Some(color(1, 2, 3)),
        background: Some(color(4, 5, 6)),
        special: Some(color(7, 8, 9)),
    });
    let d = defaults();
    assert_eq!(s.foreground(&d), color(1, 2, 3));
    assert_eq!(s.background(&d), color(4, 5, 6));
    assert_eq!(s.special(&d), color(7, 8, 9));
}

#[test]
fn unset_colors_fall_back_to_defaults() {
    let s = plain_style(Colors { foreground: None, background: None, special: None });
    let d = defaults();
    assert_eq!(s.foreground(&d), color(220, 220, 220));
    assert_eq!(s.background(&d), color(20, 20, 20));
}

#[test]
fn reverse_swaps_foreground_and_background() {
    let mut s = plain_style(Colors {
        foreground: Some(color(1, 1, 1)),
        background: Some(color(2, 2, 2)),
        special: None,
    });
    s.reverse = true;
    let d = defaults();
    assert_eq!(s.foreground(&d), color(2, 2, 2));
    assert_eq!(s.background(&d), color(1, 1, 1));
}

#[test]
fn special_falls_back_to_resolved_foreground() {
    let mut s = plain_style(Colors {
        foreground: Some(color(9, 9, 9)),
        background: Some(color(3, 3, 3)),
        special: None,
    });
    let d = defaults();
    assert_eq!(s.special(&d), color(9, 9, 9));
    // Under reverse the resolved foreground is the style's background,
    // and the special colour follows it.
    s.reverse = true;
    assert_eq!(s.special(&d), color(3, 3, 3));
}

#[test]
fn missing_fallback_is_detectable_before_resolving() {
    let s = plain_style(Colors { foreground: None, background: None, special: None });
    let bare = Colors { foreground: None, background: None, special: None };
    assert_eq!(s.try_foreground(&bare), None);
    assert_eq!(s.try_background(&bare), None);
    assert_eq!(s.try_special(&bare), None);
}

#[test]
fn underline_variants_carry_through() {
    let mut s = plain_style(defaults());
    s.underline = Some(UnderlineStyle::UnderCurl);
    assert!(matches!(s.underline, Some(UnderlineStyle::UnderCurl)));
    assert_ne!(UnderlineStyle::UnderDash, UnderlineStyle::UnderDot);
}
