use omni_pane::video_display::overlay_layout::{
    calculate_text_origin, layout_overlays, line_position, text_origin, Point, Size, TextMetrics,
    TextPosition, FIRST_LINE_OFFSET, MAX_OVERLAY_LINES, TEXT_PADDING,
};

const IMAGE: Size = Size { width: 640, height: 480 };

fn metrics(width: i32) -> TextMetrics {
    TextMetrics { size: Size { width, height: 22 }, baseline: 10 }
}

#[test]
fn layout_constants_have_their_values() {
    assert_eq!(TEXT_PADDING, 10);
    assert_eq!(FIRST_LINE_OFFSET, 60);
    assert_eq!(MAX_OVERLAY_LINES, 256);
}

#[test]
fn line_position_grows_by_the_line_height() {
    assert_eq!(line_position(0, &metrics(100)), 60);
    assert_eq!(line_position(1, &metrics(100)), 102);
    assert_eq!(line_position(2, &metrics(100)), 144);
    assert_eq!(line_position(255, &metrics(100)), 255 * 42 + 60);
}

#[test]
fn origin_in_each_corner() {
    let text = Size { width: 100, height: 22 };
    assert_eq!(
        calculate_text_origin(&text, &IMAGE, 10, 60, &TextPosition::TopLeft),
        Point { x: 10, y: 70 }
    );
    assert_eq!(
        calculate_text_origin(&text, &IMAGE, 10, 60, &TextPosition::BottomLeft),
        Point { x: 10, y: 388 }
    );
    assert_eq!(
        calculate_text_origin(&text, &IMAGE, 10, 60, &TextPosition::TopRight),
        Point { x: 530, y: 70 }
    );
    assert_eq!(
        calculate_text_origin(&text, &IMAGE, 10, 60, &TextPosition::BottomRight),
        Point { x: 530, y: 388 }
    );
}

#[test]
fn line_position_moves_the_origin_up_and_down_only() {
    let text = Size { width: 100, height: 20 };
    assert_eq!(
        calculate_text_origin(&text, &IMAGE, 10, 60, &TextPosition::BottomRight),
        Point { x: 530, y: 390 }
    );
    for position in [
        TextPosition::TopLeft,
        TextPosition::TopRight,
        TextPosition::BottomLeft,
        TextPosition::BottomRight,
    ] {
        let near = calculate_text_origin(&text, &IMAGE, 10, 60, &position);
        let far = calculate_text_origin(&text, &IMAGE, 10, 500, &position);
        assert_eq!(near.x, far.x);
        assert_eq!((near.y - far.y).abs(), 440);
    }
}

#[test]
fn text_origin_combines_offset_and_corner() {
    assert_eq!(
        text_origin(1, &metrics(100), &IMAGE, TextPosition::BottomRight),
        Point { x: 530, y: 346 }
    );
    assert_eq!(
        text_origin(1, &metrics(100), &IMAGE, TextPosition::TopLeft),
        Point { x: 10, y: 112 }
    );
}

#[test]
fn extreme_sizes_do_not_overflow() {
    let huge = TextMetrics { size: Size { width: i32::MAX, height: i32::MAX }, baseline: i32::MAX };
    let image = Size { width: i32::MIN, height: i32::MIN };
    let line_height = 2 * i32::MAX as i64 + 10;
    let offset = 255 * line_height + 60;
    assert_eq!(line_position(255, &huge), offset);
    assert_eq!(
        text_origin(255, &huge, &image, TextPosition::BottomRight),
        Point {
            x: i32::MIN as i64 - (i32::MAX as i64 + 10),
            y: i32::MIN as i64 - (i32::MAX as i64 + 10 + offset),
        }
    );
}

#[test]
fn one_origin_for_each_provider_in_their_order() {
    let lines = vec![metrics(100), metrics(250), metrics(40)];
    let origins = layout_overlays(&lines, &IMAGE, TextPosition::BottomRight);
    assert_eq!(
        origins,
        vec![Point { x: 530, y: 388 }, Point { x: 380, y: 346 }, Point { x: 590, y: 304 }]
    );
    let origins = layout_overlays(&lines, &IMAGE, TextPosition::TopLeft);
    assert_eq!(
        origins,
        vec![Point { x: 10, y: 70 }, Point { x: 10, y: 112 }, Point { x: 10, y: 154 }]
    );
}

#[test]
fn no_provider_gives_no_line() {
    assert_eq!(layout_overlays(&Vec::new(), &IMAGE, TextPosition::TopRight), Vec::<Point>::new());
}

#[test]
fn lines_are_capped_at_256() {
    for count in [255usize, 256, 257, 300, 1000] {
        let lines = vec![metrics(100); count];
        let origins = layout_overlays(&lines, &IMAGE, TextPosition::TopLeft);
        assert_eq!(origins.len(), count.min(256));
        assert_eq!(origins[254], Point { x: 10, y: 10 + 254 * 42 + 60 });
        if count >= 256 {
            assert_eq!(origins[255], Point { x: 10, y: 10 + 255 * 42 + 60 });
        }
    }
}

#[test]
fn lines_of_one_font_do_not_overlap() {
    let lines = vec![metrics(100); 40];
    for position in [
        TextPosition::TopLeft,
        TextPosition::TopRight,
        TextPosition::BottomLeft,
        TextPosition::BottomRight,
    ] {
        let origins = layout_overlays(&lines, &IMAGE, position);
        assert_eq!(origins.len(), 40);
        for pair in origins.windows(2) {
            let (upper, lower) = if pair[0].y < pair[1].y {
                (pair[0], pair[1])
            } else {
                (pair[1], pair[0])
            };
            // The lower line's box starts below the end of the upper line's box.
            assert!(upper.y + 10 + 10 <= lower.y - 22);
        }
        let top_down = matches!(position, TextPosition::TopLeft | TextPosition::TopRight);
        for pair in origins.windows(2) {
            assert_eq!(pair[0].y < pair[1].y, top_down);
        }
    }
}

#[test]
fn tallest_line_sets_the_distance_between_all_lines() {
    let lines = vec![
        TextMetrics { size: Size { width: 100, height: 22 }, baseline: 10 },
        TextMetrics { size: Size { width: 80, height: 40 }, baseline: 12 },
        TextMetrics { size: Size { width: 60, height: 8 }, baseline: 0 },
    ];
    // The tallest line takes 40 + 12 + 10 = 62 rows.
    assert_eq!(
        layout_overlays(&lines, &IMAGE, TextPosition::TopLeft),
        vec![Point { x: 10, y: 70 }, Point { x: 10, y: 132 }, Point { x: 10, y: 194 }]
    );
    assert_eq!(
        layout_overlays(&lines, &IMAGE, TextPosition::TopRight),
        vec![Point { x: 530, y: 70 }, Point { x: 550, y: 132 }, Point { x: 570, y: 194 }]
    );
    assert_eq!(
        layout_overlays(&lines, &IMAGE, TextPosition::BottomLeft),
        vec![Point { x: 10, y: 388 }, Point { x: 10, y: 308 }, Point { x: 10, y: 278 }]
    );
    assert_eq!(
        layout_overlays(&lines, &IMAGE, TextPosition::BottomRight),
        vec![Point { x: 530, y: 388 }, Point { x: 550, y: 308 }, Point { x: 570, y: 278 }]
    );
}

#[test]
fn lines_of_any_size_lie_a_text_height_apart() {
    let lines: Vec<TextMetrics> = (0..300)
        .map(|i| TextMetrics {
            size: Size { width: 10 + i, height: (i * 37) % 61 },
            baseline: (i * 11) % 17,
        })
        .collect();
    for position in [TextPosition::TopLeft, TextPosition::BottomRight] {
        let origins = layout_overlays(&lines, &IMAGE, position);
        assert_eq!(origins.len(), 256);
        for (index, pair) in origins.windows(2).enumerate() {
            let later = lines[index + 1].size.height as i64;
            match position {
                TextPosition::TopLeft => assert!(pair[0].y + later + 10 <= pair[1].y),
                _ => assert!(pair[1].y + later + 10 <= pair[0].y),
            }
        }
    }
}

#[test]
fn a_line_beyond_the_cap_does_not_count_as_the_tallest() {
    let mut lines = vec![metrics(100); 256];
    lines.push(TextMetrics { size: Size { width: 100, height: 500 }, baseline: 10 });
    let origins = layout_overlays(&lines, &IMAGE, TextPosition::TopLeft);
    assert_eq!(origins.len(), 256);
    assert_eq!(origins[255], Point { x: 10, y: 10 + 255 * 42 + 60 });
}
