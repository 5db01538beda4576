//! Where the overlay lines go on a frame.
//!
//! The caller measures each line of text in the font it draws with; this module places the
//! lines one below the other from a corner of the frame. Sizes come as 32-bit pixel counts;
//! origins are carried in 64 bits, which hold every sum of them.

use vstd::prelude::*;

verus! {

/// The space kept between a line of text and the edge of the frame, and added below each
/// line.
pub const TEXT_PADDING: i32 = 10;

/// The offset of the first line from the padded edge.
pub const FIRST_LINE_OFFSET: i32 = 60;

/// The most lines that are placed on one frame.
pub const MAX_OVERLAY_LINES: usize = 256;

/// The corner of the frame that the overlay lines start from.
#[derive(Clone, Copy, Debug, PartialEq, Eq, Structural)]
pub enum TextPosition {
    TopLeft,
    TopRight,
    BottomLeft,
    BottomRight,
}

/// A width and a height in pixels.
#[derive(Clone, Copy, Debug, PartialEq, Eq, Structural)]
pub struct Size {
    pub width: i32,
    pub height: i32,
}

/// A position on the pixel grid, `y` growing downwards.
#[derive(Clone, Copy, Debug, PartialEq, Eq, Structural)]
pub struct Point {
    pub x: i64,
    pub y: i64,
}

/// The measured box of one line of text: its size above the origin line, and how far it
/// reaches below it.
#[derive(Clone, Copy, Debug, PartialEq, Eq, Structural)]
pub struct TextMetrics {
    pub size: Size,
    pub baseline: i32,
}

/// The height that one line takes: its text, what hangs below it, and the padding.
pub open spec fn line_height(metrics: TextMetrics) -> int {
    metrics.size.height + metrics.baseline + TEXT_PADDING
}

/// How far the line with index `line_index` lies from the padded edge, where each line
/// takes `height`.
pub open spec fn line_offset(line_index: int, height: int) -> int {
    line_index * height + FIRST_LINE_OFFSET
}

/// The origin of a text of size `text_size` on a frame of size `image_size`, for a line
/// that lies `line_position` from the upper or lower edge that `position` names. The line
/// position moves the origin up or down only: sideways the text keeps the padding from
/// its edge.
pub open spec fn origin_at(
    text_size: Size,
    image_size: Size,
    padding: int,
    line_position: int,
    position: TextPosition,
) -> (int, int) {
    let y_padding = padding + line_position;
    match position {
        TextPosition::TopLeft => (padding, y_padding),
        TextPosition::BottomLeft => (padding, image_size.height - (text_size.height + y_padding)),
        TextPosition::TopRight => (image_size.width - (text_size.width + padding), y_padding),
        TextPosition::BottomRight => (
            image_size.width - (text_size.width + padding),
            image_size.height - (text_size.height + y_padding),
        ),
    }
}

/// The origin of the line with index `line_index` among lines that are all as tall as
/// this one.
pub open spec fn line_origin(
    line_index: int,
    metrics: TextMetrics,
    image_size: Size,
    position: TextPosition,
) -> (int, int) {
    origin_at(
        metrics.size,
        image_size,
        TEXT_PADDING as int,
        line_offset(line_index, line_height(metrics)),
        position,
    )
}

/// Whether the measures are those of a text: no extent is negative.
pub open spec fn measured(metrics: TextMetrics) -> bool {
    metrics.size.width >= 0 && metrics.size.height >= 0 && metrics.baseline >= 0
}

/// The height of the tallest line of `lines`, zero where there is none.
pub open spec fn tallest_line(lines: Seq<TextMetrics>) -> int
    decreases lines.len(),
{
    if lines.len() == 0 {
        0
    } else if line_height(lines.last()) > tallest_line(lines.drop_last()) {
        line_height(lines.last())
    } else {
        tallest_line(lines.drop_last())
    }
}

/// The lines of `lines` that are placed: the first `MAX_OVERLAY_LINES` of them.
pub open spec fn placed(lines: Seq<TextMetrics>) -> Seq<TextMetrics> {
    lines.take(placed_lines(lines.len() as int))
}

/// The height that each line of an overlay takes: that of its tallest placed line, so
/// that no line reaches into the next.
pub open spec fn overlay_step(lines: Seq<TextMetrics>) -> int {
    tallest_line(placed(lines))
}

/// How far the line with index `line_index` of an overlay lies from the padded edge.
pub open spec fn overlay_offset(lines: Seq<TextMetrics>, line_index: int) -> int {
    line_offset(line_index, overlay_step(lines))
}

/// The origin of the line with index `line_index` of an overlay.
pub open spec fn overlay_origin(
    lines: Seq<TextMetrics>,
    image_size: Size,
    position: TextPosition,
    line_index: int,
) -> (int, int) {
    origin_at(
        lines[line_index].size,
        image_size,
        TEXT_PADDING as int,
        overlay_offset(lines, line_index),
        position,
    )
}

/// The number of lines placed for `provider_count` providers.
pub open spec fn placed_lines(provider_count: int) -> int {
    if provider_count <= MAX_OVERLAY_LINES {
        provider_count
    } else {
        MAX_OVERLAY_LINES as int
    }
}

/// The highest row that a line with origin row `origin_y` covers.
pub open spec fn line_top(origin_y: int, metrics: TextMetrics) -> int {
    origin_y - metrics.size.height
}

/// The lowest row that a line with origin row `origin_y` covers.
pub open spec fn line_bottom(origin_y: int, metrics: TextMetrics) -> int {
    origin_y + metrics.baseline
}

/// Whether every entry of `lines` has the height and the baseline of `metrics`, as the
/// lines of one font have.
pub open spec fn uniform(lines: Seq<TextMetrics>, metrics: TextMetrics) -> bool {
    forall|i: int|
        0 <= i < lines.len() ==> (#[trigger] lines[i]).size.height == metrics.size.height
            && lines[i].baseline == metrics.baseline
}

/// How far the line with index `line_index` lies from the padded edge, among lines that
/// are all as tall as this one.
pub fn line_position(line_index: u8, metrics: &TextMetrics) -> (offset: i64)
    ensures
        offset == line_offset(line_index as int, line_height(*metrics)),
        -0x1_0000_0000_0000 <= offset <= 0x1_0000_0000_0000,
{
    let height: i64 = metrics.size.height as i64 + metrics.baseline as i64 + TEXT_PADDING as i64;
    assert(-0x2_0000_0000 <= height <= 0x2_0000_0000);
    assert(line_index * height == line_index as int * line_height(*metrics));
    assert(-0x100 * 0x2_0000_0000 <= line_index * height <= 0x100 * 0x2_0000_0000)
        by (nonlinear_arith)
        requires
            0 <= line_index <= 0xff,
            -0x2_0000_0000 <= height <= 0x2_0000_0000,
    ;
    line_index as i64 * height + FIRST_LINE_OFFSET as i64
}

/// The origin of a text of size `text_size` on a frame of size `image_size`, for a line
/// that lies `line_position` from the edge that `position` names.
pub fn calculate_text_origin(
    text_size: &Size,
    image_size: &Size,
    padding: i32,
    line_position: i64,
    position: &TextPosition,
) -> (origin: Point)
    requires
        -0x1_0000_0000_0000 <= line_position <= 0x1_0000_0000_0000,
    ensures
        (origin.x as int, origin.y as int) == origin_at(
            *text_size,
            *image_size,
            padding as int,
            line_position as int,
            *position,
        ),
{
    let y_padding: i64 = padding as i64 + line_position;
    match position {
        TextPosition::TopLeft => Point { x: padding as i64, y: y_padding },
        TextPosition::BottomLeft => Point {
            x: padding as i64,
            y: image_size.height as i64 - (text_size.height as i64 + y_padding),
        },
        TextPosition::TopRight => Point {
            x: image_size.width as i64 - (text_size.width as i64 + padding as i64),
            y: y_padding,
        },
        TextPosition::BottomRight => Point {
            x: image_size.width as i64 - (text_size.width as i64 + padding as i64),
            y: image_size.height as i64 - (text_size.height as i64 + y_padding),
        },
    }
}

/// The origin of the line with index `line_index` among lines that are all as tall as
/// this one.
pub fn text_origin(
    line_index: u8,
    metrics: &TextMetrics,
    image_size: &Size,
    position: TextPosition,
) -> (origin: Point)
    ensures
        (origin.x as int, origin.y as int) == line_origin(
            line_index as int,
            *metrics,
            *image_size,
            position,
        ),
{
    let offset = line_position(line_index, metrics);
    calculate_text_origin(&metrics.size, image_size, TEXT_PADDING, offset, &position)
}

/// The height of the tallest of the first `count` lines.
fn tallest_of(lines: &Vec<TextMetrics>, count: usize) -> (height: i64)
    requires
        count <= lines@.len(),
    ensures
        height == tallest_line(lines@.take(count as int)),
        0 <= height <= 0x2_0000_0000,
{
    let mut height: i64 = 0;
    let mut seen: usize = 0;
    assert(lines@.take(0) =~= Seq::<TextMetrics>::empty());
    while seen < count
        invariant
            seen <= count <= lines@.len(),
            height == tallest_line(lines@.take(seen as int)),
            0 <= height <= 0x2_0000_0000,
        decreases count - seen,
    {
        let metrics = &lines[seen];
        let own: i64 = metrics.size.height as i64 + metrics.baseline as i64 + TEXT_PADDING as i64;
        proof {
            let next = lines@.take(seen + 1);
            assert(next.drop_last() =~= lines@.take(seen as int));
            assert(next.last() == lines@[seen as int]);
        }
        if own > height {
            height = own;
        }
        seen += 1;
    }
    height
}

/// The origins of the overlay lines, one for each measured text in the order given, for
/// at most `MAX_OVERLAY_LINES` of them. Every line takes the height of the tallest.
pub fn layout_overlays(lines: &Vec<TextMetrics>, image_size: &Size, position: TextPosition) -> (origins:
    Vec<Point>)
    ensures
        origins@.len() == placed_lines(lines@.len() as int),
        forall|i: int|
            0 <= i < origins@.len() ==> ((#[trigger] origins@[i]).x as int, origins@[i].y as int)
                == overlay_origin(lines@, *image_size, position, i),
{
    let count = if lines.len() <= MAX_OVERLAY_LINES {
        lines.len()
    } else {
        MAX_OVERLAY_LINES
    };
    let step = tallest_of(lines, count);
    let mut origins: Vec<Point> = Vec::new();
    let mut line_index: usize = 0;
    while line_index < count
        invariant
            line_index <= count <= lines@.len(),
            count == placed_lines(lines@.len() as int),
            step == overlay_step(lines@),
            0 <= step <= 0x2_0000_0000,
            origins@.len() == line_index,
            forall|i: int|
                0 <= i < origins@.len() ==> ((#[trigger] origins@[i]).x as int, origins@[i].y as int)
                    == overlay_origin(lines@, *image_size, position, i),
        decreases count - line_index,
    {
        assert(0 <= line_index * step <= 0x100 * 0x2_0000_0000) by (nonlinear_arith)
            requires
                0 <= line_index <= 0x100,
                0 <= step <= 0x2_0000_0000,
        ;
        let offset: i64 = line_index as i64 * step + FIRST_LINE_OFFSET as i64;
        let origin = calculate_text_origin(
            &lines[line_index].size,
            image_size,
            TEXT_PADDING,
            offset,
            &position,
        );
        origins.push(origin);
        line_index += 1;
    }
    origins
}

/// No line is taller than the tallest.
pub proof fn lemma_tallest_line(lines: Seq<TextMetrics>)
    ensures
        tallest_line(lines) >= 0,
        forall|k: int| 0 <= k < lines.len() ==> line_height(#[trigger] lines[k]) <= tallest_line(lines),
    decreases lines.len(),
{
    if lines.len() > 0 {
        let rest = lines.drop_last();
        lemma_tallest_line(rest);
        assert forall|k: int| 0 <= k < lines.len() implies line_height(#[trigger] lines[k])
            <= tallest_line(lines) by {
            if k < rest.len() {
                assert(lines[k] == rest[k]);
            }
        }
    }
}

/// Where all lines are as tall as one another, that is how tall the tallest is.
proof fn lemma_tallest_of_uniform(lines: Seq<TextMetrics>, metrics: TextMetrics)
    requires
        uniform(lines, metrics),
        line_height(metrics) >= 0,
        lines.len() > 0,
    ensures
        tallest_line(lines) == line_height(metrics),
    decreases lines.len(),
{
    let rest = lines.drop_last();
    assert(line_height(lines.last()) == line_height(metrics));
    if rest.len() > 0 {
        assert forall|i: int| 0 <= i < rest.len() implies (#[trigger] rest[i]).size.height
            == metrics.size.height && rest[i].baseline == metrics.baseline by {
            assert(rest[i] == lines[i]);
        }
        lemma_tallest_of_uniform(rest, metrics);
    }
}

/// The lines of an overlay lie apart in the order given, whatever their sizes: from one
/// placed line to a later one the distance from the edge grows by at least the height of
/// the tallest line, which is no less than the text, the overhang and the padding of any
/// placed line. The origins move with it: downwards from a top corner, upwards from a
/// bottom corner, by at least the text height of the later line and the padding.
pub proof fn lemma_lines_apart(
    lines: Seq<TextMetrics>,
    image_size: Size,
    position: TextPosition,
    first: int,
    second: int,
)
    requires
        forall|k: int| 0 <= k < placed_lines(lines.len() as int) ==> measured(#[trigger] lines[k]),
        0 <= first < second < placed_lines(lines.len() as int),
    ensures
        overlay_offset(lines, first) + overlay_step(lines) <= overlay_offset(lines, second),
        forall|k: int|
            0 <= k < placed_lines(lines.len() as int) ==> (#[trigger] lines[k]).size.height
                + lines[k].baseline + TEXT_PADDING <= overlay_step(lines),
        ({
            let a = overlay_origin(lines, image_size, position, first).1;
            let b = overlay_origin(lines, image_size, position, second).1;
            match position {
                TextPosition::TopLeft | TextPosition::TopRight => a + lines[second].size.height
                    + TEXT_PADDING <= b,
                TextPosition::BottomLeft | TextPosition::BottomRight => b
                    + lines[second].size.height + TEXT_PADDING <= a,
            }
        }),
        overlay_origin(lines, image_size, position, first) != overlay_origin(
            lines,
            image_size,
            position,
            second,
        ),
{
    let shown = placed(lines);
    let step = overlay_step(lines);
    lemma_tallest_line(shown);
    assert forall|k: int| 0 <= k < placed_lines(lines.len() as int) implies (
    #[trigger] lines[k]).size.height + lines[k].baseline + TEXT_PADDING <= step by {
        assert(shown[k] == lines[k]);
        assert(line_height(shown[k]) <= tallest_line(shown));
    }
    assert(lines[first].size.height + lines[first].baseline + TEXT_PADDING <= step);
    assert(lines[second].size.height + lines[second].baseline + TEXT_PADDING <= step);
    assert(measured(lines[first]) && measured(lines[second]));
    assert(second * step - first * step >= step) by (nonlinear_arith)
        requires
            first < second,
            step >= 0,
    ;
}

/// Lines of one font are placed as each of them would be placed alone, and their boxes,
/// from the top of the text to what hangs below it, are clear of one another by the
/// padding.
pub proof fn lemma_uniform_lines_clear(
    lines: Seq<TextMetrics>,
    metrics: TextMetrics,
    image_size: Size,
    position: TextPosition,
    first: int,
    second: int,
)
    requires
        uniform(lines, metrics),
        metrics.size.height >= 0,
        metrics.baseline >= 0,
        0 <= first < second < placed_lines(lines.len() as int),
    ensures
        overlay_origin(lines, image_size, position, first) == line_origin(
            first,
            lines[first],
            image_size,
            position,
        ),
        overlay_origin(lines, image_size, position, second) == line_origin(
            second,
            lines[second],
            image_size,
            position,
        ),
        ({
            let a = overlay_origin(lines, image_size, position, first).1;
            let b = overlay_origin(lines, image_size, position, second).1;
            match position {
                TextPosition::TopLeft | TextPosition::TopRight => line_bottom(a, lines[first])
                    + TEXT_PADDING <= line_top(b, lines[second]),
                TextPosition::BottomLeft | TextPosition::BottomRight => line_bottom(
                    b,
                    lines[second],
                ) + TEXT_PADDING <= line_top(a, lines[first]),
            }
        }),
{
    let shown = placed(lines);
    assert forall|i: int| 0 <= i < shown.len() implies (#[trigger] shown[i]).size.height
        == metrics.size.height && shown[i].baseline == metrics.baseline by {
        assert(shown[i] == lines[i]);
    }
    lemma_tallest_of_uniform(shown, metrics);
    let height = line_height(metrics);
    assert(line_height(lines[first]) == height);
    assert(line_height(lines[second]) == height);
    assert(second * height - first * height >= height) by (nonlinear_arith)
        requires
            first < second,
            height >= 0,
    ;
}

} // verus!
