//! The overlay's pixels: 32-bit BGRA values with premultiplied alpha, blended with the grid
//! lines and the selection's fill and border.
use vstd::prelude::*;

use crate::app_state::AppState;
use crate::color::{
    lemma_defaults_are_text, rgba_from_hex, spec_normalize,
    spec_rgba_of_text, RgbaColor, DEFAULT_GRID_COLOR, DEFAULT_SELECTION_BORDER_COLOR,
    DEFAULT_SELECTION_COLOR,
};
use crate::geometry::ScreenRect;
use crate::grid::{fits_i32, valid_dimension, GridSpec};
use crate::selection::{spec_area, spec_area_rect};

verus! {

/// One channel of a source color with straight alpha `a`, drawn over a premultiplied channel.
pub open spec fn blend_channel(source: int, alpha: int, destination: int) -> int {
    source * alpha / 255 + destination * (255 - alpha) / 255
}

/// A pixel's blue, green, red and alpha channels, lowest byte first.
pub open spec fn channel(pixel: u32, k: int) -> int {
    (pixel as int / pow256(k)) % 256
}

pub open spec fn pow256(k: int) -> int {
    if k <= 0 {
        1
    } else if k == 1 {
        256
    } else if k == 2 {
        65536
    } else {
        16777216
    }
}

pub open spec fn pack(blue: int, green: int, red: int, alpha: int) -> u32 {
    (blue + green * 256 + red * 65536 + alpha * 16777216) as u32
}

/// `color` drawn over the pixel `destination`.
pub open spec fn spec_blend(destination: u32, color: RgbaColor) -> u32 {
    let a = color.alpha as int;
    pack(
        blend_channel(color.blue as int, a, channel(destination, 0)),
        blend_channel(color.green as int, a, channel(destination, 1)),
        blend_channel(color.red as int, a, channel(destination, 2)),
        a + channel(destination, 3) * (255 - a) / 255,
    )
}

pub open spec fn saturating_index(width: usize, x: usize, y: usize) -> int {
    let row = if y * width > usize::MAX {
        usize::MAX as int
    } else {
        y * width
    };
    if row + x > usize::MAX {
        usize::MAX as int
    } else {
        row + x
    }
}

/// The pixels after drawing `color` at `(x, y)`: unchanged when the point lies past the
/// buffer or the color is fully transparent.
pub open spec fn spec_blend_at(pixels: Seq<u32>, width: usize, x: usize, y: usize, color: RgbaColor) -> Seq<
    u32,
> {
    let index = saturating_index(width, x, y);
    if index >= pixels.len() || color.alpha == 0 {
        pixels
    } else {
        pixels.update(index, spec_blend(pixels[index], color))
    }
}

/// Blended channels stay within a byte.
proof fn lemma_blend_channel_bound(s: int, a: int, d: int)
    requires
        0 <= s < 256,
        0 <= a < 256,
        0 <= d < 256,
    ensures
        0 <= blend_channel(s, a, d) <= 255,
{
    assert(0 <= s * a <= 255 * a) by (nonlinear_arith)
        requires
            0 <= s < 256,
            0 <= a < 256,
    ;
    assert(0 <= d * (255 - a) <= 255 * (255 - a)) by (nonlinear_arith)
        requires
            0 <= d < 256,
            0 <= a < 256,
    ;
    assert(s * a / 255 + d * (255 - a) / 255 <= (s * a + d * (255 - a)) / 255) by (nonlinear_arith)
        requires
            0 <= s * a,
            0 <= d * (255 - a),
    ;
    assert((s * a + d * (255 - a)) / 255 <= 255) by (nonlinear_arith)
        requires
            s * a + d * (255 - a) <= 255 * 255,
            0 <= s * a + d * (255 - a),
    ;
    assert(s * a / 255 >= 0) by (nonlinear_arith)
        requires
            0 <= s * a,
    ;
    assert(d * (255 - a) / 255 >= 0) by (nonlinear_arith)
        requires
            0 <= d * (255 - a),
    ;
}

fn blend_pixel(destination: u32, color: RgbaColor) -> (p: u32)
    ensures
        p == spec_blend(destination, color),
{
    let source_alpha = color.alpha as u32;
    let inverse_alpha = 255 - source_alpha;
    proof {
        let r = color.red as u32;
        let g = color.green as u32;
        let b = color.blue as u32;
        assert(r * source_alpha <= 65025 && g * source_alpha <= 65025 && b * source_alpha <= 65025)
            by (nonlinear_arith)
            requires
                r < 256,
                g < 256,
                b < 256,
                source_alpha < 256,
        ;
    }

    let source_red = color.red as u32 * source_alpha / 255;
    let source_green = color.green as u32 * source_alpha / 255;
    let source_blue = color.blue as u32 * source_alpha / 255;

    let destination_blue = destination & 0xFF;
    let destination_green = (destination >> 8) & 0xFF;
    let destination_red = (destination >> 16) & 0xFF;
    let destination_alpha = (destination >> 24) & 0xFF;
    proof {
        assert(destination & 0xFF == destination % 256) by (bit_vector);
        assert((destination >> 8) & 0xFF == (destination / 256) % 256) by (bit_vector);
        assert((destination >> 16) & 0xFF == (destination / 65536) % 256) by (bit_vector);
        assert((destination >> 24) & 0xFF == (destination / 16777216) % 256) by (bit_vector);
        lemma_blend_channel_bound(color.blue as int, source_alpha as int, destination_blue as int);
        lemma_blend_channel_bound(color.green as int, source_alpha as int, destination_green as int);
        lemma_blend_channel_bound(color.red as int, source_alpha as int, destination_red as int);
        lemma_blend_channel_bound(255, source_alpha as int, destination_alpha as int);
        assert(255 * source_alpha / 255 == source_alpha) by (nonlinear_arith);
    }

    proof {
        assert(destination_blue * inverse_alpha <= 65025 && destination_green * inverse_alpha
            <= 65025 && destination_red * inverse_alpha <= 65025 && destination_alpha
            * inverse_alpha <= 65025) by (nonlinear_arith)
            requires
                destination_blue < 256,
                destination_green < 256,
                destination_red < 256,
                destination_alpha < 256,
                inverse_alpha < 256,
        ;
    }
    let out_blue = source_blue + destination_blue * inverse_alpha / 255;
    let out_green = source_green + destination_green * inverse_alpha / 255;
    let out_red = source_red + destination_red * inverse_alpha / 255;
    let out_alpha = source_alpha + destination_alpha * inverse_alpha / 255;

    proof {
        assert(out_blue | (out_green << 8) | (out_red << 16) | (out_alpha << 24) == out_blue
            + out_green * 256 + out_red * 65536 + out_alpha * 16777216) by (bit_vector)
            requires
                out_blue < 256,
                out_green < 256,
                out_red < 256,
                out_alpha < 256,
        ;
    }
    out_blue | (out_green << 8) | (out_red << 16) | (out_alpha << 24)
}

/// Draws `color` over the pixel at `(x, y)` of a buffer `width` pixels wide.
pub fn blend_overlay_pixel(pixels: &mut [u32], width: usize, x: usize, y: usize, color: RgbaColor)
    ensures
        final(pixels)@ == spec_blend_at(old(pixels)@, width, x, y, color),
{
    let row = match y.checked_mul(width) {
        Some(r) => r,
        None => usize::MAX,
    };
    let index = row.saturating_add(x);
    if index >= pixels.len() || color.alpha == 0 {
        return;
    }
    let destination = pixels[index];
    pixels[index] = blend_pixel(destination, color);
}

/// The pixels after drawing `color` at each point in turn.
pub open spec fn blend_points(pixels: Seq<u32>, width: usize, points: Seq<(usize, usize)>, color: RgbaColor) -> Seq<
    u32,
>
    decreases points.len(),
{
    if points.len() == 0 {
        pixels
    } else {
        blend_points(
            spec_blend_at(pixels, width, points[0].0, points[0].1, color),
            width,
            points.drop_first(),
            color,
        )
    }
}

/// Drawing one more point after a run of points.
pub proof fn lemma_blend_points_push(
    pixels: Seq<u32>,
    width: usize,
    points: Seq<(usize, usize)>,
    p: (usize, usize),
    color: RgbaColor,
)
    ensures
        blend_points(pixels, width, points.push(p), color) == spec_blend_at(
            blend_points(pixels, width, points, color),
            width,
            p.0,
            p.1,
            color,
        ),
    decreases points.len(),
{
    if points.len() == 0 {
        assert(points.push(p).drop_first() =~= Seq::<(usize, usize)>::empty());
        assert(points.push(p)[0] == p);
        let after = spec_blend_at(pixels, width, p.0, p.1, color);
        assert(blend_points(after, width, Seq::<(usize, usize)>::empty(), color) == after);
    } else {
        assert(points.push(p).drop_first() =~= points.drop_first().push(p));
        assert(points.push(p)[0] == points[0]);
        lemma_blend_points_push(
            spec_blend_at(pixels, width, points[0].0, points[0].1, color),
            width,
            points.drop_first(),
            p,
            color,
        );
    }
}

/// Drawing two runs of points one after the other.
pub proof fn lemma_blend_points_append(
    pixels: Seq<u32>,
    width: usize,
    a: Seq<(usize, usize)>,
    b: Seq<(usize, usize)>,
    color: RgbaColor,
)
    ensures
        blend_points(pixels, width, a + b, color) == blend_points(
            blend_points(pixels, width, a, color),
            width,
            b,
            color,
        ),
    decreases b.len(),
{
    if b.len() == 0 {
        assert(a + b =~= a);
    } else {
        let last = b.last();
        assert(a + b =~= (a + b.drop_last()).push(last));
        assert(b =~= b.drop_last().push(last));
        lemma_blend_points_append(pixels, width, a, b.drop_last(), color);
        lemma_blend_points_push(pixels, width, a + b.drop_last(), last, color);
        lemma_blend_points_push(
            blend_points(pixels, width, a, color),
            width,
            b.drop_last(),
            last,
            color,
        );
    }
}

/// Drawing never changes the number of pixels.
pub proof fn lemma_blend_points_len(pixels: Seq<u32>, width: usize, points: Seq<(usize, usize)>, color: RgbaColor)
    ensures
        blend_points(pixels, width, points, color).len() == pixels.len(),
    decreases points.len(),
{
    if points.len() > 0 {
        lemma_blend_points_len(
            spec_blend_at(pixels, width, points[0].0, points[0].1, color),
            width,
            points.drop_first(),
            color,
        );
    }
}

/// The points of a vertical line at `x`, top to bottom.
pub open spec fn column_points(x: usize, height: usize) -> Seq<(usize, usize)> {
    Seq::new(height as nat, |y: int| (x, y as usize))
}

/// The points of a horizontal line at `y`, left to right.
pub open spec fn row_points(y: usize, width: usize) -> Seq<(usize, usize)> {
    Seq::new(width as nat, |x: int| (x as usize, y))
}

/// Where the grid line before column `c` is drawn.
pub open spec fn grid_line_x(c: int, width: usize, columns: u16) -> usize {
    let x = c * width / (columns as int);
    if x < width - 1 {
        x as usize
    } else {
        (width - 1) as usize
    }
}

pub open spec fn grid_line_y(r: int, height: usize, rows: u16) -> usize {
    let y = r * height / (rows as int);
    if y < height - 1 {
        y as usize
    } else {
        (height - 1) as usize
    }
}

/// The vertical grid lines before columns `0..n`.
pub open spec fn vertical_lines(n: int, width: usize, height: usize, columns: u16) -> Seq<(usize, usize)>
    decreases n,
{
    if n <= 0 {
        Seq::empty()
    } else {
        vertical_lines(n - 1, width, height, columns) + column_points(
            grid_line_x(n - 1, width, columns),
            height,
        )
    }
}

pub open spec fn horizontal_lines(n: int, width: usize, height: usize, rows: u16) -> Seq<(usize, usize)>
    decreases n,
{
    if n <= 0 {
        Seq::empty()
    } else {
        horizontal_lines(n - 1, width, height, rows) + row_points(
            grid_line_y(n - 1, height, rows),
            width,
        )
    }
}

/// Every grid line, the outer edges included: vertical lines first, then horizontal ones.
pub open spec fn grid_points(width: usize, height: usize, grid: GridSpec) -> Seq<(usize, usize)> {
    vertical_lines(grid.spec_columns() + 1, width, height, grid.spec_columns()) + horizontal_lines(
        grid.spec_rows() + 1,
        width,
        height,
        grid.spec_rows(),
    )
}

/// Draws the grid's lines over a `width` x `height` pixel buffer.
pub fn draw_overlay_grid(pixels: &mut [u32], width: usize, height: usize, grid: GridSpec, color: RgbaColor)
    ensures
        final(pixels)@ == (if width == 0 || height == 0 {
            old(pixels)@
        } else {
            blend_points(old(pixels)@, width, grid_points(width, height, grid), color)
        }),
        final(pixels)@.len() == old(pixels)@.len(),
        width > 0 && height > 0 ==> forall|i: int|
            0 <= i < old(pixels)@.len() && !grid_pixel(i, width as int, height as int, grid)
                ==> #[trigger] final(pixels)@[i] == old(pixels)@[i],
        width > 0 && height > 0 && color.alpha == 255 ==> forall|i: int|
            0 <= i < old(pixels)@.len() && grid_pixel(i, width as int, height as int, grid)
                ==> #[trigger] final(pixels)@[i] as int == color.blue as int + color.green as int
                * 256 + color.red as int * 65536 + 255 * 16777216,
{
    if width == 0 || height == 0 {
        return;
    }
    let columns = grid.columns();
    let rows = grid.rows();
    let _count = pixels.len();
    proof {
        lemma_grid_drawing(old(pixels)@, width, height, grid, color);
        lemma_pack_value(color);
    }
    let ghost start = old(pixels)@;
    let mut column: u16 = 0;
    while column <= columns
        invariant
            columns == grid.spec_columns(),
            1 <= columns <= 64,
            column <= columns + 1,
            width > 0,
            height > 0,
            pixels@ == blend_points(start, width, vertical_lines(column as int, width, height, columns), color),
        decreases columns + 1 - column,
    {
        proof {
            vstd::arithmetic::mul::lemma_mul_upper_bound(
                column as int,
                65,
                width as int,
                usize::MAX as int,
            );
        }
        let raw = (column as u128 * width as u128 / columns as u128);
        let x: usize = if raw < (width - 1) as u128 {
            raw as usize
        } else {
            width - 1
        };
        proof {
            assert(x == grid_line_x(column as int, width, columns));
        }
        let ghost line = column_points(x, height);
        let ghost before = vertical_lines(column as int, width, height, columns);
        let mut y: usize = 0;
        while y < height
            invariant
                y <= height,
                line == column_points(x, height),
                pixels@ == blend_points(start, width, before + line.take(y as int), color),
            decreases height - y,
        {
            blend_overlay_pixel(pixels, width, x, y, color);
            proof {
                assert(line[y as int] == (x, y));
                assert(before + line.take(y + 1) =~= (before + line.take(y as int)).push((x, y)));
                lemma_blend_points_push(start, width, before + line.take(y as int), (x, y), color);
            }
            y += 1;
        }
        proof {
            assert(line.take(height as int) =~= line);
        }
        column += 1;
    }
    let ghost verticals = vertical_lines(columns as int + 1, width, height, columns);
    let mut row: u16 = 0;
    proof {
        assert(verticals + horizontal_lines(0, width, height, rows) =~= verticals);
    }
    while row <= rows
        invariant
            rows == grid.spec_rows(),
            1 <= rows <= 64,
            row <= rows + 1,
            width > 0,
            height > 0,
            verticals == vertical_lines(grid.spec_columns() + 1, width, height, grid.spec_columns()),
            pixels@ == blend_points(
                start,
                width,
                verticals + horizontal_lines(row as int, width, height, rows),
                color,
            ),
        decreases rows + 1 - row,
    {
        proof {
            vstd::arithmetic::mul::lemma_mul_upper_bound(row as int, 65, height as int, usize::MAX as int);
        }
        let raw = (row as u128 * height as u128 / rows as u128);
        let y: usize = if raw < (height - 1) as u128 {
            raw as usize
        } else {
            height - 1
        };
        let ghost line = row_points(y, width);
        let ghost before = verticals + horizontal_lines(row as int, width, height, rows);
        let mut x: usize = 0;
        while x < width
            invariant
                x <= width,
                line == row_points(y, width),
                pixels@ == blend_points(start, width, before + line.take(x as int), color),
            decreases width - x,
        {
            blend_overlay_pixel(pixels, width, x, y, color);
            proof {
                assert(line[x as int] == (x, y));
                assert(before + line.take(x + 1) =~= (before + line.take(x as int)).push((x, y)));
                lemma_blend_points_push(start, width, before + line.take(x as int), (x, y), color);
            }
            x += 1;
        }
        proof {
            assert(line.take(width as int) =~= line);
            assert(y == grid_line_y(row as int, height, rows));
            assert(before + line =~= verticals + horizontal_lines(row + 1, width, height, rows));
        }
        row += 1;
    }
}

/// The part of `rect` that lies on a `width` x `height` buffer showing `monitor`, as
/// buffer coordinates `(left, top, right, bottom)` with exclusive right and bottom edges.
pub open spec fn selection_bounds(width: usize, height: usize, monitor: ScreenRect, rect: ScreenRect) -> (
    int,
    int,
    int,
    int,
) {
    let dx = rect.x - monitor.x;
    let dy = rect.y - monitor.y;
    let w = if rect.width <= i32::MAX {
        rect.width as int
    } else {
        i32::MAX as int
    };
    let h = if rect.height <= i32::MAX {
        rect.height as int
    } else {
        i32::MAX as int
    };
    let max_x = if width <= i32::MAX {
        width as int
    } else {
        i32::MAX as int
    };
    let max_y = if height <= i32::MAX {
        height as int
    } else {
        i32::MAX as int
    };
    (
        if dx > 0 {
            dx
        } else {
            0
        },
        if dy > 0 {
            dy
        } else {
            0
        },
        crate::grid::clamp_int(dx + w, 0, max_x),
        crate::grid::clamp_int(dy + h, 0, max_y),
    )
}

/// The points of the rows `top..bottom` of the span `left..right`, row by row.
pub open spec fn fill_points(left: int, right: int, top: int, bottom: int) -> Seq<(usize, usize)>
    decreases bottom - top,
{
    if bottom <= top {
        Seq::empty()
    } else {
        fill_points(left, right, top, bottom - 1) + Seq::new(
            (right - left) as nat,
            |i: int| ((left + i) as usize, (bottom - 1) as usize),
        )
    }
}

/// One ring of the border, `offset` pixels in: along each column the top then the bottom
/// point, then along each row the left then the right point.
pub open spec fn border_ring(left: int, right: int, top: int, bottom: int, offset: int) -> Seq<
    (usize, usize),
> {
    Seq::new(
        (2 * (right - left)) as nat,
        |i: int|
            if i % 2 == 0 {
                ((left + i / 2) as usize, (top + offset) as usize)
            } else {
                ((left + i / 2) as usize, (bottom - 1 - offset) as usize)
            },
    ) + Seq::new(
        (2 * (bottom - top)) as nat,
        |i: int|
            if i % 2 == 0 {
                ((left + offset) as usize, (top + i / 2) as usize)
            } else {
                ((right - 1 - offset) as usize, (top + i / 2) as usize)
            },
    )
}

pub open spec fn border_rings(left: int, right: int, top: int, bottom: int, n: int) -> Seq<(usize, usize)>
    decreases n,
{
    if n <= 0 {
        Seq::empty()
    } else {
        border_rings(left, right, top, bottom, n - 1) + border_ring(left, right, top, bottom, n - 1)
    }
}

pub open spec fn min3(a: int, b: int, c: int) -> int {
    let m = if a < b {
        a
    } else {
        b
    };
    if m < c {
        m
    } else {
        c
    }
}

/// Fills the visible part of the selection `rect` and draws its border, on a buffer that
/// shows `monitor`.
#[verifier::spinoff_prover]
#[verifier::rlimit(40)]
pub fn draw_overlay_selection(
    pixels: &mut [u32],
    width: usize,
    height: usize,
    monitor: ScreenRect,
    rect: ScreenRect,
    fill_color: RgbaColor,
    border_color: RgbaColor,
)
    requires
        crate::grid::fits_i32(rect.x - monitor.x),
        crate::grid::fits_i32(rect.y - monitor.y),
        crate::grid::fits_i32(rect.x - monitor.x + (if rect.width <= i32::MAX {
            rect.width as int
        } else {
            i32::MAX as int
        })),
        crate::grid::fits_i32(rect.y - monitor.y + (if rect.height <= i32::MAX {
            rect.height as int
        } else {
            i32::MAX as int
        })),
    ensures
        ({
            let (l, t, r, b) = selection_bounds(width, height, monitor, rect);
            final(pixels)@ == if l >= r || t >= b {
                old(pixels)@
            } else {
                blend_points(
                    blend_points(old(pixels)@, width, fill_points(l, r, t, b), fill_color),
                    width,
                    border_rings(l, r, t, b, min3(3, r - l, b - t)),
                    border_color,
                )
            }
        }),
{
    let dx = rect.x - monitor.x;
    let dy = rect.y - monitor.y;
    let w: i32 = if rect.width <= i32::MAX as u32 {
        rect.width as i32
    } else {
        i32::MAX
    };
    let h: i32 = if rect.height <= i32::MAX as u32 {
        rect.height as i32
    } else {
        i32::MAX
    };
    let max_x: i32 = if width <= i32::MAX as usize {
        width as i32
    } else {
        i32::MAX
    };
    let max_y: i32 = if height <= i32::MAX as usize {
        height as i32
    } else {
        i32::MAX
    };
    let left_i = if dx > 0 {
        dx
    } else {
        0
    };
    let top_i = if dy > 0 {
        dy
    } else {
        0
    };
    let right_raw = dx + w;
    let bottom_raw = dy + h;
    let right_i = if right_raw < 0 {
        0
    } else if right_raw > max_x {
        max_x
    } else {
        right_raw
    };
    let bottom_i = if bottom_raw < 0 {
        0
    } else if bottom_raw > max_y {
        max_y
    } else {
        bottom_raw
    };
    let ghost bounds = selection_bounds(width, height, monitor, rect);
    proof {
        assert(bounds == (left_i as int, top_i as int, right_i as int, bottom_i as int));
    }
    if left_i >= right_i || top_i >= bottom_i {
        return;
    }
    let left = left_i as usize;
    let top = top_i as usize;
    let right = right_i as usize;
    let bottom = bottom_i as usize;
    let ghost start = old(pixels)@;

    let mut y = top;
    proof {
        assert(fill_points(left as int, right as int, top as int, top as int) =~= Seq::<(usize, usize)>::empty());
    }
    while y < bottom
        invariant
            top <= y <= bottom,
            left < right,
            pixels@ == blend_points(
                start,
                width,
                fill_points(left as int, right as int, top as int, y as int),
                fill_color,
            ),
        decreases bottom - y,
    {
        let ghost before = fill_points(left as int, right as int, top as int, y as int);
        let ghost line = Seq::new(
            (right - left) as nat,
            |i: int| ((left + i) as usize, y),
        );
        let mut x = left;
        proof {
            assert(before + line.take(0) =~= before);
        }
        while x < right
            invariant
                left <= x <= right,
                line == Seq::new((right - left) as nat, |i: int| ((left + i) as usize, y)),
                pixels@ == blend_points(start, width, before + line.take(x - left), fill_color),
            decreases right - x,
        {
            blend_overlay_pixel(pixels, width, x, y, fill_color);
            proof {
                assert(line[x - left] == (x, y));
                assert(before + line.take(x + 1 - left) =~= (before + line.take(x - left)).push((x, y)));
                lemma_blend_points_push(start, width, before + line.take(x - left), (x, y), fill_color);
            }
            x += 1;
        }
        proof {
            assert(line.take(right - left) =~= line);
            assert(fill_points(left as int, right as int, top as int, y + 1) =~= before + line);
        }
        y += 1;
    }

    let ghost filled = pixels@;
    let span_w = right - left;
    let span_h = bottom - top;
    let thickness = if span_w < 3 {
        if span_w < span_h {
            span_w
        } else {
            span_h
        }
    } else if 3 < span_h {
        3
    } else {
        span_h
    };
    proof {
        assert(thickness == min3(3, right - left, bottom - top));
    }
    let mut offset: usize = 0;
    proof {
        assert(border_rings(left as int, right as int, top as int, bottom as int, 0) =~= Seq::<(usize, usize)>::empty());
    }
    while offset < thickness
        invariant
            offset <= thickness,
            thickness <= right - left,
            thickness <= bottom - top,
            left < right,
            top < bottom,
            pixels@ == blend_points(
                filled,
                width,
                border_rings(left as int, right as int, top as int, bottom as int, offset as int),
                border_color,
            ),
        decreases thickness - offset,
    {
        let ghost ring = border_ring(left as int, right as int, top as int, bottom as int, offset as int);
        let ghost before = border_rings(left as int, right as int, top as int, bottom as int, offset as int);
        let top_y = top + offset;
        let bottom_y = bottom - 1 - offset;
        let mut x = left;
        proof {
            assert(before + ring.take(0) =~= before);
        }
        while x < right
            invariant
                left <= x <= right,
                top_y == top + offset,
                bottom_y == bottom - 1 - offset,
                ring == border_ring(left as int, right as int, top as int, bottom as int, offset as int),
                pixels@ == blend_points(filled, width, before + ring.take(2 * (x - left)), border_color),
            decreases right - x,
        {
            blend_overlay_pixel(pixels, width, x, top_y, border_color);
            proof {
                let k = 2 * (x - left);
                assert(ring[k] == (x, top_y));
                assert(before + ring.take(k + 1) =~= (before + ring.take(k)).push((x, top_y)));
                lemma_blend_points_push(filled, width, before + ring.take(k), (x, top_y), border_color);
            }
            blend_overlay_pixel(pixels, width, x, bottom_y, border_color);
            proof {
                let k = 2 * (x - left) + 1;
                assert(ring[k] == (x, bottom_y));
                assert(before + ring.take(k + 1) =~= (before + ring.take(k)).push((x, bottom_y)));
                lemma_blend_points_push(filled, width, before + ring.take(k), (x, bottom_y), border_color);
            }
            x += 1;
        }
        let left_x = left + offset;
        let right_x = right - 1 - offset;
        let mut yy = top;
        while yy < bottom
            invariant
                top <= yy <= bottom,
                left < right,
                left_x == left + offset,
                right_x == right - 1 - offset,
                ring == border_ring(left as int, right as int, top as int, bottom as int, offset as int),
                pixels@ == blend_points(
                    filled,
                    width,
                    before + ring.take(2 * (right - left) + 2 * (yy - top)),
                    border_color,
                ),
            decreases bottom - yy,
        {
            blend_overlay_pixel(pixels, width, left_x, yy, border_color);
            proof {
                let k = 2 * (right - left) + 2 * (yy - top);
                assert(ring[k] == (left_x, yy));
                assert(before + ring.take(k + 1) =~= (before + ring.take(k)).push((left_x, yy)));
                lemma_blend_points_push(filled, width, before + ring.take(k), (left_x, yy), border_color);
            }
            blend_overlay_pixel(pixels, width, right_x, yy, border_color);
            proof {
                let k = 2 * (right - left) + 2 * (yy - top) + 1;
                assert(ring[k] == (right_x, yy));
                assert(before + ring.take(k + 1) =~= (before + ring.take(k)).push((right_x, yy)));
                lemma_blend_points_push(filled, width, before + ring.take(k), (right_x, yy), border_color);
            }
            yy += 1;
        }
        proof {
            assert(ring.take(ring.len() as int) =~= ring);
            assert(ring.len() == 2 * (right - left) + 2 * (bottom - top));
        }
        offset += 1;
    }
}

/// A fully opaque color replaces the pixel it is drawn over.
pub proof fn lemma_opaque_blend_replaces(destination: u32, color: RgbaColor)
    requires
        color.alpha == 255,
    ensures
        spec_blend(destination, color) == pack(
            color.blue as int,
            color.green as int,
            color.red as int,
            255,
        ),
{
    assert(channel(destination, 3) * (255 - 255) / 255 == 0);
    assert(blend_channel(color.blue as int, 255, channel(destination, 0)) == color.blue as int);
    assert(blend_channel(color.green as int, 255, channel(destination, 1)) == color.green as int);
    assert(blend_channel(color.red as int, 255, channel(destination, 2)) == color.red as int);
}

/// The pixels after the selection `rect` was drawn, as `draw_overlay_selection` draws it.
pub open spec fn spec_draw_selection(
    pixels: Seq<u32>,
    width: usize,
    height: usize,
    monitor: ScreenRect,
    rect: ScreenRect,
    fill_color: RgbaColor,
    border_color: RgbaColor,
) -> Seq<u32> {
    let (l, t, r, b) = selection_bounds(width, height, monitor, rect);
    if l >= r || t >= b {
        pixels
    } else {
        blend_points(
            blend_points(pixels, width, fill_points(l, r, t, b), fill_color),
            width,
            border_rings(l, r, t, b, min3(3, r - l, b - t)),
            border_color,
        )
    }
}

/// Whether `draw_overlay_selection` can compute the edges of `rect` on `monitor`.
pub open spec fn selection_fits(monitor: ScreenRect, rect: ScreenRect) -> bool {
    &&& fits_i32(rect.x - monitor.x)
    &&& fits_i32(rect.y - monitor.y)
    &&& fits_i32(rect.x - monitor.x + (if rect.width <= i32::MAX {
        rect.width as int
    } else {
        i32::MAX as int
    }))
    &&& fits_i32(rect.y - monitor.y + (if rect.height <= i32::MAX {
        rect.height as int
    } else {
        i32::MAX as int
    }))
}

/// The selection rectangle the overlay shows: that of the current selection, while dragging.
pub open spec fn overlay_selection_rect(state: &AppState) -> Option<ScreenRect> {
    if state.dragging {
        match state.selection {
            Some(sel) => spec_area_rect(spec_area(sel), state.grid, state.monitor_rect),
            None => None,
        }
    } else {
        None
    }
}

/// The overlay image for the current state, one premultiplied BGRA pixel per pixel of the
/// monitor's work area, row by row: the grid lines, and while dragging the selection's
/// fill and border over them. There is no image for an empty area or one whose pixel
/// count does not fit in `usize`.
pub open spec fn spec_overlay_pixels(state: &AppState) -> Option<Seq<u32>> {
    let monitor = state.monitor_rect;
    let width = monitor.width as usize;
    let height = monitor.height as usize;
    if monitor.width == 0 || monitor.height == 0 || width * height > usize::MAX {
        None
    } else {
        let blank = Seq::new((width * height) as nat, |i: int| 0u32);
        let grid = blend_points(
            blank,
            width,
            grid_points(width, height, state.grid),
            spec_rgba_of_text(spec_normalize(Some(state.settings.grid_color@), DEFAULT_GRID_COLOR@)),
        );
        Some(
            match overlay_selection_rect(state) {
                Some(rect) => spec_draw_selection(
                    grid,
                    width,
                    height,
                    monitor,
                    rect,
                    spec_rgba_of_text(
                        spec_normalize(Some(state.settings.selection_color@), DEFAULT_SELECTION_COLOR@),
                    ),
                    spec_rgba_of_text(
                        spec_normalize(
                            Some(state.settings.selection_border_color@),
                            DEFAULT_SELECTION_BORDER_COLOR@,
                        ),
                    ),
                ),
                None => grid,
            },
        )
    }
}

/// Whether the overlay can be rendered for the current state: the selection it would show,
/// if any, has edges that `draw_overlay_selection` can compute.
pub fn overlay_renderable(state: &AppState) -> (b: bool)
    ensures
        b == (overlay_selection_rect(state) matches Some(rect) ==> selection_fits(
            state.monitor_rect,
            rect,
        )),
{
    if !state.dragging {
        return true;
    }
    let selection = match state.selection {
        Some(s) => s,
        None => return true,
    };
    let rect = match selection.screen_rect(state.grid, state.monitor_rect) {
        Some(r) => r,
        None => return true,
    };
    let monitor = state.monitor_rect;
    let dx = rect.x as i64 - monitor.x as i64;
    let dy = rect.y as i64 - monitor.y as i64;
    let w: i64 = if rect.width <= 2147483647 {
        rect.width as i64
    } else {
        2147483647
    };
    let h: i64 = if rect.height <= 2147483647 {
        rect.height as i64
    } else {
        2147483647
    };
    let lo: i64 = -2147483648;
    let hi: i64 = 2147483647;
    lo <= dx && dx <= hi && lo <= dy && dy <= hi && lo <= dx + w && dx + w <= hi && lo <= dy + h
        && dy + h <= hi
}

/// Renders the overlay image for the current state.
pub fn render_overlay_pixels(state: &AppState) -> (r: Option<Vec<u32>>)
    requires
        overlay_selection_rect(state) matches Some(rect) ==> selection_fits(state.monitor_rect, rect),
    ensures
        match (r, spec_overlay_pixels(state)) {
            (Some(p), Some(q)) => p@ == q,
            (None, None) => true,
            _ => false,
        },
{
    let monitor = state.monitor_rect;
    if monitor.is_empty() {
        return None;
    }
    let width = monitor.width as usize;
    let height = monitor.height as usize;
    let count = match width.checked_mul(height) {
        Some(c) => c,
        None => return None,
    };
    let mut pixels: Vec<u32> = Vec::new();
    let mut i: usize = 0;
    while i < count
        invariant
            i <= count,
            pixels@ == Seq::new(i as nat, |k: int| 0u32),
        decreases count - i,
    {
        pixels.push(0);
        i += 1;
        proof {
            assert(pixels@ =~= Seq::new(i as nat, |k: int| 0u32));
        }
    }
    proof {
        lemma_defaults_are_text();
    }
    draw_overlay_grid(
        pixels.as_mut_slice(),
        width,
        height,
        state.grid,
        rgba_from_hex(state.settings.grid_color.as_str(), DEFAULT_GRID_COLOR),
    );
    if state.dragging {
        if let Some(selection) = state.selection {
            if let Some(rect) = selection.screen_rect(state.grid, monitor) {
                draw_overlay_selection(
                    pixels.as_mut_slice(),
                    width,
                    height,
                    monitor,
                    rect,
                    rgba_from_hex(state.settings.selection_color.as_str(), DEFAULT_SELECTION_COLOR),
                    rgba_from_hex(
                        state.settings.selection_border_color.as_str(),
                        DEFAULT_SELECTION_BORDER_COLOR,
                    ),
                );
            }
        }
    }
    Some(pixels)
}

/// Drawing at points none of which lands on pixel `i` leaves that pixel as it was.
proof fn lemma_blend_points_untouched(
    pixels: Seq<u32>,
    width: usize,
    points: Seq<(usize, usize)>,
    color: RgbaColor,
    i: int,
)
    requires
        0 <= i < pixels.len(),
        forall|k: int|
            0 <= k < points.len() ==> saturating_index(width, #[trigger] points[k].0, points[k].1)
                != i,
    ensures
        blend_points(pixels, width, points, color)[i] == pixels[i],
    decreases points.len(),
{
    if points.len() > 0 {
        let next = spec_blend_at(pixels, width, points[0].0, points[0].1, color);
        assert(saturating_index(width, points[0].0, points[0].1) != i);
        assert(next[i] == pixels[i]);
        assert forall|k: int| 0 <= k < points.drop_first().len() implies saturating_index(
            width,
            #[trigger] points.drop_first()[k].0,
            points.drop_first()[k].1,
        ) != i by {
            assert(points.drop_first()[k] == points[k + 1]);
        }
        lemma_blend_points_untouched(next, width, points.drop_first(), color, i);
    }
}

/// Drawing an opaque color at points one of which lands on pixel `i` leaves that pixel
/// in exactly the color.
proof fn lemma_blend_points_opaque(
    pixels: Seq<u32>,
    width: usize,
    points: Seq<(usize, usize)>,
    color: RgbaColor,
    i: int,
    k: int,
)
    requires
        color.alpha == 255,
        0 <= i < pixels.len(),
        0 <= k < points.len(),
        saturating_index(width, points[k].0, points[k].1) == i,
    ensures
        blend_points(pixels, width, points, color)[i] == pack(
            color.blue as int,
            color.green as int,
            color.red as int,
            255,
        ),
    decreases points.len(),
{
    let next = spec_blend_at(pixels, width, points[0].0, points[0].1, color);
    let rest = points.drop_first();
    if exists|j: int| 0 <= j < rest.len() && saturating_index(width, #[trigger] rest[j].0, rest[j].1) == i {
        let j = choose|j: int| 0 <= j < rest.len() && saturating_index(width, #[trigger] rest[j].0, rest[j].1) == i;
        lemma_blend_points_opaque(next, width, rest, color, i, j);
    } else {
        assert(k == 0) by {
            if k > 0 {
                assert(rest[k - 1] == points[k]);
            }
        }
        lemma_opaque_blend_replaces(pixels[i], color);
        assert(next[i] == spec_blend(pixels[i], color));
        lemma_blend_points_untouched(next, width, rest, color, i);
    }
}

/// The vertical lines before columns `0..n` hold, at position `k`, pixel `k % height` of
/// the line before column `k / height`.
proof fn lemma_vertical_lines_at(n: int, width: usize, height: usize, columns: u16)
    requires
        n >= 0,
        height > 0,
    ensures
        vertical_lines(n, width, height, columns).len() == n * height,
        forall|k: int|
            0 <= k < n * height ==> #[trigger] vertical_lines(n, width, height, columns)[k] == (
                grid_line_x(k / height as int, width, columns),
                (k % height as int) as usize,
            ),
    decreases n,
{
    let h = height as int;
    if n > 0 {
        lemma_vertical_lines_at(n - 1, width, height, columns);
        let prev = vertical_lines(n - 1, width, height, columns);
        let line = column_points(grid_line_x(n - 1, width, columns), height);
        assert(vertical_lines(n, width, height, columns) == prev + line);
        assert((n - 1) * h + h == n * h) by (nonlinear_arith);
        assert forall|k: int| 0 <= k < n * h implies #[trigger] vertical_lines(
            n,
            width,
            height,
            columns,
        )[k] == (grid_line_x(k / h, width, columns), (k % h) as usize) by {
            if k >= (n - 1) * h {
                vstd::arithmetic::div_mod::lemma_fundamental_div_mod_converse(
                    k,
                    h,
                    n - 1,
                    k - (n - 1) * h,
                );
                assert((prev + line)[k] == line[k - (n - 1) * h]);
            } else {
                assert((prev + line)[k] == prev[k]);
            }
        }
    } else {
        assert(n * h == 0) by (nonlinear_arith)
            requires
                n == 0,
        ;
    }
}

/// The horizontal lines before rows `0..n` hold, at position `k`, pixel `k % width` of the
/// line before row `k / width`.
proof fn lemma_horizontal_lines_at(n: int, width: usize, height: usize, rows: u16)
    requires
        n >= 0,
        width > 0,
    ensures
        horizontal_lines(n, width, height, rows).len() == n * width,
        forall|k: int|
            0 <= k < n * width ==> #[trigger] horizontal_lines(n, width, height, rows)[k] == (
                (k % width as int) as usize,
                grid_line_y(k / width as int, height, rows),
            ),
    decreases n,
{
    let w = width as int;
    if n > 0 {
        lemma_horizontal_lines_at(n - 1, width, height, rows);
        let prev = horizontal_lines(n - 1, width, height, rows);
        let line = row_points(grid_line_y(n - 1, height, rows), width);
        assert(horizontal_lines(n, width, height, rows) == prev + line);
        assert((n - 1) * w + w == n * w) by (nonlinear_arith);
        assert forall|k: int| 0 <= k < n * w implies #[trigger] horizontal_lines(
            n,
            width,
            height,
            rows,
        )[k] == ((k % w) as usize, grid_line_y(k / w, height, rows)) by {
            if k >= (n - 1) * w {
                vstd::arithmetic::div_mod::lemma_fundamental_div_mod_converse(
                    k,
                    w,
                    n - 1,
                    k - (n - 1) * w,
                );
                assert((prev + line)[k] == line[k - (n - 1) * w]);
            } else {
                assert((prev + line)[k] == prev[k]);
            }
        }
    } else {
        assert(n * w == 0) by (nonlinear_arith)
            requires
                n == 0,
        ;
    }
}

/// Where the line before column (or row) `c` of a grid of `count` columns (rows) falls on a
/// buffer `size` pixels wide (high): at `c * size / count`, or on the last pixel when that
/// lies past it.
pub open spec fn line_position(c: int, size: int, count: int) -> int {
    if c * size / count < size - 1 {
        c * size / count
    } else {
        size - 1
    }
}

/// One of the grid's lines, the outer edges included, falls on pixel `pos`.
pub open spec fn on_grid_line(pos: int, size: int, count: int) -> bool {
    exists|c: int| 0 <= c <= count && pos == #[trigger] line_position(c, size, count)
}

/// Pixel `i` of a `width` x `height` buffer, row by row, lies on a vertical line of the
/// grid (at a column boundary) or on a horizontal one (at a row boundary).
pub open spec fn grid_pixel(i: int, width: int, height: int, grid: GridSpec) -> bool {
    &&& 0 <= i < width * height
    &&& (on_grid_line(i % width, width, grid.spec_columns() as int) || on_grid_line(
        i / width,
        height,
        grid.spec_rows() as int,
    ))
}

proof fn lemma_line_positions(c: int, width: usize, height: usize, columns: u16, rows: u16)
    requires
        0 <= c,
        width > 0,
        height > 0,
        columns > 0,
        rows > 0,
    ensures
        grid_line_x(c, width, columns) as int == line_position(c, width as int, columns as int),
        grid_line_y(c, height, rows) as int == line_position(c, height as int, rows as int),
        0 <= line_position(c, width as int, columns as int) < width,
        0 <= line_position(c, height as int, rows as int) < height,
{
    vstd::arithmetic::mul::lemma_mul_nonnegative(c, width as int);
    vstd::arithmetic::mul::lemma_mul_nonnegative(c, height as int);
    vstd::arithmetic::div_mod::lemma_div_pos_is_pos(c * width, columns as int);
    vstd::arithmetic::div_mod::lemma_div_pos_is_pos(c * height, rows as int);
}

/// A point of the grid's lines that lands on pixel `i` puts `i` on a grid line.
proof fn lemma_hit_is_grid_pixel(width: usize, height: usize, grid: GridSpec, k: int, i: int)
    requires
        width > 0,
        height > 0,
        valid_dimension(grid.spec_columns() as int),
        valid_dimension(grid.spec_rows() as int),
        0 <= k < grid_points(width, height, grid).len(),
        0 <= i < usize::MAX,
        saturating_index(
            width,
            grid_points(width, height, grid)[k].0,
            grid_points(width, height, grid)[k].1,
        ) == i,
    ensures
        grid_pixel(i, width as int, height as int, grid),
{
    let w = width as int;
    let h = height as int;
    let cols = grid.spec_columns();
    let rows = grid.spec_rows();
    let v = vertical_lines(cols + 1, width, height, cols);
    let hz = horizontal_lines(rows + 1, width, height, rows);
    lemma_vertical_lines_at(cols + 1, width, height, cols);
    lemma_horizontal_lines_at(rows + 1, width, height, rows);
    let p = grid_points(width, height, grid)[k];
    let x = p.0 as int;
    let y = p.1 as int;
    if k < v.len() {
        assert(p == v[k]);
        let q = k / h;
        let r = k % h;
        vstd::arithmetic::div_mod::lemma_fundamental_div_mod(k, h);
        vstd::arithmetic::div_mod::lemma_mod_pos_bound(k, h);
        vstd::arithmetic::div_mod::lemma_div_pos_is_pos(k, h);
        assert(q <= cols) by (nonlinear_arith)
            requires
                k < (cols + 1) * h,
                k == h * q + r,
                0 <= r,
                h > 0,
        ;
        lemma_line_positions(q, width, height, cols, rows);
        assert(y == r);
        assert(x == line_position(q, w, cols as int));
        assert(on_grid_line(x, w, cols as int));
    } else {
        let k2 = k - v.len();
        assert(p == hz[k2]);
        let q = k2 / w;
        let r = k2 % w;
        vstd::arithmetic::div_mod::lemma_fundamental_div_mod(k2, w);
        vstd::arithmetic::div_mod::lemma_mod_pos_bound(k2, w);
        vstd::arithmetic::div_mod::lemma_div_pos_is_pos(k2, w);
        assert(q <= rows) by (nonlinear_arith)
            requires
                k2 < (rows + 1) * w,
                k2 == w * q + r,
                0 <= r,
                w > 0,
        ;
        lemma_line_positions(q, width, height, cols, rows);
        assert(x == r);
        assert(y == line_position(q, h, rows as int));
        assert(on_grid_line(y, h, rows as int));
    }
    // the pixel index is y * w + x, with no saturation
    assert(0 <= x < w && 0 <= y < h);
    assert(y * w <= usize::MAX) by {
        if y * w > usize::MAX {
            assert(saturating_index(width, p.0, p.1) == usize::MAX);
        }
    }
    assert(i == y * w + x);
    vstd::arithmetic::div_mod::lemma_fundamental_div_mod_converse(i, w, y, x);
    assert(i < w * h) by (nonlinear_arith)
        requires
            i == y * w + x,
            x < w,
            0 <= y < h,
            w > 0,
    ;
}

/// A pixel on a grid line is where some point of the grid's lines lands.
proof fn lemma_grid_pixel_hit(width: usize, height: usize, grid: GridSpec, i: int) -> (k: int)
    requires
        width > 0,
        height > 0,
        valid_dimension(grid.spec_columns() as int),
        valid_dimension(grid.spec_rows() as int),
        grid_pixel(i, width as int, height as int, grid),
        i < usize::MAX,
    ensures
        0 <= k < grid_points(width, height, grid).len(),
        saturating_index(
            width,
            grid_points(width, height, grid)[k].0,
            grid_points(width, height, grid)[k].1,
        ) == i,
{
    let w = width as int;
    let h = height as int;
    let cols = grid.spec_columns();
    let rows = grid.spec_rows();
    let v = vertical_lines(cols + 1, width, height, cols);
    let hz = horizontal_lines(rows + 1, width, height, rows);
    lemma_vertical_lines_at(cols + 1, width, height, cols);
    lemma_horizontal_lines_at(rows + 1, width, height, rows);
    let gp = grid_points(width, height, grid);
    let x = i % w;
    let y = i / w;
    vstd::arithmetic::div_mod::lemma_fundamental_div_mod(i, w);
    vstd::arithmetic::div_mod::lemma_mod_pos_bound(i, w);
    vstd::arithmetic::div_mod::lemma_div_pos_is_pos(i, w);
    assert(y < h) by (nonlinear_arith)
        requires
            i < w * h,
            i == w * y + x,
            0 <= x,
            w > 0,
    ;
    assert(y * w <= i) by (nonlinear_arith)
        requires
            i == w * y + x,
            0 <= x,
    ;
    if on_grid_line(x, w, cols as int) {
        let c = choose|c: int| 0 <= c <= cols && x == #[trigger] line_position(c, w, cols as int);
        let k = c * h + y;
        assert(k < (cols + 1) * h) by (nonlinear_arith)
            requires
                k == c * h + y,
                0 <= c <= cols,
                0 <= y < h,
                h > 0,
        ;
        assert(0 <= k) by (nonlinear_arith)
            requires
                k == c * h + y,
                0 <= c,
                0 <= y,
                h > 0,
        ;
        vstd::arithmetic::div_mod::lemma_fundamental_div_mod_converse(k, h, c, y);
        lemma_line_positions(c, width, height, cols, rows);
        assert(gp[k] == v[k]);
        assert(gp[k].0 as int == x && gp[k].1 as int == y);
        k
    } else {
        let r = choose|r: int| 0 <= r <= rows && y == #[trigger] line_position(r, h, rows as int);
        let k2 = r * w + x;
        assert(k2 < (rows + 1) * w) by (nonlinear_arith)
            requires
                k2 == r * w + x,
                0 <= r <= rows,
                0 <= x < w,
                w > 0,
        ;
        assert(0 <= k2) by (nonlinear_arith)
            requires
                k2 == r * w + x,
                0 <= r,
                0 <= x,
                w > 0,
        ;
        vstd::arithmetic::div_mod::lemma_fundamental_div_mod_converse(k2, w, r, x);
        lemma_line_positions(r, width, height, cols, rows);
        let k = v.len() + k2;
        assert(gp[k] == hz[k2]);
        assert(gp[k].0 as int == x && gp[k].1 as int == y);
        k
    }
}

/// Drawing the grid changes exactly the pixels on its lines: a pixel at a column boundary
/// (`c * width / columns` for `c` in `0..=columns`, the last pixel column where that lies
/// past the buffer) or at a row boundary (likewise with the rows) is drawn over, and, for an
/// opaque color, shows exactly that color; every other pixel is left as it was.
pub proof fn lemma_grid_drawing(
    pixels: Seq<u32>,
    width: usize,
    height: usize,
    grid: GridSpec,
    color: RgbaColor,
)
    requires
        width > 0,
        height > 0,
        pixels.len() <= usize::MAX,
        valid_dimension(grid.spec_columns() as int),
        valid_dimension(grid.spec_rows() as int),
    ensures
        ({
            let out = blend_points(pixels, width, grid_points(width, height, grid), color);
            &&& out.len() == pixels.len()
            &&& forall|i: int|
                0 <= i < pixels.len() && !grid_pixel(i, width as int, height as int, grid)
                    ==> #[trigger] out[i] == pixels[i]
            &&& color.alpha == 255 ==> forall|i: int|
                0 <= i < pixels.len() && grid_pixel(i, width as int, height as int, grid)
                    ==> #[trigger] out[i] == pack(
                    color.blue as int,
                    color.green as int,
                    color.red as int,
                    255,
                )
        }),
{
    let gp = grid_points(width, height, grid);
    lemma_blend_points_len(pixels, width, gp, color);
    assert forall|i: int|
        0 <= i < pixels.len() && !grid_pixel(i, width as int, height as int, grid) implies #[trigger] blend_points(
        pixels,
        width,
        gp,
        color,
    )[i] == pixels[i] by {
        assert forall|k: int| 0 <= k < gp.len() implies saturating_index(
            width,
            #[trigger] gp[k].0,
            gp[k].1,
        ) != i by {
            if saturating_index(width, gp[k].0, gp[k].1) == i {
                lemma_hit_is_grid_pixel(width, height, grid, k, i);
            }
        }
        lemma_blend_points_untouched(pixels, width, gp, color, i);
    }
    if color.alpha == 255 {
        assert forall|i: int|
            0 <= i < pixels.len() && grid_pixel(i, width as int, height as int, grid) implies #[trigger] blend_points(
            pixels,
            width,
            gp,
            color,
        )[i] == pack(color.blue as int, color.green as int, color.red as int, 255) by {
            let k = lemma_grid_pixel_hit(width, height, grid, i);
            lemma_blend_points_opaque(pixels, width, gp, color, i, k);
        }
    }
}

/// An opaque pixel packs its channels as blue, green, red and alpha, lowest byte first.
proof fn lemma_pack_value(color: RgbaColor)
    ensures
        pack(color.blue as int, color.green as int, color.red as int, 255) as int == color.blue
            as int + color.green as int * 256 + color.red as int * 65536 + 255 * 16777216,
{
}

} // verus!
