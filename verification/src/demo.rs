//! The TRON demo frame drawn into a `termray::Framebuffer`: the floor-grid
//! rows, the horizon strip, the enemy placeholder box and the banner.
//!
//! Pixel `(x, y)` of a framebuffer of width `w` sits at index `y * w + x`
//! of its pixel sequence. Writes outside the framebuffer are ignored, as
//! `Framebuffer::set_pixel` ignores them.

use vstd::prelude::*;
use termray::{Color, Font8x8, Framebuffer, GlyphRenderer};
use crate::palette::{ENEMY_RED, GEOMETRY_GRAY, GRID_BLUE, UI_BLUE};

verus! {

#[verifier::external_type_specification]
#[verifier::external_body]
pub struct ExFramebuffer(Framebuffer);

/// The pixels of a `Framebuffer`, row by row, each as `(r, g, b)`.
pub uninterp spec fn fb_pixels(fb: Framebuffer) -> Seq<(u8, u8, u8)>;

/// The `(width, height)` a `Framebuffer` was made with.
pub uninterp spec fn fb_size(fb: Framebuffer) -> (nat, nat);

/// The colour of pixel `(x, y)` of `fb`.
pub open spec fn pixel_at(fb: Framebuffer, x: nat, y: nat) -> (u8, u8, u8) {
    fb_pixels(fb)[(y * fb_size(fb).0 + x) as int]
}

/// A framebuffer whose pixel count `width * height` fits in a `usize`:
/// every framebuffer that `Framebuffer::new` can make without its size
/// computation overflowing.
pub open spec fn fb_fits(fb: Framebuffer) -> bool {
    fb_size(fb).0 * fb_size(fb).1 <= usize::MAX
}

/// A framebuffer whose pixel sequence has one entry per pixel.
pub open spec fn fb_wf(fb: Framebuffer) -> bool {
    fb_pixels(fb).len() == fb_size(fb).0 * fb_size(fb).1
}

/// Calls `termray::Framebuffer::width`. Trusted: as its source shows, it
/// returns the width the framebuffer was made with.
#[verifier::external_body]
fn fb_width(fb: &Framebuffer) -> (w: usize)
    ensures
        w == fb_size(*fb).0,
{
    fb.width()
}

/// Calls `termray::Framebuffer::height`. Trusted: as its source shows, it
/// returns the height the framebuffer was made with, and, where
/// `width * height` fits in a `usize`, the framebuffer holds one pixel per
/// cell of its `width x height` grid (its constructor allocates that many
/// and no method changes the count). Where the product overflows, nothing
/// is stated of the count.
#[verifier::external_body]
fn fb_height(fb: &Framebuffer) -> (h: usize)
    ensures
        h == fb_size(*fb).1,
        fb_size(*fb).0 * h <= usize::MAX ==> fb_pixels(*fb).len() == fb_size(*fb).0 * h,
{
    fb.height()
}

/// Calls `termray::Framebuffer::set_pixel` with the colour `(r, g, b)` on a
/// framebuffer that holds one pixel per cell. Trusted: as its source shows,
/// the size is kept, and pixel `(x, y)` becomes `color` when it lies inside
/// the framebuffer; otherwise nothing changes.
#[verifier::external_body]
fn set_pixel(fb: &mut Framebuffer, x: usize, y: usize, color: (u8, u8, u8))
    requires
        fb_wf(*old(fb)),
    ensures
        fb_size(*final(fb)) == fb_size(*old(fb)),
        fb_pixels(*final(fb)) == if x < fb_size(*old(fb)).0 && y < fb_size(*old(fb)).1 {
            fb_pixels(*old(fb)).update((y * fb_size(*old(fb)).0 + x) as int, color)
        } else {
            fb_pixels(*old(fb))
        },
{
    fb.set_pixel(x, y, Color::rgb(color.0, color.1, color.2))
}

/// Calls `termray::Framebuffer::new` with a size whose pixel count fits in
/// a `usize`. Trusted: as its source shows, the framebuffer has the given
/// size and every pixel is `Color::default()`, that is `(0, 0, 0)`.
#[verifier::external_body]
fn fb_new(width: usize, height: usize) -> (fb: Framebuffer)
    requires
        width * height <= usize::MAX,
    ensures
        fb_size(fb) == (width as nat, height as nat),
        fb_pixels(fb) == Seq::new((width * height) as nat, |i: int| (0u8, 0u8, 0u8)),
{
    Framebuffer::new(width, height)
}

/// A black framebuffer of `width x height` pixels, or `None` when its pixel
/// count does not fit in a `usize`.
pub fn new_framebuffer(width: usize, height: usize) -> (fb: Option<Framebuffer>)
    ensures
        fb is Some <==> width * height <= usize::MAX,
        fb matches Some(f) ==> {
            &&& fb_size(f) == (width as nat, height as nat)
            &&& fb_fits(f)
            &&& fb_wf(f)
            &&& forall|x: nat, y: nat|
                x < width && y < height ==> #[trigger] pixel_at(f, x, y) == (0u8, 0u8, 0u8)
        },
{
    match width.checked_mul(height) {
        Some(_) => {
            let f = fb_new(width, height);
            proof {
                assert forall|x: nat, y: nat| x < width && y < height implies #[trigger] pixel_at(
                    f,
                    x,
                    y,
                ) == (0u8, 0u8, 0u8) by {
                    lemma_pixel_index(width as nat, height as nat, x, y);
                }
            }
            Some(f)
        },
        None => None,
    }
}

/// The `(width, height)` of `fb`. When its pixel count fits in a `usize`,
/// the framebuffer holds one pixel per cell.
pub fn framebuffer_size(fb: &Framebuffer) -> (size: (usize, usize))
    ensures
        (size.0 as nat, size.1 as nat) == fb_size(*fb),
        fb_fits(*fb) ==> fb_wf(*fb),
{
    (fb_width(fb), fb_height(fb))
}

/// Pixel `(x, y)` of a `w`-wide grid sits at flat index `y * w + x`, and
/// that index gives the pixel back.
proof fn lemma_pixel_index(w: nat, h: nat, x: nat, y: nat)
    requires
        x < w,
        y < h,
    ensures
        y * w + x < w * h,
        ((y * w + x) as int) % (w as int) == x,
        ((y * w + x) as int) / (w as int) == y,
{
    vstd::arithmetic::div_mod::lemma_fundamental_div_mod_converse(
        (y * w + x) as int,
        w as int,
        y as int,
        x as int,
    );
    assert(y * w + x < w * h) by (nonlinear_arith)
        requires
            x < w,
            y < h,
    ;
}

/// Flat index `k` of a `w x h` grid names the pixel `(k % w, k / w)`.
proof fn lemma_index_pixel(w: nat, h: nat, k: int)
    requires
        0 <= k < w * h,
    ensures
        w > 0,
        0 <= k % (w as int) < w,
        0 <= k / (w as int) < h,
        k == (k / (w as int)) * w + k % (w as int),
{
    if w == 0 {
        assert(w * h == 0) by (nonlinear_arith)
            requires
                w == 0,
        ;
    }
    vstd::arithmetic::div_mod::lemma_fundamental_div_mod(k, w as int);
    let q = k / (w as int);
    let r = k % (w as int);
    assert(q * w == w * q) by (nonlinear_arith);
    if q >= h {
        assert(q * w >= h * w) by (nonlinear_arith)
            requires
                q >= h,
                w > 0,
        ;
        assert(h * w == w * h) by (nonlinear_arith);
    }
    if q < 0 {
        assert(q * w <= -(w as int)) by (nonlinear_arith)
            requires
                q < 0,
                w > 0,
        ;
    }
}

/// Whether `(x, y)` lies in the rectangle `[x_lo, x_hi) x [y_lo, y_hi)`.
pub open spec fn in_rect(x: int, y: int, x_lo: int, x_hi: int, y_lo: int, y_hi: int) -> bool {
    x_lo <= x < x_hi && y_lo <= y < y_hi
}

/// The pixel at flat index `k` while a rectangle is being painted row by
/// row: rows `y_lo..row`, and the first columns `x_lo..col` of row `row`,
/// already have `color`.
spec fn painting(
    prev: Seq<(u8, u8, u8)>,
    w: nat,
    k: int,
    x_lo: int,
    x_hi: int,
    y_lo: int,
    row: int,
    col: int,
    color: (u8, u8, u8),
) -> (u8, u8, u8) {
    let x = k % (w as int);
    let y = k / (w as int);
    if (x_lo <= x < x_hi && y_lo <= y < row) || (y == row && x_lo <= x < col) {
        color
    } else {
        prev[k]
    }
}

/// Paint every pixel of the rectangle `[x_lo, x_hi) x [y_lo, y_hi)` with
/// `color`, row by row; the part of it outside the framebuffer is skipped.
fn fill_rect(
    fb: &mut Framebuffer,
    x_lo: usize,
    x_hi: usize,
    y_lo: usize,
    y_hi: usize,
    color: (u8, u8, u8),
)
    requires
        fb_wf(*old(fb)),
    ensures
        fb_size(*final(fb)) == fb_size(*old(fb)),
        fb_wf(*final(fb)),
        forall|x: nat, y: nat|
            x < fb_size(*old(fb)).0 && y < fb_size(*old(fb)).1 ==> #[trigger] pixel_at(*final(fb), x, y)
                == if in_rect(x as int, y as int, x_lo as int, x_hi as int, y_lo as int, y_hi as int) {
                color
            } else {
                pixel_at(*old(fb), x, y)
            },
{
    let ghost w = fb_size(*fb).0;
    let ghost h = fb_size(*fb).1;
    let ghost start = fb_pixels(*fb);
    let mut y = y_lo;
    while y < y_hi
        invariant
            y_lo <= y <= y_hi || y_hi < y_lo,
            y_lo <= y,
            y_hi < y_lo ==> y == y_lo,
            fb_size(*fb) == (w, h),
            fb_pixels(*fb).len() == w * h,
            start.len() == w * h,
            forall|k: int|
                0 <= k < w * h ==> #[trigger] fb_pixels(*fb)[k] == painting(
                    start,
                    w,
                    k,
                    x_lo as int,
                    x_hi as int,
                    y_lo as int,
                    y as int,
                    x_lo as int,
                    color,
                ),
        decreases y_hi - y,
    {
        let mut x = x_lo;
        while x < x_hi
            invariant
                y_lo <= y < y_hi,
                x_lo <= x,
                x <= x_hi || x_hi < x_lo,
                x_hi < x_lo ==> x == x_lo,
                fb_size(*fb) == (w, h),
                fb_pixels(*fb).len() == w * h,
                start.len() == w * h,
                forall|k: int|
                    0 <= k < w * h ==> #[trigger] fb_pixels(*fb)[k] == painting(
                        start,
                        w,
                        k,
                        x_lo as int,
                        x_hi as int,
                        y_lo as int,
                        y as int,
                        x as int,
                        color,
                    ),
            decreases x_hi - x,
        {
            let ghost before = fb_pixels(*fb);
            set_pixel(fb, x, y, color);
            proof {
                if x < w && y < h {
                    lemma_pixel_index(w, h, x as nat, y as nat);
                    let idx = (y * w + x) as int;
                    assert forall|k: int| 0 <= k < w * h implies #[trigger] fb_pixels(*fb)[k]
                        == painting(
                        start,
                        w,
                        k,
                        x_lo as int,
                        x_hi as int,
                        y_lo as int,
                        y as int,
                        x + 1,
                        color,
                    ) by {
                        if k != idx {
                            assert(fb_pixels(*fb)[k] == before[k]);
                            lemma_index_pixel(w, h, k);
                        }
                    }
                } else {
                    assert forall|k: int| 0 <= k < w * h implies #[trigger] fb_pixels(*fb)[k]
                        == painting(
                        start,
                        w,
                        k,
                        x_lo as int,
                        x_hi as int,
                        y_lo as int,
                        y as int,
                        x + 1,
                        color,
                    ) by {
                        assert(fb_pixels(*fb)[k] == before[k]);
                        lemma_index_pixel(w, h, k);
                    }
                }
            }
            x = x + 1;
        }
        proof {
            assert forall|k: int| 0 <= k < w * h implies #[trigger] fb_pixels(*fb)[k] == painting(
                start,
                w,
                k,
                x_lo as int,
                x_hi as int,
                y_lo as int,
                y + 1,
                x_lo as int,
                color,
            ) by {
                assert(fb_pixels(*fb)[k] == painting(
                    start,
                    w,
                    k,
                    x_lo as int,
                    x_hi as int,
                    y_lo as int,
                    y as int,
                    x as int,
                    color,
                ));
            }
        }
        y = y + 1;
    }
    proof {
        assert forall|px: nat, py: nat| px < w && py < h implies #[trigger] pixel_at(*fb, px, py)
            == if in_rect(px as int, py as int, x_lo as int, x_hi as int, y_lo as int, y_hi as int) {
            color
        } else {
            pixel_at(*old(fb), px, py)
        } by {
            lemma_pixel_index(w, h, px, py);
            let k = (py * w + px) as int;
            assert(fb_pixels(*fb)[k] == painting(
                start,
                w,
                k,
                x_lo as int,
                x_hi as int,
                y_lo as int,
                y as int,
                x_lo as int,
                color,
            ));
        }
    }
}

/// The pixel `(x, y)` after painting with `color` every row of `rows`.
pub open spec fn with_rows(prev: (u8, u8, u8), y: int, rows: Set<int>, color: (u8, u8, u8)) -> (
    u8,
    u8,
    u8,
) {
    if rows.contains(y) {
        color
    } else {
        prev
    }
}

/// Paint row `y` of the framebuffer with `color` (nothing if the row lies
/// below the framebuffer).
pub fn draw_row(fb: &mut Framebuffer, y: usize, color: (u8, u8, u8))
    requires
        fb_fits(*old(fb)),
    ensures
        fb_size(*final(fb)) == fb_size(*old(fb)),
        fb_wf(*final(fb)),
        forall|px: nat, py: nat|
            px < fb_size(*old(fb)).0 && py < fb_size(*old(fb)).1 ==> #[trigger] pixel_at(
                *final(fb),
                px,
                py,
            ) == if py == y {
                color
            } else {
                pixel_at(*old(fb), px, py)
            },
{
    let w = fb_width(fb);
    let h = fb_height(fb);
    if y < h {
        fill_rect(fb, 0, w, y, y + 1, color);
    }
}

/// The rows of the perspective floor grid still to be drawn from row `y`
/// down to the horizon, with the current `stride`: row `y` itself, then
/// (unless the next step would reach the horizon) the rows from
/// `y - stride` on, the stride growing by one per line up to `cap`.
pub open spec fn floor_rows(y: int, stride: int, horizon: int, cap: int) -> Set<int>
    decreases y - horizon,
{
    if y <= horizon || stride < 1 {
        Set::empty()
    } else if y < stride + horizon + 1 {
        Set::empty().insert(y)
    } else {
        floor_rows(
            y - stride,
            if stride + 1 < cap {
                stride + 1
            } else {
                cap
            },
            horizon,
            cap,
        ).insert(y)
    }
}

/// All horizontal floor-grid rows of an `h`-pixel-high frame with the
/// horizon at row `horizon`: starting at the bottom row with stride 2, the
/// stride capped at the floor depth `h - horizon - 1` (or 1). None when the
/// horizon leaves no floor row.
pub open spec fn floor_grid_rows(h: nat, horizon: nat) -> Set<int> {
    if horizon + 1 >= h {
        Set::empty()
    } else {
        let depth = h - horizon - 1;
        floor_rows(
            h - 1,
            2,
            horizon as int,
            if depth > 1 {
                depth
            } else {
                1
            },
        )
    }
}

/// The gap between floor-grid row `k` and row `k + 1`, counted from the
/// bottom: 2 pixels first, then 3, 4, ..., never more than the floor depth
/// `depth` after the first.
pub open spec fn grid_gap(k: nat, depth: int) -> int {
    if k == 0 {
        2
    } else if 2 + k < depth {
        (2 + k) as int
    } else {
        depth
    }
}

/// Row `k` of the floor grid counted from the bottom row `h - 1`, each row
/// `grid_gap` above the one below it.
pub open spec fn grid_row(h: int, depth: int, k: nat) -> int
    decreases k,
{
    if k == 0 {
        h - 1
    } else {
        grid_row(h, depth, (k - 1) as nat) - grid_gap((k - 1) as nat, depth)
    }
}

/// Rows further up the grid lie strictly higher on the screen.
proof fn lemma_grid_row_decreasing(h: int, depth: int, j: nat, k: nat)
    requires
        depth >= 1,
        j < k,
    ensures
        grid_row(h, depth, k) < grid_row(h, depth, j),
    decreases k,
{
    if j + 1 < k {
        lemma_grid_row_decreasing(h, depth, j, (k - 1) as nat);
    }
}

/// From row `k` on, with the stride at `grid_gap(k)`, the rows still to be
/// drawn are exactly the grid rows `k, k + 1, ...` that lie below the
/// horizon.
proof fn lemma_floor_rows_are_grid_rows(h: int, horizon: int, depth: int, k: nat, y: int)
    requires
        depth >= 1,
        depth == h - horizon - 1,
    ensures
        floor_rows(grid_row(h, depth, k), grid_gap(k, depth), horizon, depth).contains(y) <==> (
        exists|j: nat| j >= k && #[trigger] grid_row(h, depth, j) == y && y > horizon),
    decreases grid_row(h, depth, k) - horizon,
{
    let r = grid_row(h, depth, k);
    let g = grid_gap(k, depth);
    let next = if g + 1 < depth {
        g + 1
    } else {
        depth
    };
    assert(grid_row(h, depth, k + 1) == r - g);
    assert(next == grid_gap(k + 1, depth));
    if r <= horizon {
        if exists|j: nat| j >= k && #[trigger] grid_row(h, depth, j) == y && y > horizon {
            let j = choose|j: nat| j >= k && #[trigger] grid_row(h, depth, j) == y && y > horizon;
            if j > k {
                lemma_grid_row_decreasing(h, depth, k, j);
            }
        }
    } else if r < g + horizon + 1 {
        if exists|j: nat| j >= k && #[trigger] grid_row(h, depth, j) == y && y > horizon {
            let j = choose|j: nat| j >= k && #[trigger] grid_row(h, depth, j) == y && y > horizon;
            if j > k + 1 {
                lemma_grid_row_decreasing(h, depth, k + 1, j);
            }
        }
        if y == r {
            assert(grid_row(h, depth, k) == y);
        }
    } else {
        lemma_floor_rows_are_grid_rows(h, horizon, depth, k + 1, y);
        if y == r {
            assert(grid_row(h, depth, k) == y);
        }
        if exists|j: nat| j >= k && #[trigger] grid_row(h, depth, j) == y && y > horizon {
            let j = choose|j: nat| j >= k && #[trigger] grid_row(h, depth, j) == y && y > horizon;
            if j > k {
                assert(j >= k + 1);
            }
        }
    }
}

/// The floor grid's rows are exactly the rows `h - 1`, `h - 3`, `h - 6`,
/// `h - 10`, ... below the horizon: starting at the bottom row, each gap
/// one pixel larger than the one below it (2, 3, 4, ...) until it reaches
/// the floor depth `h - horizon - 1`, after which the gaps stay at that
/// depth. Without a floor row there is no grid row.
pub proof fn lemma_floor_grid_rows_spacing(h: nat, horizon: nat, y: int)
    ensures
        horizon + 1 < h ==> (floor_grid_rows(h, horizon).contains(y) <==> (exists|k: nat|
            #[trigger] grid_row(h as int, h - horizon - 1, k) == y && y > horizon)),
        horizon + 1 >= h ==> !floor_grid_rows(h, horizon).contains(y),
{
    if horizon + 1 < h {
        let depth = h - horizon - 1;
        assert(grid_row(h as int, depth, 0) == h - 1);
        assert(grid_gap(0, depth) == 2);
        lemma_floor_rows_are_grid_rows(h as int, horizon as int, depth, 0, y);
    }
}

/// Draw the horizontal lines of the floor grid: full-width blue rows below
/// the horizon whose spacing widens toward the horizon (farther lines
/// sparser), starting at the bottom row. The converging vertical lines of
/// the grid are drawn by the caller.
pub fn draw_floor_grid_rows(fb: &mut Framebuffer, horizon: usize)
    requires
        fb_fits(*old(fb)),
    ensures
        fb_size(*final(fb)) == fb_size(*old(fb)),
        fb_wf(*final(fb)),
        forall|px: nat, py: nat|
            px < fb_size(*old(fb)).0 && py < fb_size(*old(fb)).1 ==> #[trigger] pixel_at(
                *final(fb),
                px,
                py,
            ) == with_rows(
                pixel_at(*old(fb), px, py),
                py as int,
                floor_grid_rows(fb_size(*old(fb)).1, horizon as nat),
                GRID_BLUE,
            ),
{
    let w = fb_width(fb);
    let h = fb_height(fb);
    let ghost full = floor_grid_rows(h as nat, horizon as nat);
    if h == 0 || horizon >= h - 1 {
        assert(full =~= Set::empty());
        return;
    }
    let floor_depth = h - horizon - 1;
    let cap = if floor_depth > 1 {
        floor_depth
    } else {
        1
    };
    let mut stride: usize = 2;
    let mut y: usize = h - 1;
    let mut going = true;
    let ghost mut done: Set<int> = Set::empty();
    while going && y > horizon
        invariant
            fb_size(*fb) == fb_size(*old(fb)),
            fb_wf(*fb),
            fb_fits(*fb),
            w == fb_size(*fb).0,
            h == fb_size(*fb).1,
            horizon < y < h,
            1 <= cap,
            1 <= stride,
            cap == (if h - horizon - 1 > 1 {
                h - horizon - 1
            } else {
                1
            }),
            full == floor_rows((h - 1) as int, 2, horizon as int, cap as int),
            full == done + (if going {
                floor_rows(y as int, stride as int, horizon as int, cap as int)
            } else {
                Set::empty()
            }),
            forall|px: nat, py: nat|
                px < w && py < h ==> #[trigger] pixel_at(*fb, px, py) == with_rows(
                    pixel_at(*old(fb), px, py),
                    py as int,
                    done,
                    GRID_BLUE,
                ),
        decreases y as int + if going {
            1int
        } else {
            0int
        },
    {
        let ghost before = *fb;
        let ghost rest = floor_rows(y as int, stride as int, horizon as int, cap as int);
        draw_row(fb, y, GRID_BLUE);
        proof {
            done = done.insert(y as int);
        }
        if y - horizon - 1 < stride {
            going = false;
            assert(rest =~= Set::empty().insert(y as int));
        } else {
            let next = if stride + 1 < cap {
                stride + 1
            } else {
                cap
            };
            assert(rest =~= floor_rows(
                (y - stride) as int,
                next as int,
                horizon as int,
                cap as int,
            ).insert(y as int));
            y = y - stride;
            stride = next;
            if y <= horizon {
                assert(floor_rows(y as int, stride as int, horizon as int, cap as int) =~= Set::empty());
            }
        }
        assert(full =~= done + (if going {
            floor_rows(y as int, stride as int, horizon as int, cap as int)
        } else {
            Set::empty()
        }));
    }
    proof {
        if going {
            assert(floor_rows(y as int, stride as int, horizon as int, cap as int) =~= Set::empty());
        }
        assert(full =~= done);
    }
}

/// Draw the horizon strip: one full-width blue row at `horizon`.
pub fn draw_horizon(fb: &mut Framebuffer, horizon: usize)
    requires
        fb_fits(*old(fb)),
    ensures
        fb_size(*final(fb)) == fb_size(*old(fb)),
        fb_wf(*final(fb)),
        forall|px: nat, py: nat|
            px < fb_size(*old(fb)).0 && py < fb_size(*old(fb)).1 ==> #[trigger] pixel_at(
                *final(fb),
                px,
                py,
            ) == if py == horizon {
                GRID_BLUE
            } else {
                pixel_at(*old(fb), px, py)
            },
{
    draw_row(fb, horizon, GRID_BLUE);
}

/// The placeholder box of a `w x h` frame whose horizon is row `horizon`,
/// as `(x0, x1, top_y, base_y)`: a tenth of the width (at least 6) wide and
/// a fifth of the height (at least 8) tall, centred horizontally, its base a
/// quarter of the floor depth below the horizon; clipped at the left and
/// top edges and at the right edge.
pub open spec fn enemy_box(w: nat, h: nat, horizon: nat) -> (int, int, int, int) {
    let box_w: int = if w / 10 > 6 {
        (w / 10) as int
    } else {
        6
    };
    let box_h: int = if h / 5 > 8 {
        (h / 5) as int
    } else {
        8
    };
    let cx: int = (w / 2) as int;
    let base_y: int = horizon + (h - horizon) / 4;
    let top_y: int = if base_y >= box_h {
        base_y - box_h
    } else {
        0
    };
    let x0: int = if cx >= box_w / 2 {
        cx - box_w / 2
    } else {
        0
    };
    let x1: int = if x0 + box_w < w {
        x0 + box_w
    } else {
        w as int
    };
    (x0, x1, top_y, base_y)
}

/// Whether `(x, y)` lies on the red outline of the placeholder box
/// `[x0, x1) x [top, base)`: its top row, its bottom row, its left column
/// or its right column.
pub open spec fn on_box_outline(x: int, y: int, x0: int, x1: int, top: int, base: int) -> bool {
    ||| in_rect(x, y, x0, x1, top, top + 1)
    ||| (base > 0 && in_rect(x, y, x0, x1, base - 1, base))
    ||| in_rect(x, y, x0, x0 + 1, top, base)
    ||| (x1 > 0 && in_rect(x, y, x1 - 1, x1, top, base))
}

/// The colour of pixel `(x, y)` after drawing the placeholder box over
/// `prev`: red on the outline, gray inside, untouched elsewhere.
pub open spec fn enemy_placeholder_pixel(
    prev: (u8, u8, u8),
    x: int,
    y: int,
    b: (int, int, int, int),
) -> (u8, u8, u8) {
    if on_box_outline(x, y, b.0, b.1, b.2, b.3) {
        ENEMY_RED
    } else if in_rect(x, y, b.0, b.1, b.2, b.3) {
        GEOMETRY_GRAY
    } else {
        prev
    }
}

/// The enemy placeholder box `(x0, x1, top_y, base_y)` of a `w x h` frame
/// whose horizon is row `horizon` (see [`enemy_box`]).
pub fn placeholder_box(w: usize, h: usize, horizon: usize) -> (b: (usize, usize, usize, usize))
    requires
        horizon <= h,
    ensures
        (b.0 as int, b.1 as int, b.2 as int, b.3 as int) == enemy_box(w as nat, h as nat, horizon as nat),
{
    let box_w = if w / 10 > 6 {
        w / 10
    } else {
        6
    };
    let box_h = if h / 5 > 8 {
        h / 5
    } else {
        8
    };
    let cx = w / 2;
    let base_y = horizon + (h - horizon) / 4;
    let top_y = if base_y >= box_h {
        base_y - box_h
    } else {
        0
    };
    let x0 = if cx >= box_w / 2 {
        cx - box_w / 2
    } else {
        0
    };
    let x1 = if x0 + box_w < w {
        x0 + box_w
    } else {
        w
    };
    (x0, x1, top_y, base_y)
}

/// The placeholder box is a tenth of the frame wide (at least 6 pixels)
/// and a fifth of it tall (at least 8), centred on the middle column and
/// standing with its base a quarter of the floor depth below the horizon;
/// only the frame edges cut it. Its outline is red and its inside gray,
/// and pixels away from it keep their colour.
pub proof fn lemma_enemy_box_geometry(w: nat, h: nat, horizon: nat, prev: (u8, u8, u8), x: int, y: int)
    requires
        0 < w,
        horizon <= h,
    ensures
        ({
            let b = enemy_box(w, h, horizon);
            let box_w: int = if w / 10 > 6 {
                (w / 10) as int
            } else {
                6
            };
            let box_h: int = if h / 5 > 8 {
                (h / 5) as int
            } else {
                8
            };
            &&& b.3 == horizon + (h - horizon) / 4
            &&& b.3 >= box_h ==> b.3 - b.2 == box_h
            &&& b.3 < box_h ==> b.2 == 0
            &&& (w / 2 >= box_w / 2 && w / 2 - box_w / 2 + box_w <= w) ==> (b.0 == w / 2 - box_w / 2
                && b.1 - b.0 == box_w)
            &&& b.0 < b.1 <= w
            &&& (b.0 <= x < b.1 && y == b.2) ==> enemy_placeholder_pixel(prev, x, y, b) == ENEMY_RED
            &&& (b.0 <= x < b.1 && b.3 > 0 && y == b.3 - 1) ==> enemy_placeholder_pixel(prev, x, y, b)
                == ENEMY_RED
            &&& (b.2 <= y < b.3 && (x == b.0 || x == b.1 - 1)) ==> enemy_placeholder_pixel(
                prev,
                x,
                y,
                b,
            ) == ENEMY_RED
            &&& (b.0 < x < b.1 - 1 && b.2 < y < b.3 - 1) ==> enemy_placeholder_pixel(prev, x, y, b)
                == GEOMETRY_GRAY
            &&& !(b.0 <= x < b.1 && b.2 <= y < b.3) && !(b.0 <= x < b.1 && y == b.2)
                ==> enemy_placeholder_pixel(prev, x, y, b) == prev
        }),
{
}

/// Draw the enemy placeholder: a gray-filled, red-outlined rectangle
/// standing on the floor a little below the horizon, where the first
/// hostile wireframe will be rendered.
pub fn draw_enemy_placeholder(fb: &mut Framebuffer, horizon: usize)
    requires
        fb_fits(*old(fb)),
        horizon <= fb_size(*old(fb)).1,
    ensures
        fb_size(*final(fb)) == fb_size(*old(fb)),
        fb_wf(*final(fb)),
        forall|px: nat, py: nat|
            px < fb_size(*old(fb)).0 && py < fb_size(*old(fb)).1 ==> #[trigger] pixel_at(
                *final(fb),
                px,
                py,
            ) == enemy_placeholder_pixel(
                pixel_at(*old(fb), px, py),
                px as int,
                py as int,
                enemy_box(fb_size(*old(fb)).0, fb_size(*old(fb)).1, horizon as nat),
            ),
{
    let w = fb_width(fb);
    let h = fb_height(fb);
    let (x0, x1, top_y, base_y) = placeholder_box(w, h, horizon);
    let ghost start = *fb;
    // Gray fill.
    fill_rect(fb, x0, x1, top_y, base_y, GEOMETRY_GRAY);
    // Red outline: top, bottom, sides.
    fill_rect(fb, x0, x1, top_y, top_y + 1, ENEMY_RED);
    if base_y > 0 {
        fill_rect(fb, x0, x1, base_y - 1, base_y, ENEMY_RED);
    }
    fill_rect(fb, x0, x0 + 1, top_y, base_y, ENEMY_RED);
    if x1 > 0 {
        fill_rect(fb, x1 - 1, x1, top_y, base_y, ENEMY_RED);
    }
}

/// What `termray::Font8x8::draw_glyph` leaves as the pixels of a
/// framebuffer of the given `(width, height)` whose pixels were `pixels`,
/// after drawing `ch` in `color` with the glyph's top-left corner at
/// `(x, y)`.
pub uninterp spec fn glyph_drawn(
    pixels: Seq<(u8, u8, u8)>,
    size: (nat, nat),
    x: int,
    y: int,
    ch: char,
    color: (u8, u8, u8),
) -> Seq<(u8, u8, u8)>;

/// Calls `GlyphRenderer::glyph_width` of `termray::Font8x8`. Trusted: as its
/// source shows, it returns 8.
#[verifier::external_body]
fn font_glyph_width() -> (w: usize)
    ensures
        w == 8,
{
    Font8x8.glyph_width()
}

/// Calls `GlyphRenderer::glyph_height` of `termray::Font8x8`. Trusted: as
/// its source shows, it returns 8.
#[verifier::external_body]
fn font_glyph_height() -> (h: usize)
    ensures
        h == 8,
{
    Font8x8.glyph_height()
}

/// Whether `termray::Font8x8` has a glyph for `ch`: the printable ASCII
/// range `0x20..=0x7E`.
pub open spec fn glyph_printable(ch: char) -> bool {
    0x20 <= (ch as u32) <= 0x7E
}

/// Whether pixel `(a, b)` lies in the 8x8 glyph cell whose top-left corner
/// is `(x, y)`.
pub open spec fn in_glyph_cell(a: int, b: int, x: int, y: int) -> bool {
    x <= a < x + 8 && y <= b < y + 8
}

/// Calls `GlyphRenderer::draw_glyph` of `termray::Font8x8` with the colour
/// `(r, g, b)`, on a framebuffer that holds one pixel per cell and with a
/// corner far enough from `i32::MAX` that the glyph's pixel coordinates do
/// not overflow. Trusted: the pixels afterwards are claimed to be
/// `glyph_drawn` of the pixels before, the size and the arguments; and, as
/// its source shows, the framebuffer keeps its size and its pixel count,
/// every pixel either keeps its colour or takes `color`, pixels outside the
/// 8x8 cell at `(x, y)` keep their colour, and a character outside
/// `0x20..=0x7E` draws nothing. Which pixels of the cell a glyph sets (the
/// font's bitmaps) is not stated.
#[verifier::external_body]
fn draw_glyph(fb: &mut Framebuffer, x: i32, y: i32, ch: char, color: (u8, u8, u8))
    requires
        fb_wf(*old(fb)),
        x <= i32::MAX - 7,
        y <= i32::MAX - 7,
    ensures
        fb_size(*final(fb)) == fb_size(*old(fb)),
        fb_pixels(*final(fb)).len() == fb_pixels(*old(fb)).len(),
        fb_pixels(*final(fb)) == glyph_drawn(
            fb_pixels(*old(fb)),
            fb_size(*old(fb)),
            x as int,
            y as int,
            ch,
            color,
        ),
        !glyph_printable(ch) ==> fb_pixels(*final(fb)) == fb_pixels(*old(fb)),
        forall|a: nat, b: nat|
            a < fb_size(*old(fb)).0 && b < fb_size(*old(fb)).1 ==> {
                &&& (#[trigger] pixel_at(*final(fb), a, b) == pixel_at(*old(fb), a, b)
                    || pixel_at(*final(fb), a, b) == color)
                &&& (!in_glyph_cell(a as int, b as int, x as int, y as int) ==> pixel_at(
                    *final(fb),
                    a,
                    b,
                ) == pixel_at(*old(fb), a, b))
            },
{
    Font8x8.draw_glyph(fb, x, y, ch, Color::rgb(color.0, color.1, color.2))
}

/// Every character takes at least one byte in UTF-8.
proof fn lemma_utf8_at_least_one_byte_per_char(s: Seq<char>)
    ensures
        vstd::utf8::encode_utf8(s).len() >= s.len(),
    decreases s.len(),
{
    if s.len() > 0 {
        lemma_utf8_at_least_one_byte_per_char(s.drop_first());
    }
}

/// Where the banner goes in a frame of the given size for a text of
/// `byte_len` bytes in glyphs of `glyph` = `(width, height)` pixels:
/// centred horizontally (left-aligned when wider than the frame), two glyph
/// heights above the bottom edge (at the top when the frame is lower than
/// that).
pub open spec fn banner_origin(size: (nat, nat), byte_len: nat, glyph: (nat, nat)) -> (int, int) {
    let diff = size.0 - glyph.0 * byte_len;
    (
        if diff > 0 {
            diff / 2
        } else {
            0
        },
        if size.1 - 2 * glyph.1 > 0 {
            size.1 - 2 * glyph.1
        } else {
            0
        },
    )
}

/// Where a banner of `byte_len` bytes in glyphs of `glyph` = `(width,
/// height)` pixels starts in a `w x h` frame (see [`banner_origin`]).
pub fn banner_position(w: usize, h: usize, byte_len: usize, glyph_w: i32, glyph_h: i32) -> (pos: (
    i32,
    i32,
))
    requires
        w <= i32::MAX,
        h <= i32::MAX,
        1 <= glyph_w,
        0 <= glyph_h <= i32::MAX / 2,
        byte_len * glyph_w <= i32::MAX,
    ensures
        (pos.0 as int, pos.1 as int) == banner_origin(
            (w as nat, h as nat),
            byte_len as nat,
            (glyph_w as nat, glyph_h as nat),
        ),
{
    assert(byte_len <= byte_len * glyph_w) by (nonlinear_arith)
        requires
            1 <= glyph_w,
    ;
    assert(glyph_w * byte_len == byte_len * glyph_w) by (nonlinear_arith);
    let total_w = glyph_w * (byte_len as i32);
    let fb_w = w as i32;
    let fb_h = h as i32;
    let diff = fb_w - total_w;
    let start_x = if diff > 0 {
        diff / 2
    } else {
        0
    };
    let y = if fb_h - glyph_h * 2 > 0 {
        fb_h - glyph_h * 2
    } else {
        0
    };
    (start_x, y)
}

/// The banner is centred: when the text fits, the space left of it equals
/// the space right of it, or falls one pixel short; a text wider than the
/// frame starts at the left edge. It sits two glyph heights above the
/// bottom, or at the top of a frame lower than that.
pub proof fn lemma_banner_centred(size: (nat, nat), byte_len: nat, glyph: (nat, nat))
    ensures
        ({
            let o = banner_origin(size, byte_len, glyph);
            let text_w = glyph.0 * byte_len;
            &&& text_w <= size.0 ==> (o.0 >= 0 && (size.0 - (o.0 + text_w) == o.0 || size.0 - (o.0
                + text_w) == o.0 + 1))
            &&& text_w >= size.0 ==> o.0 == 0
            &&& 2 * glyph.1 <= size.1 ==> o.1 + 2 * glyph.1 == size.1
            &&& 2 * glyph.1 >= size.1 ==> o.1 == 0
        }),
{
}

/// The pixels after drawing glyphs `i..` of `chars` from `start_x` on, one
/// glyph every 8 pixels, stopping at the first glyph that would start at
/// or beyond the right edge.
pub open spec fn banner_pixels(
    p: Seq<(u8, u8, u8)>,
    size: (nat, nat),
    chars: Seq<char>,
    i: nat,
    start_x: int,
    y: int,
) -> Seq<(u8, u8, u8)>
    decreases chars.len() - i,
{
    if i < chars.len() && start_x + 8 * i < size.0 {
        banner_pixels(
            glyph_drawn(p, size, start_x + 8 * i, y, chars[i as int], UI_BLUE),
            size,
            chars,
            i + 1,
            start_x,
            y,
        )
    } else {
        p
    }
}

/// Whether pixel `(a, b)` lies in the cell of a glyph the banner draws:
/// glyph `i` of `chars`, printable, starting left of the right edge `w`.
pub open spec fn in_drawn_banner_glyph(
    a: int,
    b: int,
    chars: Seq<char>,
    i: int,
    start_x: int,
    y: int,
    w: int,
) -> bool {
    &&& 0 <= i < chars.len()
    &&& glyph_printable(chars[i])
    &&& start_x + 8 * i < w
    &&& in_glyph_cell(a, b, start_x + 8 * i, y)
}

/// Draw a short banner near the bottom of the framebuffer in termray's
/// 8x8 font and the UI blue: centred horizontally, two glyph heights above
/// the bottom, clipped at the right edge; characters the font lacks are
/// skipped. Only pixels in the cells of drawn printable glyphs change, and
/// they turn UI blue.
pub fn draw_banner(fb: &mut Framebuffer, text: &str)
    requires
        fb_fits(*old(fb)),
        vstd::string::StringSliceAdditionalSpecFns::spec_bytes(text).len() * 8 <= i32::MAX,
        fb_size(*old(fb)).0 <= i32::MAX - 8,
        fb_size(*old(fb)).1 <= i32::MAX,
    ensures
        fb_size(*final(fb)) == fb_size(*old(fb)),
        fb_wf(*final(fb)),
        fb_pixels(*final(fb)) == banner_pixels(
            fb_pixels(*old(fb)),
            fb_size(*old(fb)),
            text@,
            0,
            banner_origin(
                fb_size(*old(fb)),
                vstd::string::StringSliceAdditionalSpecFns::spec_bytes(text).len(),
                (8, 8),
            ).0,
            banner_origin(
                fb_size(*old(fb)),
                vstd::string::StringSliceAdditionalSpecFns::spec_bytes(text).len(),
                (8, 8),
            ).1,
        ),
        forall|a: nat, b: nat|
            a < fb_size(*old(fb)).0 && b < fb_size(*old(fb)).1 ==> #[trigger] pixel_at(
                *final(fb),
                a,
                b,
            ) == pixel_at(*old(fb), a, b) || (pixel_at(*final(fb), a, b) == UI_BLUE && exists|
                i: int,
            |
                in_drawn_banner_glyph(
                    a as int,
                    b as int,
                    text@,
                    i,
                    banner_origin(
                        fb_size(*old(fb)),
                        vstd::string::StringSliceAdditionalSpecFns::spec_bytes(text).len(),
                        (8, 8),
                    ).0,
                    banner_origin(
                        fb_size(*old(fb)),
                        vstd::string::StringSliceAdditionalSpecFns::spec_bytes(text).len(),
                        (8, 8),
                    ).1,
                    fb_size(*old(fb)).0 as int,
                )),
{
    let glyph_w = font_glyph_width() as i32;
    let glyph_h = font_glyph_height() as i32;
    let w = fb_width(fb);
    let h = fb_height(fb);
    proof {
        lemma_utf8_at_least_one_byte_per_char(text@);
    }
    let total_w = glyph_w * (text.len() as i32);
    let fb_w = w as i32;
    let (start_x, y) = banner_position(w, h, text.len(), glyph_w, glyph_h);
    let ghost size = fb_size(*fb);
    let ghost chars = text@;
    let ghost start = *fb;
    let ghost goal = banner_pixels(fb_pixels(*fb), size, chars, 0, start_x as int, y as int);
    assert((start_x as int, y as int) == banner_origin(
        size,
        vstd::string::StringSliceAdditionalSpecFns::spec_bytes(text).len(),
        (8, 8),
    ));
    let mut it = text.chars();
    let mut i: usize = 0;
    loop
        invariant_except_break
            vstd::std_specs::iter::IteratorSpec::remaining(&it) == chars.skip(i as int),
        invariant
            i <= chars.len(),
            chars.len() * 8 <= i32::MAX,
            total_w == 8 * vstd::string::StringSliceAdditionalSpecFns::spec_bytes(text).len(),
            chars.len() <= vstd::string::StringSliceAdditionalSpecFns::spec_bytes(text).len(),
            start_x + total_w <= fb_w || start_x == 0,
            0 <= start_x,
            0 <= y <= i32::MAX - 16 || y == 0,
            fb_w == size.0,
            fb_w <= i32::MAX - 8,
            glyph_w == 8,
            fb_size(*fb) == size,
            fb_size(start) == size,
            fb_pixels(*fb).len() == size.0 * size.1,
            banner_pixels(fb_pixels(*fb), size, chars, i as nat, start_x as int, y as int) == goal,
            forall|a: nat, b: nat|
                a < size.0 && b < size.1 ==> #[trigger] pixel_at(*fb, a, b) == pixel_at(start, a, b)
                    || (pixel_at(*fb, a, b) == UI_BLUE && exists|j: int|
                    j < i && in_drawn_banner_glyph(
                        a as int,
                        b as int,
                        chars,
                        j,
                        start_x as int,
                        y as int,
                        size.0 as int,
                    )),
        ensures
            fb_size(*fb) == size,
            fb_pixels(*fb).len() == size.0 * size.1,
            fb_pixels(*fb) == goal,
            forall|a: nat, b: nat|
                a < size.0 && b < size.1 ==> #[trigger] pixel_at(*fb, a, b) == pixel_at(start, a, b)
                    || (pixel_at(*fb, a, b) == UI_BLUE && exists|j: int|
                    in_drawn_banner_glyph(
                        a as int,
                        b as int,
                        chars,
                        j,
                        start_x as int,
                        y as int,
                        size.0 as int,
                    )),
        decreases chars.len() - i,
    {
        match it.next() {
            None => {
                assert(chars.skip(i as int).len() == 0);
                break;
            },
            Some(ch) => {
                assert(chars.skip(i as int)[0] == chars[i as int]);
                let x = start_x + (i as i32) * glyph_w;
                if x >= fb_w {
                    break;
                }
                let ghost mid = *fb;
                draw_glyph(fb, x, y, ch, UI_BLUE);
                proof {
                    assert forall|a: nat, b: nat| a < size.0 && b < size.1 implies #[trigger] pixel_at(
                        *fb,
                        a,
                        b,
                    ) == pixel_at(start, a, b) || (pixel_at(*fb, a, b) == UI_BLUE && exists|
                        j: int,
                    |
                        j < i + 1 && in_drawn_banner_glyph(
                            a as int,
                            b as int,
                            chars,
                            j,
                            start_x as int,
                            y as int,
                            size.0 as int,
                        )) by {
                        assert(pixel_at(mid, a, b) == pixel_at(start, a, b) || (pixel_at(mid, a, b)
                            == UI_BLUE && exists|j: int|
                            j < i && in_drawn_banner_glyph(
                                a as int,
                                b as int,
                                chars,
                                j,
                                start_x as int,
                                y as int,
                                size.0 as int,
                            )));
                        if pixel_at(*fb, a, b) != pixel_at(mid, a, b) {
                            assert(in_drawn_banner_glyph(
                                a as int,
                                b as int,
                                chars,
                                i as int,
                                start_x as int,
                                y as int,
                                size.0 as int,
                            ));
                        }
                    }
                }
                assert(chars.skip(i as int).drop_first() =~= chars.skip(i + 1));
                i = i + 1;
            },
        }
    }
}

/// The pixels after drawing, over `prev`, the horizon strip at row
/// `horizon` and then the enemy placeholder box of a frame of the given
/// size.
pub open spec fn horizon_and_box(prev: Seq<(u8, u8, u8)>, size: (nat, nat), horizon: nat) -> Seq<
    (u8, u8, u8),
> {
    Seq::new(
        prev.len(),
        |k: int|
            {
                let a = k % (size.0 as int);
                let b = k / (size.0 as int);
                enemy_placeholder_pixel(
                    if b == horizon {
                        GRID_BLUE
                    } else {
                        prev[k]
                    },
                    a,
                    b,
                    enemy_box(size.0, size.1, horizon),
                )
            },
    )
}

/// Draw the foreground of the demo frame over the floor grid: the horizon
/// strip at row `horizon`, then the enemy placeholder standing below it,
/// then the banner `text` near the bottom.
pub fn draw_tron_foreground(fb: &mut Framebuffer, horizon: usize, text: &str)
    requires
        fb_fits(*old(fb)),
        horizon <= fb_size(*old(fb)).1,
        vstd::string::StringSliceAdditionalSpecFns::spec_bytes(text).len() * 8 <= i32::MAX,
        fb_size(*old(fb)).0 <= i32::MAX - 8,
        fb_size(*old(fb)).1 <= i32::MAX,
    ensures
        fb_size(*final(fb)) == fb_size(*old(fb)),
        fb_wf(*final(fb)),
        fb_pixels(*final(fb)) == banner_pixels(
            horizon_and_box(fb_pixels(*old(fb)), fb_size(*old(fb)), horizon as nat),
            fb_size(*old(fb)),
            text@,
            0,
            banner_origin(
                fb_size(*old(fb)),
                vstd::string::StringSliceAdditionalSpecFns::spec_bytes(text).len(),
                (8, 8),
            ).0,
            banner_origin(
                fb_size(*old(fb)),
                vstd::string::StringSliceAdditionalSpecFns::spec_bytes(text).len(),
                (8, 8),
            ).1,
        ),
{
    let ghost start = *fb;
    let ghost size = fb_size(*fb);
    let _ = framebuffer_size(fb);
    draw_horizon(fb, horizon);
    let ghost lined = *fb;
    draw_enemy_placeholder(fb, horizon);
    proof {
        let w = size.0;
        let h = size.1;
        assert(fb_pixels(*fb) =~= horizon_and_box(fb_pixels(start), size, horizon as nat)) by {
            assert forall|k: int| 0 <= k < w * h implies #[trigger] fb_pixels(*fb)[k]
                == horizon_and_box(fb_pixels(start), size, horizon as nat)[k] by {
                lemma_index_pixel(w, h, k);
                let a = (k % (w as int)) as nat;
                let b = (k / (w as int)) as nat;
                assert(pixel_at(*fb, a, b) == enemy_placeholder_pixel(
                    pixel_at(lined, a, b),
                    a as int,
                    b as int,
                    enemy_box(w, h, horizon as nat),
                ));
                assert(pixel_at(lined, a, b) == if b == horizon {
                    GRID_BLUE
                } else {
                    pixel_at(start, a, b)
                });
            }
        }
    }
    draw_banner(fb, text);
}

} // verus!
