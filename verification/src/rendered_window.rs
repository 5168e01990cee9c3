//! The per-window offscreen surface and its animation state.
//!
//! A `RenderedWindow` owns one window's drawable content — modelled as
//! the ordered list of resolved text runs rasterised onto it — together
//! with the animated grid position and scroll offset.  Draw commands
//! mutate the content and the animation destinations; the per-frame
//! `advance` step is the only thing that moves the current values.

use vstd::prelude::*;

use crate::animation::{
    anim_converged, anim_retarget, anim_step, pair_retarget, PointAnim, ScalarAnim,
};
use crate::metrics::{grid_to_pixel_axis, region_in_range, Dimensions, GridMetrics, GridPoint,
    PixelRect};
use crate::style::{bg_source, fg_source, special_source, Color, Colors, Style, UnderlineStyle};
use crate::units::{
    clamp_coord, clamp_coord_spec, coord_ok, COORD_LIMIT, MAX_CELL_PX, MAX_DURATION_MS,
    MAX_GRID_CELLS, SUBUNIT,
};

verus! {

/// One run of text to draw: its content, style, and grid-relative
/// placement in whole cells.
#[derive(Clone, Debug)]
pub struct LineFragment {
    pub text: String,
    pub window_left: u64,
    pub window_top: u64,
    pub width: u64,
    pub style: Option<Style>,
}

/// The window-level draw commands the protocol layer can issue.
/// Positions and scroll offsets arrive in fixed-point subunits of a
/// cell; scroll columns are carried but do not animate.
#[derive(Debug)]
pub enum WindowDrawCommand {
    Position { grid_position: (i64, i64), grid_size: (u64, u64), floating_order: Option<u64> },
    DrawLine(Vec<LineFragment>),
    Scroll { top: u64, bottom: u64, left: u64, right: u64, rows: i64, cols: i64 },
    Clear,
    Show,
    Hide,
    Close,
    Viewport { top_line: i64, bottom_line: i64 },
}

/// A run already rasterised onto a window surface: the fragment's text
/// and placement with every colour resolved.  `top` is in subunits of a
/// row, adjusted by the scroll offset that was current at draw time.
#[derive(Clone, Debug)]
pub struct DrawnRun {
    pub text: String,
    pub left: u64,
    pub top: i64,
    pub width: u64,
    pub foreground: Color,
    pub background: Color,
    pub special: Color,
    pub bold: bool,
    pub italic: bool,
    pub strikethrough: bool,
    pub underline: Option<UnderlineStyle>,
    pub blend: u8,
}

/// Where one window was drawn during a frame, for hit-testing and
/// damage tracking downstream.
#[derive(Clone, Copy, Debug, PartialEq)]
pub struct WindowDrawDetails {
    pub id: u64,
    pub region: PixelRect,
    pub floating_order: Option<u64>,
}

/// Drawing can fail only by configuration: a style asked for a fallback
/// colour and the defaults do not provide one.
#[derive(Clone, Copy, Debug, PartialEq, Eq, Structural)]
pub enum DrawError {
    MissingDefaultColor,
}

/// Where a fragment's top edge lands on the surface, in subunits of a
/// row: its commanded row shifted up by the current scroll offset, with
/// both stages clamped into the stored coordinate range.
pub open spec fn run_top_spec(window_top: int, scroll_current: int) -> int {
    clamp_coord_spec(clamp_coord_spec(window_top * SUBUNIT) - scroll_current)
}

/// Whether every colour the fragment needs can be resolved against the
/// given defaults.
pub open spec fn fragment_resolvable(f: LineFragment, d: Colors) -> bool {
    match f.style {
        Some(s) => {
            &&& fg_source(s, d) is Some
            &&& bg_source(s, d) is Some
            &&& special_source(s, d) is Some
        },
        None => d.foreground is Some && d.background is Some,
    }
}

/// The rasterised run a fragment produces: same text and placement,
/// colours resolved against the defaults, emphasis copied from the
/// style — or cleared, for an unstyled fragment.
pub open spec fn run_matches_fragment(
    run: DrawnRun,
    f: LineFragment,
    d: Colors,
    scroll_current: int,
) -> bool {
    &&& run.text@ == f.text@
    &&& run.left == f.window_left
    &&& run.top == run_top_spec(f.window_top as int, scroll_current)
    &&& run.width == f.width
    &&& match f.style {
        Some(s) => {
            &&& Some(run.foreground) == fg_source(s, d)
            &&& Some(run.background) == bg_source(s, d)
            &&& Some(run.special) == special_source(s, d)
            &&& run.bold == s.bold
            &&& run.italic == s.italic
            &&& run.strikethrough == s.strikethrough
            &&& run.underline == s.underline
            &&& run.blend == s.blend
        },
        None => {
            &&& Some(run.foreground) == d.foreground
            &&& Some(run.background) == d.background
            &&& run.special == run.foreground
            &&& !run.bold && !run.italic && !run.strikethrough
            &&& run.underline is None
            &&& run.blend == 0
        },
    }
}

/// Whether a run paints the point at `row_sub` (subunits of a row) in
/// column `col`: a run covers one row of cells starting at its top edge.
pub open spec fn run_covers(run: DrawnRun, row_sub: int, col: int) -> bool {
    &&& run.left <= col < run.left + run.width
    &&& run.top <= row_sub < run.top + SUBUNIT
}

/// One editor window's offscreen surface, animation state, and
/// compositing bookkeeping.
pub struct RenderedWindow {
    pub id: u64,
    pub hidden: bool,
    pub floating_order: Option<u64>,
    pub grid_size: Dimensions,
    pub content: Vec<DrawnRun>,
    pub position: PointAnim,
    pub scroll: ScalarAnim,
    pub viewport_top: i64,
    pub viewport_bottom: i64,
    pub scroll_region: (u64, u64, u64, u64),
    pub scroll_cols: i64,
}

impl RenderedWindow {
    /// Both animations are well-formed and the grid size is within the
    /// supported range.
    pub open spec fn wf(&self) -> bool {
        &&& self.position.wf()
        &&& self.scroll.wf()
        &&& self.grid_size.width <= MAX_GRID_CELLS
        &&& self.grid_size.height <= MAX_GRID_CELLS
    }

    /// Everything advance does not touch: identity on the bookkeeping
    /// and content fields.
    pub open spec fn same_bookkeeping(a: RenderedWindow, b: RenderedWindow) -> bool {
        &&& a.id == b.id
        &&& a.hidden == b.hidden
        &&& a.floating_order == b.floating_order
        &&& a.grid_size == b.grid_size
        &&& a.content == b.content
        &&& a.viewport_top == b.viewport_top
        &&& a.viewport_bottom == b.viewport_bottom
        &&& a.scroll_region == b.scroll_region
        &&& a.scroll_cols == b.scroll_cols
    }

    /// A fresh window: the surface is empty and both animations start
    /// already settled at the commanded position and scroll zero, so a
    /// new window does not animate in from anywhere.
    pub fn new(id: u64, grid_position: GridPoint, grid_size: Dimensions) -> (r: RenderedWindow)
        requires
            coord_ok(grid_position.x as int),
            coord_ok(grid_position.y as int),
            grid_size.width <= MAX_GRID_CELLS,
            grid_size.height <= MAX_GRID_CELLS,
        ensures
            r.wf(),
            r.id == id,
            !r.hidden,
            r.floating_order is None,
            r.grid_size == grid_size,
            r.content@.len() == 0,
            anim_converged(r.position.x@) && anim_converged(r.position.y@),
            r.position.x@.current == grid_position.x,
            r.position.y@.current == grid_position.y,
            anim_converged(r.scroll@),
            r.scroll@.current == 0,
            r.viewport_top == 0 && r.viewport_bottom == 0,
            r.scroll_region == (0u64, 0u64, 0u64, 0u64),
            r.scroll_cols == 0,
    {
        RenderedWindow {
            id,
            hidden: false,
            floating_order: None,
            grid_size,
            content: Vec::new(),
            position: PointAnim::new_settled(grid_position.x, grid_position.y),
            scroll: ScalarAnim::new_settled(0),
            viewport_top: 0,
            viewport_bottom: 0,
            scroll_region: (0, 0, 0, 0),
            scroll_cols: 0,
        }
    }

    /// Reallocate the surface for a new grid size: the old content is
    /// discarded, never stretched; animations are untouched.
    pub fn resize(&mut self, new_grid_size: Dimensions)
        requires
            old(self).wf(),
            new_grid_size.width <= MAX_GRID_CELLS,
            new_grid_size.height <= MAX_GRID_CELLS,
        ensures
            final(self).wf(),
            final(self).grid_size == new_grid_size,
            final(self).content@.len() == 0,
            final(self).id == old(self).id,
            final(self).hidden == old(self).hidden,
            final(self).floating_order == old(self).floating_order,
            final(self).position == old(self).position,
            final(self).scroll == old(self).scroll,
            final(self).viewport_top == old(self).viewport_top,
            final(self).viewport_bottom == old(self).viewport_bottom,
            final(self).scroll_region == old(self).scroll_region,
            final(self).scroll_cols == old(self).scroll_cols,
    {
        self.grid_size = new_grid_size;
        self.content = Vec::new();
    }

    /// Reset the visible content without touching position or scroll
    /// animation state.
    pub fn clear(&mut self)
        requires
            old(self).wf(),
        ensures
            final(self).wf(),
            final(self).content@.len() == 0,
            final(self).id == old(self).id,
            final(self).hidden == old(self).hidden,
            final(self).floating_order == old(self).floating_order,
            final(self).grid_size == old(self).grid_size,
            final(self).position == old(self).position,
            final(self).scroll == old(self).scroll,
            final(self).viewport_top == old(self).viewport_top,
            final(self).viewport_bottom == old(self).viewport_bottom,
            final(self).scroll_region == old(self).scroll_region,
            final(self).scroll_cols == old(self).scroll_cols,
    {
        self.content = Vec::new();
    }

    /// Aim the position animation at a new destination; a repeated
    /// destination never restarts an in-flight animation.
    pub fn set_destination_position(&mut self, px: i64, py: i64)
        requires
            old(self).wf(),
            coord_ok(px as int),
            coord_ok(py as int),
        ensures
            final(self).wf(),
            (final(self).position.x@, final(self).position.y@) == pair_retarget(
                old(self).position.x@,
                old(self).position.y@,
                px as int,
                py as int,
            ),
            final(self).scroll == old(self).scroll,
            Self::same_bookkeeping(*old(self), *final(self)),
    {
        self.position.set_destination(px, py);
    }

    /// Aim the scroll animation at a new offset, with the same
    /// no-restart-on-repeat contract as the position.
    pub fn set_destination_scroll(&mut self, offset: i64)
        requires
            old(self).wf(),
            coord_ok(offset as int),
        ensures
            final(self).wf(),
            final(self).scroll@ == anim_retarget(old(self).scroll@, offset as int),
            final(self).position == old(self).position,
            Self::same_bookkeeping(*old(self), *final(self)),
    {
        self.scroll.set_destination(offset);
    }

    /// Apply a `Position` command to an existing window: reallocate the
    /// surface only when the grid size actually changed, then aim the
    /// position animation and adopt the commanded layer — an absent
    /// floating order demotes the window to the base layer.
    pub fn apply_position(
        &mut self,
        px: i64,
        py: i64,
        grid_size: Dimensions,
        floating_order: Option<u64>,
    )
        requires
            old(self).wf(),
            coord_ok(px as int),
            coord_ok(py as int),
            grid_size.width <= MAX_GRID_CELLS,
            grid_size.height <= MAX_GRID_CELLS,
        ensures
            final(self).wf(),
            final(self).grid_size == grid_size,
            grid_size == old(self).grid_size ==> final(self).content == old(self).content,
            grid_size != old(self).grid_size ==> final(self).content@.len() == 0,
            (final(self).position.x@, final(self).position.y@) == pair_retarget(
                old(self).position.x@,
                old(self).position.y@,
                px as int,
                py as int,
            ),
            final(self).floating_order == floating_order,
            final(self).scroll == old(self).scroll,
            final(self).id == old(self).id,
            final(self).hidden == old(self).hidden,
            final(self).viewport_top == old(self).viewport_top,
            final(self).viewport_bottom == old(self).viewport_bottom,
            final(self).scroll_region == old(self).scroll_region,
            final(self).scroll_cols == old(self).scroll_cols,
    {
        if grid_size != self.grid_size {
            self.resize(grid_size);
        }
        self.set_destination_position(px, py);
        self.floating_order = floating_order;
    }

    /// Rasterise a batch of fragments onto the surface, each at its
    /// commanded row shifted by the *current* animated scroll offset.
    /// If any fragment needs an unconfigured fallback colour, nothing
    /// is drawn and the configuration error is reported.
    pub fn draw_line(&mut self, fragments: &Vec<LineFragment>, default_colors: &Colors) -> (r:
        Result<(), DrawError>)
        requires
            old(self).wf(),
        ensures
            final(self).wf(),
            r is Ok <==> (forall|i: int|
                0 <= i < fragments@.len() ==> #[trigger] fragment_resolvable(
                    fragments@[i],
                    *default_colors,
                )),
            r is Err ==> *final(self) == *old(self),
            final(self).id == old(self).id,
            final(self).hidden == old(self).hidden,
            final(self).floating_order == old(self).floating_order,
            final(self).grid_size == old(self).grid_size,
            final(self).position == old(self).position,
            final(self).scroll == old(self).scroll,
            final(self).viewport_top == old(self).viewport_top,
            final(self).viewport_bottom == old(self).viewport_bottom,
            final(self).scroll_region == old(self).scroll_region,
            final(self).scroll_cols == old(self).scroll_cols,
            r is Ok ==> {
                &&& final(self).content@.len() == old(self).content@.len() + fragments@.len()
                &&& (forall|i: int|
                    0 <= i < old(self).content@.len() ==> final(self).content@[i] == old(
                        self,
                    ).content@[i])
                &&& (forall|i: int|
                    0 <= i < fragments@.len() ==> run_matches_fragment(
                        #[trigger] final(self).content@[old(self).content@.len() + i],
                        fragments@[i],
                        *default_colors,
                        old(self).scroll@.current,
                    ))
            },
    {
        let mut k: usize = 0;
        while k < fragments.len()
            invariant
                old(self).wf(),
                *self == *old(self),
                k <= fragments@.len(),
                forall|j: int|
                    0 <= j < k ==> #[trigger] fragment_resolvable(fragments@[j], *default_colors),
            decreases fragments@.len() - k,
        {
            let f = &fragments[k];
            let resolvable = match &f.style {
                Some(s) => {
                    s.try_foreground(default_colors).is_some() && s.try_background(
                        default_colors,
                    ).is_some() && s.try_special(default_colors).is_some()
                },
                None => default_colors.foreground.is_some() && default_colors.background.is_some(),
            };
            if !resolvable {
                proof {
                    assert(!fragment_resolvable(fragments@[k as int], *default_colors));
                }
                return Err(DrawError::MissingDefaultColor);
            }
            proof {
                assert(fragment_resolvable(fragments@[k as int], *default_colors));
            }
            k = k + 1;
        }
        let scroll_current = self.scroll.current();
        let ghost base = self.content@.len();
        let mut k: usize = 0;
        while k < fragments.len()
            invariant
                old(self).wf(),
                k <= fragments@.len(),
                forall|j: int|
                    0 <= j < fragments@.len() ==> #[trigger] fragment_resolvable(
                        fragments@[j],
                        *default_colors,
                    ),
                coord_ok(scroll_current as int),
                scroll_current == old(self).scroll@.current,
                base == old(self).content@.len(),
                self.content@.len() == base + k,
                forall|j: int| 0 <= j < base ==> self.content@[j] == old(self).content@[j],
                forall|j: int|
                    0 <= j < k ==> run_matches_fragment(
                        #[trigger] self.content@[base + j],
                        fragments@[j],
                        *default_colors,
                        old(self).scroll@.current,
                    ),
                self.id == old(self).id,
                self.hidden == old(self).hidden,
                self.floating_order == old(self).floating_order,
                self.grid_size == old(self).grid_size,
                self.position == old(self).position,
                self.scroll == old(self).scroll,
                self.viewport_top == old(self).viewport_top,
                self.viewport_bottom == old(self).viewport_bottom,
                self.scroll_region == old(self).scroll_region,
                self.scroll_cols == old(self).scroll_cols,
            decreases fragments@.len() - k,
        {
            let f = &fragments[k];
            proof {
                assert(fragment_resolvable(fragments@[k as int], *default_colors));
            }
            let top = run_top(f.window_top, scroll_current);
            let run = match &f.style {
                Some(s) => {
                    let fg = s.try_foreground(default_colors).unwrap();
                    let bg = s.try_background(default_colors).unwrap();
                    let sp = s.try_special(default_colors).unwrap();
                    DrawnRun {
                        text: f.text.clone(),
                        left: f.window_left,
                        top,
                        width: f.width,
                        foreground: fg,
                        background: bg,
                        special: sp,
                        bold: s.bold,
                        italic: s.italic,
                        strikethrough: s.strikethrough,
                        underline: s.underline,
                        blend: s.blend,
                    }
                },
                None => {
                    let fg = default_colors.foreground.unwrap();
                    let bg = default_colors.background.unwrap();
                    DrawnRun {
                        text: f.text.clone(),
                        left: f.window_left,
                        top,
                        width: f.width,
                        foreground: fg,
                        background: bg,
                        special: fg,
                        bold: false,
                        italic: false,
                        strikethrough: false,
                        underline: None,
                        blend: 0,
                    }
                },
            };
            self.content.push(run);
            k = k + 1;
        }
        Ok(())
    }

    /// Advance both animations by one frame tick; returns whether any
    /// animation is still in flight, so the caller knows another frame
    /// is needed even without new content.
    pub fn advance(&mut self, dt_ms: u64, position_duration_ms: u64, scroll_duration_ms: u64) -> (
        in_flight: bool)
        requires
            old(self).wf(),
            1 <= position_duration_ms <= MAX_DURATION_MS,
            1 <= scroll_duration_ms <= MAX_DURATION_MS,
        ensures
            final(self).wf(),
            final(self).position.x@ == anim_step(
                old(self).position.x@,
                dt_ms as int,
                position_duration_ms as int,
            ),
            final(self).position.y@ == anim_step(
                old(self).position.y@,
                dt_ms as int,
                position_duration_ms as int,
            ),
            final(self).scroll@ == anim_step(
                old(self).scroll@,
                dt_ms as int,
                scroll_duration_ms as int,
            ),
            in_flight == (final(self).position.x@.animating || final(self).position.y@.animating
                || final(self).scroll@.animating),
            Self::same_bookkeeping(*old(self), *final(self)),
    {
        let position_moving = self.position.advance(dt_ms, position_duration_ms);
        let scroll_moving = self.scroll.advance(dt_ms, scroll_duration_ms);
        position_moving || scroll_moving
    }

    /// The rectangle this window occupies on the root surface right
    /// now: the current animated position scaled to pixels, sized by
    /// the grid dimensions.
    pub fn pixel_region(&self, metrics: &GridMetrics) -> (r: PixelRect)
        requires
            self.wf(),
            metrics.wf(),
        ensures
            r == self.pixel_region_spec(*metrics),
            region_in_range(r),
    {
        let (cx, cy) = self.position.current();
        let origin = metrics.grid_to_pixel(GridPoint { x: cx, y: cy });
        let size = metrics.to_pixel_dimensions(self.grid_size);
        proof {
            vstd::arithmetic::mul::lemma_mul_upper_bound(
                self.grid_size.width as int,
                MAX_GRID_CELLS as int,
                metrics.font_dimensions.width as int,
                MAX_CELL_PX as int,
            );
            vstd::arithmetic::mul::lemma_mul_upper_bound(
                self.grid_size.height as int,
                MAX_GRID_CELLS as int,
                metrics.font_dimensions.height as int,
                MAX_CELL_PX as int,
            );
            vstd::arithmetic::mul::lemma_mul_nonnegative(
                self.grid_size.width as int,
                metrics.font_dimensions.width as int,
            );
            vstd::arithmetic::mul::lemma_mul_nonnegative(
                self.grid_size.height as int,
                metrics.font_dimensions.height as int,
            );
        }
        PixelRect {
            left: origin.x,
            top: origin.y,
            width: (size.width as i64) * SUBUNIT,
            height: (size.height as i64) * SUBUNIT,
        }
    }

    /// Advance the animations and report where the window now stands:
    /// the per-frame drawing step for one window.
    pub fn draw(
        &mut self,
        metrics: &GridMetrics,
        dt_ms: u64,
        position_duration_ms: u64,
        scroll_duration_ms: u64,
    ) -> (r: (WindowDrawDetails, bool))
        requires
            old(self).wf(),
            metrics.wf(),
            1 <= position_duration_ms <= MAX_DURATION_MS,
            1 <= scroll_duration_ms <= MAX_DURATION_MS,
        ensures
            final(self).wf(),
            final(self).position.x@ == anim_step(
                old(self).position.x@,
                dt_ms as int,
                position_duration_ms as int,
            ),
            final(self).position.y@ == anim_step(
                old(self).position.y@,
                dt_ms as int,
                position_duration_ms as int,
            ),
            final(self).scroll@ == anim_step(
                old(self).scroll@,
                dt_ms as int,
                scroll_duration_ms as int,
            ),
            r.1 == (final(self).position.x@.animating || final(self).position.y@.animating
                || final(self).scroll@.animating),
            Self::same_bookkeeping(*old(self), *final(self)),
            r.0.id == old(self).id,
            r.0.floating_order == old(self).floating_order,
            r.0.region == final(self).pixel_region_spec(*metrics),
    {
        let in_flight = self.advance(dt_ms, position_duration_ms, scroll_duration_ms);
        let region = self.pixel_region(metrics);
        (WindowDrawDetails { id: self.id, region, floating_order: self.floating_order }, in_flight)
    }

    /// The rectangle `pixel_region` returns, as a spec-level value.
    pub open spec fn pixel_region_spec(&self, metrics: GridMetrics) -> PixelRect {
        PixelRect {
            left: grid_to_pixel_axis(
                self.position.x@.current,
                metrics.font_dimensions.width as int,
            ) as i64,
            top: grid_to_pixel_axis(
                self.position.y@.current,
                metrics.font_dimensions.height as int,
            ) as i64,
            width: (self.grid_size.width * metrics.font_dimensions.width * SUBUNIT) as i64,
            height: (self.grid_size.height * metrics.font_dimensions.height * SUBUNIT) as i64,
        }
    }

    /// The run that decides what the surface shows at row `row_sub`
    /// (subunits) and column `col`: the last one drawn over that point,
    /// since later draws overwrite earlier ones.
    pub fn top_run_at(&self, row_sub: i64, col: u64) -> (r: Option<usize>)
        ensures
            match r {
                Some(i) => {
                    &&& i < self.content@.len()
                    &&& run_covers(self.content@[i as int], row_sub as int, col as int)
                    &&& forall|j: int|
                        i < j < self.content@.len() ==> !run_covers(
                            #[trigger] self.content@[j],
                            row_sub as int,
                            col as int,
                        )
                },
                None => forall|j: int|
                    0 <= j < self.content@.len() ==> !run_covers(
                        #[trigger] self.content@[j],
                        row_sub as int,
                        col as int,
                    ),
            },
    {
        let mut best: Option<usize> = None;
        let mut i: usize = 0;
        while i < self.content.len()
            invariant
                i <= self.content@.len(),
                match best {
                    Some(b) => {
                        &&& b < i
                        &&& run_covers(self.content@[b as int], row_sub as int, col as int)
                        &&& forall|j: int|
                            b < j < i ==> !run_covers(
                                #[trigger] self.content@[j],
                                row_sub as int,
                                col as int,
                            )
                    },
                    None => forall|j: int|
                        0 <= j < i ==> !run_covers(
                            #[trigger] self.content@[j],
                            row_sub as int,
                            col as int,
                        ),
                },
            decreases self.content@.len() - i,
        {
            let run = &self.content[i];
            let horizontal = col >= run.left && col - run.left < run.width;
            let vertical = (row_sub as i128) >= (run.top as i128) && (row_sub as i128) - (
            run.top as i128) < (SUBUNIT as i128);
            if horizontal && vertical {
                best = Some(i);
            }
            i = i + 1;
        }
        best
    }
}

/// Compute `run_top_spec` for a commanded row and the current scroll.
fn run_top(window_top: u64, scroll_current: i64) -> (r: i64)
    requires
        coord_ok(scroll_current as int),
    ensures
        r == run_top_spec(window_top as int, scroll_current as int),
        coord_ok(r as int),
{
    let scaled: i128 = (window_top as i128) * 1000;
    let clamped: i64 = if scaled > COORD_LIMIT as i128 {
        COORD_LIMIT
    } else {
        scaled as i64
    };
    clamp_coord(clamped - scroll_current)
}

} // verus!
