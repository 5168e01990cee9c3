//! The compositor: it owns every window surface, routes draw commands,
//! advances all animations once per frame, and lays the visible windows
//! out in a deterministic draw order — base-layer windows by ascending
//! identifier, then floating windows by ascending z-index with ties
//! broken by identifier.

use vstd::multiset::Multiset;
use vstd::prelude::*;

use crate::animation::{anim_retarget, anim_step, pair_retarget};
use crate::metrics::{region_in_range, Dimensions, GridMetrics};
use crate::rendered_window::{
    fragment_resolvable, run_matches_fragment, DrawError, LineFragment, RenderedWindow,
    WindowDrawCommand, WindowDrawDetails,
};
use crate::style::{Colors, Style};
use crate::units::{clamp_add_cells, clamp_cells, clamp_cells_spec, clamp_coord, clamp_coord_spec,
    MAX_DURATION_MS, SUBUNIT};

verus! {

/// Per-frame rendering configuration, read once per frame by the
/// compositor and never mutated by it.  Durations are in milliseconds;
/// opacity and transparency are in thousandths.
#[derive(Clone, Copy, Debug, PartialEq)]
pub struct RendererSettings {
    pub position_animation_length_ms: u64,
    pub scroll_animation_length_ms: u64,
    pub floating_opacity_per_mille: u16,
    pub floating_blur: bool,
    pub floating_blur_amount_x_sub: u64,
    pub floating_blur_amount_y_sub: u64,
    pub transparency_per_mille: u16,
    pub debug_renderer: bool,
}

impl RendererSettings {
    /// Durations fit the animation engine and the blend factors are
    /// genuine fractions.
    pub open spec fn wf(&self) -> bool {
        &&& 1 <= self.position_animation_length_ms <= MAX_DURATION_MS
        &&& 1 <= self.scroll_animation_length_ms <= MAX_DURATION_MS
        &&& self.floating_opacity_per_mille <= 1000
        &&& self.transparency_per_mille <= 1000
    }
}

impl Default for RendererSettings {
    /// The stock configuration: a 150 ms position glide, a 300 ms
    /// scroll glide, softly translucent blurred floating windows over
    /// an opaque background.
    fn default() -> (r: Self)
        ensures
            r.wf(),
            r.position_animation_length_ms == 150,
            r.scroll_animation_length_ms == 300,
            r.floating_opacity_per_mille == 700,
            r.floating_blur,
            r.floating_blur_amount_x_sub == 2000,
            r.floating_blur_amount_y_sub == 2000,
            r.transparency_per_mille == 1000,
            !r.debug_renderer,
    {
        RendererSettings {
            position_animation_length_ms: 150,
            scroll_animation_length_ms: 300,
            floating_opacity_per_mille: 700,
            floating_blur: true,
            floating_blur_amount_x_sub: 2000,
            floating_blur_amount_y_sub: 2000,
            transparency_per_mille: 1000,
            debug_renderer: false,
        }
    }
}

/// The compositor-level command stream: window-level commands addressed
/// by identifier, window destruction, and default-style updates.
#[derive(Debug)]
pub enum DrawCommand {
    CloseWindow(u64),
    Window { grid_id: u64, command: WindowDrawCommand },
    DefaultStyleChanged(Style),
}

/// Identifiers strictly increase along the window list: each window
/// appears at most once and the base-layer draw order is fixed.
pub open spec fn sorted_ids(ws: Seq<RenderedWindow>) -> bool {
    forall|a: int, b: int| 0 <= a < b < ws.len() ==> ws[a].id < ws[b].id
}

/// Every window in the list is well-formed.
pub open spec fn all_wf(ws: Seq<RenderedWindow>) -> bool {
    forall|i: int| 0 <= i < ws.len() ==> (#[trigger] ws[i]).wf()
}

/// Whether some window in the list carries this identifier.
pub open spec fn has_id(ws: Seq<RenderedWindow>, id: u64) -> bool {
    exists|i: int| 0 <= i < ws.len() && ws[i].id == id
}

/// The index of the window carrying this identifier.
pub open spec fn id_index(ws: Seq<RenderedWindow>, id: u64) -> int {
    choose|i: int| 0 <= i < ws.len() && ws[i].id == id
}

/// In a list with strictly increasing identifiers, an identifier pins
/// down its index.
pub proof fn lemma_unique_id_index(ws: Seq<RenderedWindow>, i: int, j: int)
    requires
        sorted_ids(ws),
        0 <= i < ws.len(),
        0 <= j < ws.len(),
        ws[i].id == ws[j].id,
    ensures
        i == j,
{
    if i < j {
        assert(ws[i].id < ws[j].id);
    }
    if j < i {
        assert(ws[j].id < ws[i].id);
    }
}

/// The window list after a close: the window with this identifier is
/// removed; closing an unknown identifier changes nothing.
pub open spec fn close_spec(ws: Seq<RenderedWindow>, id: u64) -> Seq<RenderedWindow> {
    if has_id(ws, id) {
        ws.remove(id_index(ws, id))
    } else {
        ws
    }
}

/// Idempotent close: with unique identifiers, closing is a no-op on an
/// unknown identifier, and a second close right after a first one
/// changes nothing more.
pub proof fn lemma_idempotent_close(ws: Seq<RenderedWindow>, id: u64)
    requires
        sorted_ids(ws),
    ensures
        !has_id(ws, id) ==> close_spec(ws, id) == ws,
        close_spec(close_spec(ws, id), id) == close_spec(ws, id),
{
    if has_id(ws, id) {
        let i = id_index(ws, id);
        assert(0 <= i < ws.len() && ws[i].id == id);
        let cs = ws.remove(i);
        assert forall|j: int| 0 <= j < cs.len() implies cs[j].id != id by {
            if j < i {
                assert(cs[j] == ws[j]);
                if ws[j].id == id {
                    lemma_unique_id_index(ws, j, i);
                }
            } else {
                assert(cs[j] == ws[j + 1]);
                if ws[j + 1].id == id {
                    lemma_unique_id_index(ws, j + 1, i);
                }
            }
        }
        assert(!has_id(cs, id));
    }
}

/// Replacing one window by a well-formed successor with the same
/// identifier keeps the list well-formed.
pub proof fn lemma_update_keeps_wf(pre: Seq<RenderedWindow>, post: Seq<RenderedWindow>, i: int)
    requires
        sorted_ids(pre),
        all_wf(pre),
        0 <= i < pre.len(),
        post == pre.update(i, post[i]),
        post[i].id == pre[i].id,
        post[i].wf(),
    ensures
        sorted_ids(post),
        all_wf(post),
{
    assert forall|a: int, b: int| 0 <= a < b < post.len() implies post[a].id < post[b].id by {
        assert(pre[a].id < pre[b].id);
    }
    assert forall|k: int| 0 <= k < post.len() implies (#[trigger] post[k]).wf() by {
        if k != i {
            assert(post[k] == pre[k]);
        }
    }
}

/// Inserting a well-formed window between the identifiers around the
/// insertion point keeps the list well-formed.
pub proof fn lemma_insert_keeps_wf(pre: Seq<RenderedWindow>, post: Seq<RenderedWindow>, j: int)
    requires
        sorted_ids(pre),
        all_wf(pre),
        0 <= j <= pre.len(),
        post == pre.insert(j, post[j]),
        post[j].wf(),
        forall|k: int| 0 <= k < j ==> pre[k].id < post[j].id,
        forall|k: int| j <= k < pre.len() ==> pre[k].id > post[j].id,
    ensures
        sorted_ids(post),
        all_wf(post),
{
    assert forall|a: int, b: int| 0 <= a < b < post.len() implies post[a].id < post[b].id by {
        if a < j {
            assert(post[a] == pre[a]);
        }
        if b < j {
            assert(post[b] == pre[b]);
        }
        if a > j {
            assert(post[a] == pre[a - 1]);
        }
        if b > j {
            assert(post[b] == pre[b - 1]);
        }
    }
    assert forall|k: int| 0 <= k < post.len() implies (#[trigger] post[k]).wf() by {
        if k < j {
            assert(post[k] == pre[k]);
        } else if k > j {
            assert(post[k] == pre[k - 1]);
        }
    }
}

/// A state change of one window list entry: the entry carrying the
/// identifier is replaced by a `rel`-related successor and every other
/// window is untouched; an unknown identifier leaves the list as it is.
pub open spec fn windows_update_rel(
    pre: Seq<RenderedWindow>,
    post: Seq<RenderedWindow>,
    id: u64,
    rel: spec_fn(RenderedWindow, RenderedWindow) -> bool,
) -> bool {
    if has_id(pre, id) {
        let i = id_index(pre, id);
        post == pre.update(i, post[i]) && rel(pre[i], post[i])
    } else {
        post == pre
    }
}

/// A freshly created window as the `Position` command makes it: settled
/// at the commanded position with scroll zero, empty, visible, at the
/// commanded size and layer.
pub open spec fn fresh_window_rel(
    w: RenderedWindow,
    id: u64,
    px: int,
    py: int,
    size: Dimensions,
    floating_order: Option<u64>,
) -> bool {
    &&& w.wf()
    &&& w.id == id
    &&& !w.hidden
    &&& w.floating_order == floating_order
    &&& w.grid_size == size
    &&& w.content@.len() == 0
    &&& crate::animation::anim_converged(w.position.x@)
    &&& crate::animation::anim_converged(w.position.y@)
    &&& w.position.x@.current == px
    &&& w.position.y@.current == py
    &&& crate::animation::anim_converged(w.scroll@)
    &&& w.scroll@.current == 0
}

/// What a `Position` command does to an existing window: resize (and
/// discard content) only when the size changed, aim the position
/// animation, and adopt the commanded layer.
pub open spec fn position_applied_rel(
    a: RenderedWindow,
    b: RenderedWindow,
    px: int,
    py: int,
    size: Dimensions,
    floating_order: Option<u64>,
) -> bool {
    &&& b.grid_size == size
    &&& (size == a.grid_size ==> b.content == a.content)
    &&& (size != a.grid_size ==> b.content@.len() == 0)
    &&& (b.position.x@, b.position.y@) == pair_retarget(a.position.x@, a.position.y@, px, py)
    &&& b.floating_order == floating_order
    &&& b.scroll == a.scroll
    &&& b.id == a.id
    &&& b.hidden == a.hidden
    &&& b.viewport_top == a.viewport_top
    &&& b.viewport_bottom == a.viewport_bottom
    &&& b.scroll_region == a.scroll_region
    &&& b.scroll_cols == a.scroll_cols
}

/// Everything a command that only touches one named field leaves alone.
pub open spec fn same_but_flags(a: RenderedWindow, b: RenderedWindow) -> bool {
    &&& b.id == a.id
    &&& b.floating_order == a.floating_order
    &&& b.grid_size == a.grid_size
    &&& b.content == a.content
    &&& b.position == a.position
    &&& b.scroll == a.scroll
    &&& b.viewport_top == a.viewport_top
    &&& b.viewport_bottom == a.viewport_bottom
    &&& b.scroll_region == a.scroll_region
    &&& b.scroll_cols == a.scroll_cols
}

/// What a `Clear` command does: drop the content, keep everything
/// else — including both animations — as it was.
pub open spec fn cleared_rel(a: RenderedWindow, b: RenderedWindow) -> bool {
    &&& b.content@.len() == 0
    &&& b.id == a.id
    &&& b.hidden == a.hidden
    &&& b.floating_order == a.floating_order
    &&& b.grid_size == a.grid_size
    &&& b.position == a.position
    &&& b.scroll == a.scroll
    &&& b.viewport_top == a.viewport_top
    &&& b.viewport_bottom == a.viewport_bottom
    &&& b.scroll_region == a.scroll_region
    &&& b.scroll_cols == a.scroll_cols
}

/// What a `Viewport` command does: record the viewport bounds, touch
/// nothing else.
pub open spec fn viewport_rel(
    a: RenderedWindow,
    b: RenderedWindow,
    top_line: i64,
    bottom_line: i64,
) -> bool {
    &&& b.viewport_top == top_line
    &&& b.viewport_bottom == bottom_line
    &&& b.id == a.id
    &&& b.hidden == a.hidden
    &&& b.floating_order == a.floating_order
    &&& b.grid_size == a.grid_size
    &&& b.content == a.content
    &&& b.position == a.position
    &&& b.scroll == a.scroll
    &&& b.scroll_region == a.scroll_region
    &&& b.scroll_cols == a.scroll_cols
}

/// What a `Scroll` command does: aim the scroll animation at the old
/// destination moved by the commanded number of rows, and record the
/// commanded region and column delta for consumers that need them;
/// columns do not animate.
pub open spec fn scrolled_rel(
    a: RenderedWindow,
    b: RenderedWindow,
    top: u64,
    bottom: u64,
    left: u64,
    right: u64,
    rows: int,
    cols: i64,
) -> bool {
    &&& b.scroll@ == anim_retarget(a.scroll@, clamp_coord_spec(a.scroll@.destination + rows
        * SUBUNIT))
    &&& b.scroll_region == (top, bottom, left, right)
    &&& b.scroll_cols == cols
    &&& b.id == a.id
    &&& b.hidden == a.hidden
    &&& b.floating_order == a.floating_order
    &&& b.grid_size == a.grid_size
    &&& b.content == a.content
    &&& b.position == a.position
    &&& b.viewport_top == a.viewport_top
    &&& b.viewport_bottom == a.viewport_bottom
}

/// What `DrawLine` does on success: every fragment is rasterised onto
/// the end of the window's content, resolved against the defaults, at
/// its row adjusted by the scroll offset current at draw time.
pub open spec fn drawn_rel(
    a: RenderedWindow,
    b: RenderedWindow,
    fragments: Seq<LineFragment>,
    d: Colors,
) -> bool {
    &&& b.content@.len() == a.content@.len() + fragments.len()
    &&& (forall|i: int| 0 <= i < a.content@.len() ==> b.content@[i] == a.content@[i])
    &&& (forall|i: int|
        0 <= i < fragments.len() ==> run_matches_fragment(
            #[trigger] b.content@[a.content@.len() + i],
            fragments[i],
            d,
            a.scroll@.current,
        ))
    &&& b.id == a.id
    &&& b.hidden == a.hidden
    &&& b.floating_order == a.floating_order
    &&& b.grid_size == a.grid_size
    &&& b.position == a.position
    &&& b.scroll == a.scroll
    &&& b.viewport_top == a.viewport_top
    &&& b.viewport_bottom == a.viewport_bottom
    &&& b.scroll_region == a.scroll_region
    &&& b.scroll_cols == a.scroll_cols
}

/// Whether every fragment of a batch can be resolved against the
/// defaults.
pub open spec fn all_resolvable(fragments: Seq<LineFragment>, d: Colors) -> bool {
    forall|i: int| 0 <= i < fragments.len() ==> #[trigger] fragment_resolvable(fragments[i], d)
}

/// What the per-frame advance does to one window: both animations step
/// by the frame tick and nothing else moves.
pub open spec fn advance_rel(
    a: RenderedWindow,
    b: RenderedWindow,
    dt: int,
    position_duration: int,
    scroll_duration: int,
) -> bool {
    &&& b.position.x@ == anim_step(a.position.x@, dt, position_duration)
    &&& b.position.y@ == anim_step(a.position.y@, dt, position_duration)
    &&& b.scroll@ == anim_step(a.scroll@, dt, scroll_duration)
    &&& RenderedWindow::same_bookkeeping(a, b)
}

/// Whether any of the window's animations is still in flight.
pub open spec fn in_flight(w: RenderedWindow) -> bool {
    w.position.x@.animating || w.position.y@.animating || w.scroll@.animating
}

/// Whether a window takes part in compositing: not hidden, and not
/// collapsed to zero rows or columns.
pub open spec fn visible(w: RenderedWindow) -> bool {
    !w.hidden && w.grid_size.width > 0 && w.grid_size.height > 0
}

/// A visible base-layer (tiled) window.
pub open spec fn is_base(w: RenderedWindow) -> bool {
    visible(w) && w.floating_order is None
}

/// A visible floating window.
pub open spec fn is_floating(w: RenderedWindow) -> bool {
    visible(w) && w.floating_order is Some
}

/// The draw record one window contributes to a frame.
pub open spec fn details_of(w: RenderedWindow, m: GridMetrics) -> WindowDrawDetails {
    WindowDrawDetails {
        id: w.id,
        region: w.pixel_region_spec(m),
        floating_order: w.floating_order,
    }
}

/// The draw records of the base layer, in window-list (ascending
/// identifier) order.
pub open spec fn base_details(ws: Seq<RenderedWindow>, m: GridMetrics) -> Seq<WindowDrawDetails>
    decreases ws.len(),
{
    if ws.len() == 0 {
        Seq::empty()
    } else if is_base(ws.last()) {
        base_details(ws.drop_last(), m).push(details_of(ws.last(), m))
    } else {
        base_details(ws.drop_last(), m)
    }
}

/// Base-layer stacking is insertion-order independent: with the window
/// list in strictly increasing identifier order, the base-layer draw
/// records also come out in strictly increasing identifier order, so
/// the frame output is reproducible.
pub proof fn lemma_base_details_ordered(ws: Seq<RenderedWindow>, m: GridMetrics)
    requires
        sorted_ids(ws),
    ensures
        forall|i: int, j: int|
            0 <= i < j < base_details(ws, m).len() ==> (#[trigger] base_details(ws, m)[i]).id < (
            #[trigger] base_details(ws, m)[j]).id,
        ws.len() > 0 ==> forall|k: int|
            0 <= k < base_details(ws, m).len() ==> (#[trigger] base_details(ws, m)[k]).id
                <= ws.last().id,
    decreases ws.len(),
{
    if ws.len() > 0 {
        let rest = ws.drop_last();
        assert forall|a: int, b: int| 0 <= a < b < rest.len() implies rest[a].id < rest[b].id by {
            assert(ws[a].id < ws[b].id);
        }
        lemma_base_details_ordered(rest, m);
        if rest.len() > 0 {
            assert(rest.last() == ws[ws.len() - 2]);
            assert(rest.last().id < ws.last().id);
        }
    }
}

/// The draw records of the floating layer, in window-list order,
/// before sorting by z-index.
pub open spec fn float_details(ws: Seq<RenderedWindow>, m: GridMetrics) -> Seq<WindowDrawDetails>
    decreases ws.len(),
{
    if ws.len() == 0 {
        Seq::empty()
    } else if is_floating(ws.last()) {
        float_details(ws.drop_last(), m).push(details_of(ws.last(), m))
    } else {
        float_details(ws.drop_last(), m)
    }
}

/// The z-layer a draw record sorts by; base-layer records have no
/// z-index and never enter the floating sort.
pub open spec fn layer_z(d: WindowDrawDetails) -> int {
    match d.floating_order {
        Some(z) => z as int,
        None => 0,
    }
}

/// The floating draw order: ascending z-index, ties broken by
/// ascending identifier so equal layers stack deterministically.
pub open spec fn layer_le(a: WindowDrawDetails, b: WindowDrawDetails) -> bool {
    layer_z(a) < layer_z(b) || (layer_z(a) == layer_z(b) && a.id <= b.id)
}

/// Every pair of records stands in floating draw order.
pub open spec fn sorted_by_layer(s: Seq<WindowDrawDetails>) -> bool {
    forall|i: int, j: int| 0 <= i < j < s.len() ==> layer_le(#[trigger] s[i], #[trigger] s[j])
}

/// Whether `a` strictly precedes `b` in floating draw order.
fn layer_lt(a: &WindowDrawDetails, b: &WindowDrawDetails) -> (r: bool)
    ensures
        r == (layer_z(*a) < layer_z(*b) || (layer_z(*a) == layer_z(*b) && a.id < b.id)),
{
    let za: u64 = match a.floating_order {
        Some(z) => z,
        None => 0,
    };
    let zb: u64 = match b.floating_order {
        Some(z) => z,
        None => 0,
    };
    za < zb || (za == zb && a.id < b.id)
}

/// Selection sort of the floating layer by `(z-index, identifier)`:
/// the result is the unique ordering of the same records in floating
/// draw order.
fn sort_details_by_layer(v: &mut Vec<WindowDrawDetails>)
    ensures
        final(v)@.len() == old(v)@.len(),
        final(v)@.to_multiset() == old(v)@.to_multiset(),
        sorted_by_layer(final(v)@),
        forall|i: int| 0 <= i < final(v)@.len() ==> old(v)@.contains(#[trigger] final(v)@[i]),
{
    broadcast use vstd::seq_lib::to_multiset_build;
    broadcast use vstd::seq_lib::to_multiset_remove;
    broadcast use vstd::seq_lib::to_multiset_len;
    broadcast use vstd::seq_lib::to_multiset_contains;
    broadcast use vstd::multiset::group_multiset_axioms;

    let mut out: Vec<WindowDrawDetails> = Vec::new();
    while v.len() > 0
        invariant
            out@.to_multiset().add(v@.to_multiset()) == old(v)@.to_multiset(),
            sorted_by_layer(out@),
            forall|a: int, b: int|
                0 <= a < out@.len() && 0 <= b < v@.len() ==> layer_le(
                    #[trigger] out@[a],
                    #[trigger] v@[b],
                ),
        decreases v@.len(),
    {
        let mut m: usize = 0;
        let mut j: usize = 1;
        while j < v.len()
            invariant
                m < v@.len(),
                j <= v@.len(),
                forall|k: int| 0 <= k < j ==> layer_le(v@[m as int], #[trigger] v@[k]),
            decreases v@.len() - j,
        {
            if layer_lt(&v[j], &v[m]) {
                m = j;
            }
            j = j + 1;
        }
        let ghost pre_v = v@;
        let ghost pre_out = out@;
        let x = v.remove(m);
        out.push(x);
        proof {
            vstd::seq_lib::to_multiset_remove(pre_v, m as int);
            vstd::seq_lib::to_multiset_build(pre_out, x);
            assert(v@ == pre_v.remove(m as int));
            assert(v@.to_multiset() =~= pre_v.to_multiset().remove(x));
            assert(out@ == pre_out.push(x));
            assert(out@.to_multiset() =~= pre_out.to_multiset().insert(x));
            assert(out@.to_multiset().add(v@.to_multiset()) =~= pre_out.to_multiset().add(
                pre_v.to_multiset(),
            )) by {
                assert(pre_v.contains(x));
                vstd::seq_lib::to_multiset_contains(pre_v, x);
                broadcast use vstd::multiset::group_multiset_axioms;

            }
            assert forall|a: int, b: int|
                0 <= a < out@.len() && 0 <= b < v@.len() implies layer_le(
                #[trigger] out@[a],
                #[trigger] v@[b],
            ) by {
                let vb = if b < m {
                    b
                } else {
                    b + 1
                };
                assert(v@[b] == pre_v[vb]);
                if a < pre_out.len() {
                    assert(out@[a] == pre_out[a]);
                } else {
                    assert(out@[a] == x);
                }
            }
            assert forall|a: int, b: int|
                0 <= a < b < out@.len() implies layer_le(
                #[trigger] out@[a],
                #[trigger] out@[b],
            ) by {
                if b < pre_out.len() {
                } else {
                    assert(out@[b] == x);
                    assert(pre_v[m as int] == x);
                }
            }
        }
    }
    proof {
        assert(v@.to_multiset() =~= Multiset::empty());
        assert(out@.to_multiset() =~= old(v)@.to_multiset());
        vstd::seq_lib::to_multiset_len(out@);
        vstd::seq_lib::to_multiset_len(old(v)@);
    }
    let sorted = out;
    *v = sorted;
    proof {
        assert forall|i: int| 0 <= i < v@.len() implies old(v)@.contains(#[trigger] v@[i]) by {
            assert(v@.contains(v@[i]));
            vstd::seq_lib::to_multiset_contains(v@, v@[i]);
            vstd::seq_lib::to_multiset_contains(old(v)@, v@[i]);
        }
    }
}

/// What one command does to the compositor state: `aw`/`ac` are the
/// window list and default colours before, `bw`/`bc` after, and `r` is
/// the outcome the interpreter reports.
pub open spec fn command_rel(
    aw: Seq<RenderedWindow>,
    ac: Colors,
    bw: Seq<RenderedWindow>,
    bc: Colors,
    command: DrawCommand,
    r: Result<(), DrawError>,
) -> bool {
    match command {
        DrawCommand::CloseWindow(id) => {
            &&& r is Ok
            &&& bw == close_spec(aw, id)
            &&& bc == ac
        },
        DrawCommand::DefaultStyleChanged(style) => {
            &&& r is Ok
            &&& bc == style.colors
            &&& bw == aw
        },
        DrawCommand::Window { grid_id, command: wcmd } => {
            &&& bc == ac
            &&& match wcmd {
                WindowDrawCommand::Position { grid_position, grid_size, floating_order } => {
                    &&& r is Ok
                    &&& has_id(bw, grid_id)
                    &&& ({
                        let px = clamp_coord_spec(grid_position.0 as int);
                        let py = clamp_coord_spec(grid_position.1 as int);
                        let size = Dimensions {
                            width: clamp_cells_spec(grid_size.0 as int) as u64,
                            height: clamp_cells_spec(grid_size.1 as int) as u64,
                        };
                        if has_id(aw, grid_id) {
                            windows_update_rel(
                                aw,
                                bw,
                                grid_id,
                                |a: RenderedWindow, b: RenderedWindow|
                                    position_applied_rel(a, b, px, py, size, floating_order),
                            )
                        } else {
                            exists|k: int|
                                {
                                    &&& 0 <= k <= aw.len()
                                    &&& bw == aw.insert(k, bw[k])
                                    &&& fresh_window_rel(bw[k], grid_id, px, py, size, floating_order)
                                }
                        }
                    })
                },
                WindowDrawCommand::DrawLine(fragments) => {
                    &&& (r is Err <==> (has_id(aw, grid_id) && !all_resolvable(fragments@, ac)))
                    &&& windows_update_rel(
                        aw,
                        bw,
                        grid_id,
                        |a: RenderedWindow, b: RenderedWindow|
                            if all_resolvable(fragments@, ac) {
                                drawn_rel(a, b, fragments@, ac)
                            } else {
                                b == a
                            },
                    )
                },
                WindowDrawCommand::Scroll { top, bottom, left, right, rows, cols } => {
                    &&& r is Ok
                    &&& windows_update_rel(
                        aw,
                        bw,
                        grid_id,
                        |a: RenderedWindow, b: RenderedWindow|
                            scrolled_rel(a, b, top, bottom, left, right, rows as int, cols),
                    )
                },
                WindowDrawCommand::Clear => {
                    &&& r is Ok
                    &&& windows_update_rel(
                        aw,
                        bw,
                        grid_id,
                        |a: RenderedWindow, b: RenderedWindow| cleared_rel(a, b),
                    )
                },
                WindowDrawCommand::Show => {
                    &&& r is Ok
                    &&& windows_update_rel(
                        aw,
                        bw,
                        grid_id,
                        |a: RenderedWindow, b: RenderedWindow| !b.hidden && same_but_flags(a, b),
                    )
                },
                WindowDrawCommand::Hide => {
                    &&& r is Ok
                    &&& windows_update_rel(
                        aw,
                        bw,
                        grid_id,
                        |a: RenderedWindow, b: RenderedWindow| b.hidden && same_but_flags(a, b),
                    )
                },
                WindowDrawCommand::Close => {
                    &&& r is Ok
                    &&& bw == close_spec(aw, grid_id)
                },
                WindowDrawCommand::Viewport { top_line, bottom_line } => {
                    &&& r is Ok
                    &&& windows_update_rel(
                        aw,
                        bw,
                        grid_id,
                        |a: RenderedWindow, b: RenderedWindow|
                            viewport_rel(a, b, top_line, bottom_line),
                    )
                },
            }
        },
    }
}

/// What one batch does, applied strictly in arrival order: each
/// command transforms the state the previous one left; the first
/// error freezes the state and is reported, as a configuration error
/// is fatal to the whole frame.
pub open spec fn batch_rel(
    aw: Seq<RenderedWindow>,
    ac: Colors,
    bw: Seq<RenderedWindow>,
    bc: Colors,
    cmds: Seq<DrawCommand>,
    r: Result<(), DrawError>,
) -> bool
    decreases cmds.len(),
{
    if cmds.len() == 0 {
        bw == aw && bc == ac && r is Ok
    } else {
        exists|mw: Seq<RenderedWindow>, mc: Colors, r0: Result<(), DrawError>|
            {
                &&& #[trigger] command_rel(aw, ac, mw, mc, cmds[0], r0)
                &&& if r0 is Err {
                    bw == mw && bc == mc && r == r0
                } else {
                    batch_rel(mw, mc, bw, bc, cmds.drop_first(), r)
                }
            }
    }
}

/// A command chained onto an already-applied batch extends the batch
/// relation: on success by one more applied command, on failure by
/// freezing there, whatever commands would have followed.
proof fn lemma_batch_rel_snoc(
    aw: Seq<RenderedWindow>,
    ac: Colors,
    mw: Seq<RenderedWindow>,
    mc: Colors,
    bw: Seq<RenderedWindow>,
    bc: Colors,
    cmds: Seq<DrawCommand>,
    c: DrawCommand,
    r: Result<(), DrawError>,
    rest: Seq<DrawCommand>,
)
    requires
        batch_rel(aw, ac, mw, mc, cmds, Ok(())),
        command_rel(mw, mc, bw, bc, c, r),
    ensures
        r is Ok ==> batch_rel(aw, ac, bw, bc, cmds.push(c), Ok(())),
        r is Err ==> batch_rel(aw, ac, bw, bc, cmds.push(c) + rest, r),
    decreases cmds.len(),
{
    if cmds.len() == 0 {
        assert(mw == aw && mc == ac);
        if r is Ok {
            let target = cmds.push(c);
            assert(target[0] == c);
            assert(target.drop_first() =~= Seq::<DrawCommand>::empty());
            assert(command_rel(aw, ac, bw, bc, target[0], r));
            assert(batch_rel(bw, bc, bw, bc, target.drop_first(), Ok(())));
        } else {
            let target = cmds.push(c) + rest;
            assert(target[0] == c);
            assert(command_rel(aw, ac, bw, bc, target[0], r));
        }
    } else {
        let (m0w, m0c, r0) = choose|m0w: Seq<RenderedWindow>, m0c: Colors, r0: Result<
            (),
            DrawError,
        >|
            {
                &&& #[trigger] command_rel(aw, ac, m0w, m0c, cmds[0], r0)
                &&& if r0 is Err {
                    mw == m0w && mc == m0c && Ok::<(), DrawError>(()) == r0
                } else {
                    batch_rel(m0w, m0c, mw, mc, cmds.drop_first(), Ok(()))
                }
            };
        assert(r0 is Ok);
        lemma_batch_rel_snoc(m0w, m0c, mw, mc, bw, bc, cmds.drop_first(), c, r, rest);
        if r is Ok {
            let target = cmds.push(c);
            assert(target[0] == cmds[0]);
            assert(target.drop_first() =~= cmds.drop_first().push(c));
            assert(command_rel(aw, ac, m0w, m0c, target[0], r0));
            assert(batch_rel(m0w, m0c, bw, bc, target.drop_first(), Ok(())));
        } else {
            let target = cmds.push(c) + rest;
            assert(target[0] == cmds[0]);
            assert(target.drop_first() =~= cmds.drop_first().push(c) + rest);
            assert(command_rel(aw, ac, m0w, m0c, target[0], r0));
            assert(batch_rel(m0w, m0c, bw, bc, target.drop_first(), r));
        }
    }
}

/// The compositor: the window collection keyed by identifier, the cell
/// metrics, the default colours, and where each window was drawn last
/// frame.
pub struct Renderer {
    pub windows: Vec<RenderedWindow>,
    pub metrics: GridMetrics,
    pub default_colors: Colors,
    pub window_regions: Vec<WindowDrawDetails>,
}

impl Renderer {
    /// Well-formed compositor state: valid metrics, well-formed windows
    /// in strictly increasing identifier order, and in-range recorded
    /// regions.
    pub open spec fn wf(&self) -> bool {
        &&& self.metrics.wf()
        &&& all_wf(self.windows@)
        &&& sorted_ids(self.windows@)
        &&& forall|i: int|
            0 <= i < self.window_regions@.len() ==> region_in_range(
                (#[trigger] self.window_regions@[i]).region,
            )
    }

    /// Whether a window with this identifier currently exists.
    pub open spec fn has_window(&self, id: u64) -> bool {
        has_id(self.windows@, id)
    }

    /// An empty compositor over the given cell metrics.
    pub fn new(metrics: GridMetrics) -> (r: Renderer)
        requires
            metrics.wf(),
        ensures
            r.wf(),
            r.windows@.len() == 0,
            r.metrics == metrics,
            r.default_colors == (Colors { foreground: None, background: None, special: None }),
            r.window_regions@.len() == 0,
    {
        Renderer {
            windows: Vec::new(),
            metrics,
            default_colors: Colors { foreground: None, background: None, special: None },
            window_regions: Vec::new(),
        }
    }

    /// The index of the window with this identifier, if it exists.
    fn find_window(&self, id: u64) -> (r: Option<usize>)
        ensures
            match r {
                Some(i) => i < self.windows@.len() && self.windows@[i as int].id == id,
                None => !self.has_window(id),
            },
    {
        let mut i: usize = 0;
        while i < self.windows.len()
            invariant
                i <= self.windows@.len(),
                forall|j: int| 0 <= j < i ==> self.windows@[j].id != id,
            decreases self.windows@.len() - i,
        {
            if self.windows[i].id == id {
                return Some(i);
            }
            i = i + 1;
        }
        None
    }

    /// Destroy the window with this identifier and release its surface;
    /// an unknown identifier is a no-op, so a close may race a close.
    pub fn close_window(&mut self, id: u64)
        requires
            old(self).wf(),
        ensures
            final(self).wf(),
            final(self).windows@ == close_spec(old(self).windows@, id),
            !final(self).has_window(id),
            final(self).metrics == old(self).metrics,
            final(self).default_colors == old(self).default_colors,
            final(self).window_regions == old(self).window_regions,
    {
        let found = self.find_window(id);
        match found {
            None => {
                proof {
                    assert(!has_id(self.windows@, id));
                }
            },
            Some(i) => {
                let ghost pre = self.windows@;
                self.windows.remove(i);
                proof {
                    lemma_unique_id_index(pre, i as int, id_index(pre, id));
                    assert(self.windows@ == close_spec(pre, id));
                    assert forall|a: int, b: int|
                        0 <= a < b < self.windows@.len() implies self.windows@[a].id
                        < self.windows@[b].id by {
                        if b < i {
                        } else if a < i {
                            assert(self.windows@[b] == pre[b + 1]);
                        } else {
                            assert(self.windows@[a] == pre[a + 1]);
                            assert(self.windows@[b] == pre[b + 1]);
                        }
                    }
                    assert forall|k: int| 0 <= k < self.windows@.len() implies (
                    #[trigger] self.windows@[k]).wf() by {
                        if k < i {
                        } else {
                            assert(self.windows@[k] == pre[k + 1]);
                        }
                    }
                    lemma_idempotent_close(pre, id);
                }
            },
        }
    }

    /// Adopt a new default style; its colours become the fallback for
    /// every later draw.
    pub fn set_default_style(&mut self, style: &Style)
        requires
            old(self).wf(),
        ensures
            final(self).wf(),
            final(self).default_colors == style.colors,
            final(self).windows == old(self).windows,
            final(self).metrics == old(self).metrics,
            final(self).window_regions == old(self).window_regions,
    {
        self.default_colors = style.colors;
    }

    /// Route a `Position` command: create the window if the identifier
    /// is new — settled at the commanded spot, so it does not animate
    /// in from anywhere — otherwise resize if needed and aim its
    /// position animation.  Geometry is clamped, never rejected.
    pub fn position_window(
        &mut self,
        grid_id: u64,
        grid_position: (i64, i64),
        grid_size: (u64, u64),
        floating_order: Option<u64>,
    )
        requires
            old(self).wf(),
        ensures
            final(self).wf(),
            final(self).metrics == old(self).metrics,
            final(self).default_colors == old(self).default_colors,
            final(self).window_regions == old(self).window_regions,
            final(self).has_window(grid_id),
            ({
                let px = clamp_coord_spec(grid_position.0 as int);
                let py = clamp_coord_spec(grid_position.1 as int);
                let size = Dimensions {
                    width: clamp_cells_spec(grid_size.0 as int) as u64,
                    height: clamp_cells_spec(grid_size.1 as int) as u64,
                };
                if old(self).has_window(grid_id) {
                    windows_update_rel(
                        old(self).windows@,
                        final(self).windows@,
                        grid_id,
                        |a: RenderedWindow, b: RenderedWindow|
                            position_applied_rel(a, b, px, py, size, floating_order),
                    )
                } else {
                    exists|k: int|
                        {
                            &&& 0 <= k <= old(self).windows@.len()
                            &&& final(self).windows@ == old(self).windows@.insert(
                                k,
                                final(self).windows@[k],
                            )
                            &&& fresh_window_rel(
                                final(self).windows@[k],
                                grid_id,
                                px,
                                py,
                                size,
                                floating_order,
                            )
                        }
                }
            }),
    {
        let px = clamp_coord(grid_position.0);
        let py = clamp_coord(grid_position.1);
        let size = Dimensions {
            width: clamp_cells(grid_size.0),
            height: clamp_cells(grid_size.1),
        };
        let found = self.find_window(grid_id);
        match found {
            Some(i) => {
                let ghost pre = self.windows@;
                let w = &mut self.windows[i];
                w.apply_position(px, py, size, floating_order);
                proof {
                    assert(pre[i as int].id == grid_id);
                    lemma_unique_id_index(pre, i as int, id_index(pre, grid_id));
                    lemma_update_keeps_wf(pre, self.windows@, i as int);
                    assert(self.windows@[i as int].id == grid_id);
                }
            },
            None => {
                let ghost pre = self.windows@;
                let mut j: usize = 0;
                while j < self.windows.len() && self.windows[j].id < grid_id
                    invariant
                        *self == *old(self),
                        j <= self.windows@.len(),
                        forall|k: int| 0 <= k < j ==> self.windows@[k].id < grid_id,
                    decreases self.windows@.len() - j,
                {
                    j = j + 1;
                }
                proof {
                    assert forall|k: int|
                        j <= k < self.windows@.len() implies self.windows@[k].id > grid_id by {
                        if k == j {
                            assert(self.windows@[k].id != grid_id);
                        } else {
                            assert(self.windows@[j as int].id < self.windows@[k].id);
                            assert(self.windows@[j as int].id != grid_id);
                        }
                    }
                }
                let mut w = crate::rendered_window::RenderedWindow::new(
                    grid_id,
                    crate::metrics::GridPoint { x: px, y: py },
                    size,
                );
                w.floating_order = floating_order;
                self.windows.insert(j, w);
                proof {
                    lemma_insert_keeps_wf(pre, self.windows@, j as int);
                    assert(self.windows@[j as int].id == grid_id);
                }
            },
        }
    }

    /// Route a `DrawLine` command: rasterise the fragments onto the
    /// addressed window.  A stale identifier is silently ignored — a
    /// draw may race a close — and a missing fallback colour is the
    /// one fatal error.
    pub fn draw_line_to_window(&mut self, grid_id: u64, fragments: &Vec<LineFragment>) -> (r:
        Result<(), DrawError>)
        requires
            old(self).wf(),
        ensures
            final(self).wf(),
            final(self).metrics == old(self).metrics,
            final(self).default_colors == old(self).default_colors,
            final(self).window_regions == old(self).window_regions,
            r is Err <==> (old(self).has_window(grid_id) && !all_resolvable(
                fragments@,
                old(self).default_colors,
            )),
            ({
                let dc = old(self).default_colors;
                windows_update_rel(
                    old(self).windows@,
                    final(self).windows@,
                    grid_id,
                    |a: RenderedWindow, b: RenderedWindow|
                        if all_resolvable(fragments@, dc) {
                            drawn_rel(a, b, fragments@, dc)
                        } else {
                            b == a
                        },
                )
            }),
    {
        let found = self.find_window(grid_id);
        match found {
            None => Ok(()),
            Some(i) => {
                let ghost pre = self.windows@;
                let dc = self.default_colors;
                let w = &mut self.windows[i];
                let res = w.draw_line(fragments, &dc);
                proof {
                    assert(pre[i as int].id == grid_id);
                    lemma_unique_id_index(pre, i as int, id_index(pre, grid_id));
                    lemma_update_keeps_wf(pre, self.windows@, i as int);
                    if res is Err {
                        assert(self.windows@ =~= pre);
                    }
                }
                res
            },
        }
    }

    /// Route a `Scroll` command: move the scroll destination by the
    /// commanded rows — animated — and record the region and column
    /// delta; a stale identifier is ignored.
    pub fn scroll_window(
        &mut self,
        grid_id: u64,
        top: u64,
        bottom: u64,
        left: u64,
        right: u64,
        rows: i64,
        cols: i64,
    )
        requires
            old(self).wf(),
        ensures
            final(self).wf(),
            final(self).metrics == old(self).metrics,
            final(self).default_colors == old(self).default_colors,
            final(self).window_regions == old(self).window_regions,
            windows_update_rel(
                old(self).windows@,
                final(self).windows@,
                grid_id,
                |a: RenderedWindow, b: RenderedWindow|
                    scrolled_rel(a, b, top, bottom, left, right, rows as int, cols),
            ),
    {
        let found = self.find_window(grid_id);
        match found {
            None => (),
            Some(i) => {
                let ghost pre = self.windows@;
                let w = &mut self.windows[i];
                let dest = w.scroll.destination();
                let nd = clamp_add_cells(dest, rows);
                w.set_destination_scroll(nd);
                w.scroll_region = (top, bottom, left, right);
                w.scroll_cols = cols;
                proof {
                    assert(pre[i as int].id == grid_id);
                    lemma_unique_id_index(pre, i as int, id_index(pre, grid_id));
                    lemma_update_keeps_wf(pre, self.windows@, i as int);
                }
            },
        }
    }

    /// Route a `Clear` command: drop the window's visible content
    /// without touching its animations; a stale identifier is ignored.
    pub fn clear_window(&mut self, grid_id: u64)
        requires
            old(self).wf(),
        ensures
            final(self).wf(),
            final(self).metrics == old(self).metrics,
            final(self).default_colors == old(self).default_colors,
            final(self).window_regions == old(self).window_regions,
            windows_update_rel(
                old(self).windows@,
                final(self).windows@,
                grid_id,
                |a: RenderedWindow, b: RenderedWindow| cleared_rel(a, b),
            ),
    {
        let found = self.find_window(grid_id);
        match found {
            None => (),
            Some(i) => {
                let ghost pre = self.windows@;
                let w = &mut self.windows[i];
                w.clear();
                proof {
                    assert(pre[i as int].id == grid_id);
                    lemma_unique_id_index(pre, i as int, id_index(pre, grid_id));
                    lemma_update_keeps_wf(pre, self.windows@, i as int);
                }
            },
        }
    }

    /// Route a `Show` or `Hide` command: set the hidden flag; the
    /// surface and animations are retained, so re-showing costs
    /// nothing; a stale identifier is ignored.
    pub fn set_window_hidden(&mut self, grid_id: u64, hidden: bool)
        requires
            old(self).wf(),
        ensures
            final(self).wf(),
            final(self).metrics == old(self).metrics,
            final(self).default_colors == old(self).default_colors,
            final(self).window_regions == old(self).window_regions,
            windows_update_rel(
                old(self).windows@,
                final(self).windows@,
                grid_id,
                |a: RenderedWindow, b: RenderedWindow| b.hidden == hidden && same_but_flags(a, b),
            ),
    {
        let found = self.find_window(grid_id);
        match found {
            None => (),
            Some(i) => {
                let ghost pre = self.windows@;
                let w = &mut self.windows[i];
                w.hidden = hidden;
                proof {
                    assert(pre[i as int].id == grid_id);
                    lemma_unique_id_index(pre, i as int, id_index(pre, grid_id));
                    lemma_update_keeps_wf(pre, self.windows@, i as int);
                }
            },
        }
    }

    /// Route a `Viewport` command: record the viewport bounds for
    /// consumers outside the compositor; nothing else changes and a
    /// stale identifier is ignored.
    pub fn set_window_viewport(&mut self, grid_id: u64, top_line: i64, bottom_line: i64)
        requires
            old(self).wf(),
        ensures
            final(self).wf(),
            final(self).metrics == old(self).metrics,
            final(self).default_colors == old(self).default_colors,
            final(self).window_regions == old(self).window_regions,
            windows_update_rel(
                old(self).windows@,
                final(self).windows@,
                grid_id,
                |a: RenderedWindow, b: RenderedWindow| viewport_rel(a, b, top_line, bottom_line),
            ),
    {
        let found = self.find_window(grid_id);
        match found {
            None => (),
            Some(i) => {
                let ghost pre = self.windows@;
                let w = &mut self.windows[i];
                w.viewport_top = top_line;
                w.viewport_bottom = bottom_line;
                proof {
                    assert(pre[i as int].id == grid_id);
                    lemma_unique_id_index(pre, i as int, id_index(pre, grid_id));
                    lemma_update_keeps_wf(pre, self.windows@, i as int);
                }
            },
        }
    }

    /// Consume one frame's batch of draw commands, applying them
    /// strictly in arrival order — so a `Position` followed by a
    /// `DrawLine` in the same batch always resizes before drawing.
    /// The first configuration error stops the batch and is reported
    /// to the caller, which decides whether to abort or skip the frame.
    pub fn apply_commands(&mut self, batch: Vec<DrawCommand>) -> (r: Result<(), DrawError>)
        requires
            old(self).wf(),
        ensures
            final(self).wf(),
            final(self).metrics == old(self).metrics,
            final(self).window_regions == old(self).window_regions,
            batch_rel(
                old(self).windows@,
                old(self).default_colors,
                final(self).windows@,
                final(self).default_colors,
                batch@,
                r,
            ),
    {
        let ghost all = batch@;
        let mut rest = batch;
        let total: usize = rest.len();
        let mut k: usize = 0;
        while rest.len() > 0
            invariant
                old(self).wf(),
                self.wf(),
                self.metrics == old(self).metrics,
                self.window_regions == old(self).window_regions,
                all == batch@,
                all.len() == total,
                k <= all.len(),
                rest@ == all.skip(k as int),
                rest@.len() == all.len() - k,
                batch_rel(
                    old(self).windows@,
                    old(self).default_colors,
                    self.windows@,
                    self.default_colors,
                    all.take(k as int),
                    Ok(()),
                ),
            decreases rest@.len(),
        {
            let ghost pre_rest = rest@;
            let cmd = rest.remove(0);
            proof {
                assert(pre_rest[0] == all[k as int]);
                assert(rest@ =~= all.skip(k as int + 1));
            }
            let ghost mw = self.windows@;
            let ghost mc = self.default_colors;
            let res = self.handle_draw_command(cmd);
            proof {
                lemma_batch_rel_snoc(
                    old(self).windows@,
                    old(self).default_colors,
                    mw,
                    mc,
                    self.windows@,
                    self.default_colors,
                    all.take(k as int),
                    all[k as int],
                    res,
                    all.skip(k as int + 1),
                );
                assert(all.take(k as int).push(all[k as int]) =~= all.take(k as int + 1));
                assert(all.take(k as int).push(all[k as int]) + all.skip(k as int + 1) =~= all);
            }
            if res.is_err() {
                return res;
            }
            k = k + 1;
        }
        proof {
            assert(all.take(k as int) =~= all);
        }
        Ok(())
    }

    /// Route one command from the per-frame batch to the window or
    /// compositor bookkeeping it addresses.  Only a `DrawLine` against
    /// missing default colours can fail; a command addressed to an
    /// unknown window — other than `Position`, which creates one — is
    /// silently ignored.
    pub fn handle_draw_command(&mut self, command: DrawCommand) -> (r: Result<(), DrawError>)
        requires
            old(self).wf(),
        ensures
            final(self).wf(),
            final(self).metrics == old(self).metrics,
            final(self).window_regions == old(self).window_regions,
            command_rel(
                old(self).windows@,
                old(self).default_colors,
                final(self).windows@,
                final(self).default_colors,
                command,
                r,
            ),
    {
        match command {
            DrawCommand::CloseWindow(id) => {
                self.close_window(id);
                Ok(())
            },
            DrawCommand::DefaultStyleChanged(style) => {
                self.set_default_style(&style);
                Ok(())
            },
            DrawCommand::Window { grid_id, command: wcmd } => match wcmd {
                WindowDrawCommand::Position { grid_position, grid_size, floating_order } => {
                    self.position_window(grid_id, grid_position, grid_size, floating_order);
                    Ok(())
                },
                WindowDrawCommand::DrawLine(fragments) => {
                    self.draw_line_to_window(grid_id, &fragments)
                },
                WindowDrawCommand::Scroll { top, bottom, left, right, rows, cols } => {
                    self.scroll_window(grid_id, top, bottom, left, right, rows, cols);
                    Ok(())
                },
                WindowDrawCommand::Clear => {
                    self.clear_window(grid_id);
                    Ok(())
                },
                WindowDrawCommand::Show => {
                    self.set_window_hidden(grid_id, false);
                    Ok(())
                },
                WindowDrawCommand::Hide => {
                    self.set_window_hidden(grid_id, true);
                    Ok(())
                },
                WindowDrawCommand::Close => {
                    self.close_window(grid_id);
                    Ok(())
                },
                WindowDrawCommand::Viewport { top_line, bottom_line } => {
                    self.set_window_viewport(grid_id, top_line, bottom_line);
                    Ok(())
                },
            },
        }
    }

    /// Advance every window's animations by the frame tick and lay the
    /// visible windows out in draw order: base-layer windows first, by
    /// ascending identifier, then floating windows by ascending
    /// z-index with ties broken by identifier.  The draw records are
    /// kept in `window_regions` for hit-testing; the result says
    /// whether any animation is still in flight, so the caller knows to
    /// schedule another frame.
    pub fn draw_frame(&mut self, dt_ms: u64, settings: &RendererSettings) -> (animating: bool)
        requires
            old(self).wf(),
            settings.wf(),
        ensures
            final(self).wf(),
            final(self).metrics == old(self).metrics,
            final(self).default_colors == old(self).default_colors,
            final(self).windows@.len() == old(self).windows@.len(),
            forall|i: int|
                0 <= i < old(self).windows@.len() ==> advance_rel(
                    old(self).windows@[i],
                    #[trigger] final(self).windows@[i],
                    dt_ms as int,
                    settings.position_animation_length_ms as int,
                    settings.scroll_animation_length_ms as int,
                ),
            animating == exists|i: int|
                0 <= i < final(self).windows@.len() && in_flight(#[trigger] final(self).windows@[i]),
            exists|fl: Seq<WindowDrawDetails>|
                {
                    &&& final(self).window_regions@ == base_details(
                        final(self).windows@,
                        old(self).metrics,
                    ) + fl
                    &&& fl.to_multiset() == float_details(
                        final(self).windows@,
                        old(self).metrics,
                    ).to_multiset()
                    &&& sorted_by_layer(fl)
                },
    {
        let mut animating = false;
        let mut i: usize = 0;
        while i < self.windows.len()
            invariant
                old(self).wf(),
                settings.wf(),
                i <= self.windows@.len(),
                self.windows@.len() == old(self).windows@.len(),
                self.metrics == old(self).metrics,
                self.default_colors == old(self).default_colors,
                self.window_regions == old(self).window_regions,
                forall|j: int|
                    i <= j < self.windows@.len() ==> self.windows@[j] == old(self).windows@[j],
                forall|j: int|
                    0 <= j < i ==> advance_rel(
                        old(self).windows@[j],
                        #[trigger] self.windows@[j],
                        dt_ms as int,
                        settings.position_animation_length_ms as int,
                        settings.scroll_animation_length_ms as int,
                    ) && self.windows@[j].wf(),
                animating == exists|j: int| 0 <= j < i && in_flight(#[trigger] self.windows@[j]),
            decreases self.windows@.len() - i,
        {
            proof {
                assert(old(self).windows@[i as int].wf());
            }
            let ghost pre_ws = self.windows@;
            let ghost was_animating = animating;
            let w = &mut self.windows[i];
            let moving = w.advance(
                dt_ms,
                settings.position_animation_length_ms,
                settings.scroll_animation_length_ms,
            );
            animating = animating || moving;
            proof {
                if was_animating {
                    let j0 = choose|j0: int| 0 <= j0 < i && in_flight(#[trigger] pre_ws[j0]);
                    assert(self.windows@[j0] == pre_ws[j0]);
                    assert(in_flight(self.windows@[j0]));
                }
                if moving {
                    assert(in_flight(self.windows@[i as int]));
                }
                if !was_animating && !moving {
                    assert forall|j: int|
                        0 <= j < i + 1 implies !in_flight(#[trigger] self.windows@[j]) by {
                        if j < i {
                            assert(self.windows@[j] == pre_ws[j]);
                        }
                    }
                }
            }
            i = i + 1;
        }
        proof {
            assert forall|a: int, b: int|
                0 <= a < b < self.windows@.len() implies self.windows@[a].id
                < self.windows@[b].id by {
                assert(old(self).windows@[a].id < old(self).windows@[b].id);
            }
        }
        let m = self.metrics;
        let ghost ws = self.windows@;
        let mut details: Vec<WindowDrawDetails> = Vec::new();
        let mut i: usize = 0;
        while i < self.windows.len()
            invariant
                i <= self.windows@.len(),
                self.windows@ == ws,
                all_wf(ws),
                m.wf(),
                m == self.metrics,
                details@ == base_details(ws.take(i as int), m),
                forall|k: int|
                    0 <= k < details@.len() ==> region_in_range(
                        (#[trigger] details@[k]).region,
                    ),
            decreases self.windows@.len() - i,
        {
            let w = &self.windows[i];
            proof {
                assert(ws[i as int].wf());
            }
            if !w.hidden && w.grid_size.width > 0 && w.grid_size.height > 0
                && w.floating_order.is_none() {
                let region = w.pixel_region(&m);
                details.push(
                    WindowDrawDetails { id: w.id, region, floating_order: w.floating_order },
                );
            }
            proof {
                assert(ws.take(i as int + 1).drop_last() =~= ws.take(i as int));
                assert(ws.take(i as int + 1).last() == ws[i as int]);
            }
            i = i + 1;
        }
        proof {
            assert(ws.take(ws.len() as int) =~= ws);
        }
        let mut floats: Vec<WindowDrawDetails> = Vec::new();
        let mut i: usize = 0;
        while i < self.windows.len()
            invariant
                i <= self.windows@.len(),
                self.windows@ == ws,
                all_wf(ws),
                m.wf(),
                m == self.metrics,
                floats@ == float_details(ws.take(i as int), m),
                forall|k: int|
                    0 <= k < floats@.len() ==> region_in_range((#[trigger] floats@[k]).region),
            decreases self.windows@.len() - i,
        {
            let w = &self.windows[i];
            proof {
                assert(ws[i as int].wf());
            }
            if !w.hidden && w.grid_size.width > 0 && w.grid_size.height > 0
                && w.floating_order.is_some() {
                let region = w.pixel_region(&m);
                floats.push(
                    WindowDrawDetails { id: w.id, region, floating_order: w.floating_order },
                );
            }
            proof {
                assert(ws.take(i as int + 1).drop_last() =~= ws.take(i as int));
                assert(ws.take(i as int + 1).last() == ws[i as int]);
            }
            i = i + 1;
        }
        proof {
            assert(ws.take(ws.len() as int) =~= ws);
        }
        let ghost floats_pre_sort = floats@;
        sort_details_by_layer(&mut floats);
        proof {
            assert forall|k: int| 0 <= k < floats@.len() implies region_in_range(
                (#[trigger] floats@[k]).region,
            ) by {
                assert(floats_pre_sort.contains(floats@[k]));
                let jj = choose|jj: int|
                    0 <= jj < floats_pre_sort.len() && floats_pre_sort[jj] == floats@[k];
                assert(region_in_range(floats_pre_sort[jj].region));
            }
        }
        let ghost base_part = details@;
        let mut j: usize = 0;
        while j < floats.len()
            invariant
                j <= floats@.len(),
                details@ == base_part + floats@.subrange(0, j as int),
                forall|k: int|
                    0 <= k < details@.len() ==> region_in_range(
                        (#[trigger] details@[k]).region,
                    ),
                forall|k: int|
                    0 <= k < floats@.len() ==> region_in_range((#[trigger] floats@[k]).region),
            decreases floats@.len() - j,
        {
            let d = floats[j];
            details.push(d);
            proof {
                assert(floats@.subrange(0, j as int + 1) =~= floats@.subrange(0, j as int).push(
                    floats@[j as int],
                ));
                assert(base_part + floats@.subrange(0, j as int).push(floats@[j as int]) =~= (
                base_part + floats@.subrange(0, j as int)).push(floats@[j as int]));
            }
            j = j + 1;
        }
        proof {
            assert(floats@.subrange(0, floats@.len() as int) =~= floats@);
        }
        self.window_regions = details;
        proof {
            let fl = floats@;
            assert(self.window_regions@ == base_details(self.windows@, old(self).metrics) + fl);
            assert(fl.to_multiset() == float_details(self.windows@, old(self).metrics).to_multiset());
            assert(sorted_by_layer(fl));
        }
        animating
    }

    /// The window drawn topmost at a root-surface point, as an index
    /// into `window_regions`: the last record in draw order whose
    /// region contains the point, since later draws cover earlier
    /// ones.  `None` means the point shows the bare root background.
    pub fn hit_test(&self, x: i64, y: i64) -> (r: Option<usize>)
        requires
            self.wf(),
        ensures
            match r {
                Some(i) => {
                    &&& i < self.window_regions@.len()
                    &&& self.window_regions@[i as int].region.contains_spec(x as int, y as int)
                    &&& forall|j: int|
                        i < j < self.window_regions@.len() ==> !(
                        #[trigger] self.window_regions@[j]).region.contains_spec(
                            x as int,
                            y as int,
                        )
                },
                None => forall|j: int|
                    0 <= j < self.window_regions@.len() ==> !(
                    #[trigger] self.window_regions@[j]).region.contains_spec(x as int, y as int),
            },
    {
        let mut best: Option<usize> = None;
        let mut i: usize = 0;
        while i < self.window_regions.len()
            invariant
                self.wf(),
                i <= self.window_regions@.len(),
                match best {
                    Some(b) => {
                        &&& b < i
                        &&& self.window_regions@[b as int].region.contains_spec(x as int, y as int)
                        &&& forall|j: int|
                            b < j < i ==> !(
                            #[trigger] self.window_regions@[j]).region.contains_spec(
                                x as int,
                                y as int,
                            )
                    },
                    None => forall|j: int|
                        0 <= j < i ==> !(#[trigger] self.window_regions@[j]).region.contains_spec(
                            x as int,
                            y as int,
                        ),
                },
            decreases self.window_regions@.len() - i,
        {
            let d = &self.window_regions[i];
            proof {
                assert(region_in_range(self.window_regions@[i as int].region));
            }
            if d.region.contains(x, y) {
                best = Some(i);
            }
            i = i + 1;
        }
        best
    }

    /// Adopt new cell metrics after a font or scale change: every
    /// surface is reallocated at the new metrics, so stale content
    /// rendered for the old cell size is discarded.
    pub fn handle_metrics_change(&mut self, metrics: GridMetrics)
        requires
            old(self).wf(),
            metrics.wf(),
        ensures
            final(self).wf(),
            final(self).metrics == metrics,
            final(self).windows@.len() == old(self).windows@.len(),
            forall|i: int|
                0 <= i < old(self).windows@.len() ==> {
                    &&& (#[trigger] final(self).windows@[i]).content@.len() == 0
                    &&& final(self).windows@[i].grid_size == old(self).windows@[i].grid_size
                    &&& final(self).windows@[i].id == old(self).windows@[i].id
                    &&& final(self).windows@[i].hidden == old(self).windows@[i].hidden
                    &&& final(self).windows@[i].floating_order == old(
                        self,
                    ).windows@[i].floating_order
                    &&& final(self).windows@[i].position == old(self).windows@[i].position
                    &&& final(self).windows@[i].scroll == old(self).windows@[i].scroll
                    &&& final(self).windows@[i].viewport_top == old(self).windows@[i].viewport_top
                    &&& final(self).windows@[i].viewport_bottom == old(
                        self,
                    ).windows@[i].viewport_bottom
                    &&& final(self).windows@[i].scroll_region == old(
                        self,
                    ).windows@[i].scroll_region
                    &&& final(self).windows@[i].scroll_cols == old(self).windows@[i].scroll_cols
                },
            final(self).default_colors == old(self).default_colors,
            final(self).window_regions == old(self).window_regions,
    {
        self.metrics = metrics;
        let mut i: usize = 0;
        while i < self.windows.len()
            invariant
                old(self).wf(),
                metrics.wf(),
                i <= self.windows@.len(),
                self.windows@.len() == old(self).windows@.len(),
                self.metrics == metrics,
                self.default_colors == old(self).default_colors,
                self.window_regions == old(self).window_regions,
                forall|j: int|
                    i <= j < self.windows@.len() ==> self.windows@[j] == old(self).windows@[j],
                forall|j: int|
                    0 <= j < i ==> {
                        &&& (#[trigger] self.windows@[j]).wf()
                        &&& self.windows@[j].content@.len() == 0
                        &&& self.windows@[j].grid_size == old(self).windows@[j].grid_size
                        &&& self.windows@[j].id == old(self).windows@[j].id
                        &&& self.windows@[j].hidden == old(self).windows@[j].hidden
                        &&& self.windows@[j].floating_order == old(self).windows@[j].floating_order
                        &&& self.windows@[j].position == old(self).windows@[j].position
                        &&& self.windows@[j].scroll == old(self).windows@[j].scroll
                        &&& self.windows@[j].viewport_top == old(self).windows@[j].viewport_top
                        &&& self.windows@[j].viewport_bottom == old(
                            self,
                        ).windows@[j].viewport_bottom
                        &&& self.windows@[j].scroll_region == old(self).windows@[j].scroll_region
                        &&& self.windows@[j].scroll_cols == old(self).windows@[j].scroll_cols
                    },
            decreases self.windows@.len() - i,
        {
            proof {
                assert(old(self).windows@[i as int].wf());
            }
            let size = self.windows[i].grid_size;
            let w = &mut self.windows[i];
            w.resize(size);
            i = i + 1;
        }
        proof {
            assert forall|a: int, b: int|
                0 <= a < b < self.windows@.len() implies self.windows@[a].id
                < self.windows@[b].id by {
                assert(old(self).windows@[a].id < old(self).windows@[b].id);
            }
        }
    }
}

} // verus!
