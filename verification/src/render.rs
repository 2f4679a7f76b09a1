//! The render pipeline's plan: the layout a drawing surface follows.
//!
//! Drawing itself happens on a host canvas; what the library owns is the
//! arithmetic of the pass — the enforced aspect ratio, the caption font
//! rule, and the plan that fixes axis ranges, series style and the summary
//! statistics shown in the caption.  The plan is a pure function of the
//! target's dimensions and the sampled series' description, so repeating a
//! pass over an unchanged target repeats the identical plan.

use vstd::prelude::*;

verus! {

use crate::model::Stat;

/// Container widths above this threshold use the desktop caption font.
pub const FONT_SIZE_THRESHOLD: u32 = 300;
/// Caption font size on wide containers.
pub const DESKTOP_FONT_SIZE: u32 = 20;
/// Caption font size on narrow containers.
pub const MOBILE_FONT_SIZE: u32 = 10;

/// Height of the drawing surface for a given container width: the enforced
/// 3:4 aspect ratio, rounded down to whole pixels.
pub fn chart_height(width: u32) -> (height: u32)
    ensures
        height == 3 * width / 4,
{
    width / 4 * 3 + width % 4 * 3 / 4
}

/// Caption font size for a given container width.
pub fn caption_font_size(width: u32) -> (size: u32)
    ensures
        width > FONT_SIZE_THRESHOLD ==> size == DESKTOP_FONT_SIZE,
        width <= FONT_SIZE_THRESHOLD ==> size == MOBILE_FONT_SIZE,
{
    if width > FONT_SIZE_THRESHOLD {
        DESKTOP_FONT_SIZE
    } else {
        MOBILE_FONT_SIZE
    }
}

/// An owned drawing surface bound to a host region.
pub struct RenderTarget {
    /// Whether the surface is attached to a live host region; an
    /// unattached surface cannot be drawn to.
    pub attached: bool,
    /// Current width of the host container in pixels.
    pub container_width: u32,
}

/// How a series is drawn.
#[derive(Clone, Copy, Debug, PartialEq, Eq, Structural)]
pub enum SeriesKind {
    /// One bar per support point, for a discrete model.
    Bars,
    /// A connected line, for a continuous model.
    Line,
}

/// Everything a drawing pass needs: surface dimensions, caption layout,
/// axis ranges in micro-units, series style, and the summary statistics
/// the caption reports.
#[derive(Clone, Copy, Debug, PartialEq, Eq, Structural)]
pub struct RenderPlan {
    /// Surface width in pixels, matching the container.
    pub width: u32,
    /// Surface height in pixels: three quarters of the width.
    pub height: u32,
    /// Caption font size in points.
    pub font_size: u32,
    /// Lower end of the horizontal axis, in micro-units.
    pub x_min: i64,
    /// Upper end of the horizontal axis, in micro-units.
    pub x_max: i64,
    /// Lower end of the vertical axis, in micro-units.
    pub y_min: i64,
    /// Upper end of the vertical axis, in micro-units.
    pub y_max: i64,
    /// How the series is drawn.
    pub kind: SeriesKind,
    /// The mean reported in the caption.
    pub mean: Stat,
    /// The variance reported in the caption.
    pub variance: Stat,
}

/// The plan a render pass follows for a given target and series
/// description: a pure function of its arguments.
pub open spec fn plan_for(
    target: RenderTarget,
    kind: SeriesKind,
    mean: Stat,
    variance: Stat,
    x_min: i64,
    x_max: i64,
    y_min: i64,
    y_max: i64,
) -> RenderPlan {
    RenderPlan {
        width: target.container_width,
        height: (3 * target.container_width / 4) as u32,
        font_size: if target.container_width > FONT_SIZE_THRESHOLD {
            DESKTOP_FONT_SIZE
        } else {
            MOBILE_FONT_SIZE
        },
        x_min,
        x_max,
        y_min,
        y_max,
        kind,
        mean,
        variance,
    }
}

/// Prepare one render pass.  An unattached target cannot be drawn to:
/// that pass is skipped — reported as `None`, not as an error and not
/// retried.  On an attached target the surface is resized to the
/// container's current width at the enforced aspect ratio, whatever the
/// previous pass used.
pub fn prepare_render(
    target: &RenderTarget,
    kind: SeriesKind,
    mean: Stat,
    variance: Stat,
    x_min: i64,
    x_max: i64,
    y_min: i64,
    y_max: i64,
) -> (r: Option<RenderPlan>)
    ensures
        r is None <==> !target.attached,
        r matches Some(p) ==> p == plan_for(*target, kind, mean, variance, x_min, x_max, y_min, y_max),
{
    if !target.attached {
        return None;
    }
    let width = target.container_width;
    Some(
        RenderPlan {
            width,
            height: chart_height(width),
            font_size: caption_font_size(width),
            x_min,
            x_max,
            y_min,
            y_max,
            kind,
            mean,
            variance,
        },
    )
}

/// Law: a render pass accumulates no state.  Two passes over targets with
/// identical attachment and dimensions, for the same series description,
/// produce identical plans.
pub proof fn lemma_render_idempotent(
    t1: RenderTarget,
    t2: RenderTarget,
    kind: SeriesKind,
    mean: Stat,
    variance: Stat,
    x_min: i64,
    x_max: i64,
    y_min: i64,
    y_max: i64,
)
    requires
        t1.attached == t2.attached,
        t1.container_width == t2.container_width,
    ensures
        plan_for(t1, kind, mean, variance, x_min, x_max, y_min, y_max) == plan_for(
            t2,
            kind,
            mean,
            variance,
            x_min,
            x_max,
            y_min,
            y_max,
        ),
{
}

} // verus!
