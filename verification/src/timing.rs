use vstd::prelude::*;
use std::time::Duration;
use crate::ids::{RenderTargetId, SeqNo};

verus! {

/// Refresh rate assumed when the display reports none: 60 Hz.
pub const DEFAULT_REFRESH_RATE_MILLIHERTZ: u32 = 60_000;

/// The refresh rate used for pacing: the reported one if it is above zero,
/// else 60 Hz.
pub open spec fn effective_refresh_rate(refresh_rate_millihertz: Option<u32>) -> int {
    if refresh_rate_millihertz is Some && refresh_rate_millihertz->0 > 0 {
        refresh_rate_millihertz->0 as int
    } else {
        60_000
    }
}

/// The time between two frames at the display's refresh rate, in
/// nanoseconds, rounded down.
pub fn frame_interval_for_refresh_rate(refresh_rate_millihertz: Option<u32>) -> (interval_nanos: u64)
    ensures
        interval_nanos == 1_000_000_000_000int / effective_refresh_rate(refresh_rate_millihertz),
{
    let rate: u32 = match refresh_rate_millihertz {
        Some(rate) => if rate > 0 {
            rate
        } else {
            DEFAULT_REFRESH_RATE_MILLIHERTZ
        },
        None => DEFAULT_REFRESH_RATE_MILLIHERTZ,
    };
    1_000_000_000_000u64 / (rate as u64)
}

/// Whether the cursor is shown at `now` (times in nanoseconds since any fixed
/// point) when it blinks with the given interval from `epoch`: it is shown in
/// the even intervals. A zero interval counts as one nanosecond.
pub open spec fn blink_visible(epoch: int, now: int, interval: int) -> bool {
    let elapsed = if now >= epoch {
        now - epoch
    } else {
        0
    };
    let i = if interval >= 1 {
        interval
    } else {
        1
    };
    (elapsed / i) % 2 == 0
}

/// When the current blink interval ends.
pub open spec fn blink_deadline(epoch: int, now: int, interval: int) -> int {
    let elapsed = if now >= epoch {
        now - epoch
    } else {
        0
    };
    let i = if interval >= 1 {
        interval
    } else {
        1
    };
    now + (i - elapsed % i)
}

/// Whether the cursor is shown now and when that next changes.
pub fn cursor_blink_phase(epoch_nanos: u64, now_nanos: u64, interval_nanos: u64) -> (phase: (bool, u64))
    requires
        blink_deadline(epoch_nanos as int, now_nanos as int, interval_nanos as int) <= u64::MAX,
    ensures
        phase.0 == blink_visible(epoch_nanos as int, now_nanos as int, interval_nanos as int),
        phase.1 == blink_deadline(epoch_nanos as int, now_nanos as int, interval_nanos as int),
{
    let elapsed: u64 = now_nanos.saturating_sub(epoch_nanos);
    let interval: u64 = if interval_nanos > 1 {
        interval_nanos
    } else {
        1
    };
    let phase: u64 = elapsed / interval;
    let remaining: u64 = interval - elapsed % interval;
    (phase % 2 == 0, now_nanos + remaining)
}

/// The next blink deadline lies after now, no later than one interval ahead,
/// and at it the cursor shows the other way (when the epoch is not in the
/// future).
pub proof fn lemma_cursor_blink_alternates(epoch: int, now: int, interval: int)
    requires
        epoch <= now,
        interval >= 1,
    ensures
        now < blink_deadline(epoch, now, interval) <= now + interval,
        blink_visible(epoch, blink_deadline(epoch, now, interval), interval) != blink_visible(
            epoch,
            now,
            interval,
        ),
{
    let elapsed = now - epoch;
    let q = elapsed / interval;
    let r = elapsed % interval;
    vstd::arithmetic::div_mod::lemma_fundamental_div_mod(elapsed, interval);
    let next = elapsed + (interval - r);
    assert(next == (q + 1) * interval) by (nonlinear_arith)
        requires
            elapsed == interval * q + r,
            next == elapsed + (interval - r),
    ;
    vstd::arithmetic::div_mod::lemma_div_multiples_vanish(q + 1, interval);
    assert(next / interval == q + 1) by {
        assert((q + 1) * interval == interval * (q + 1)) by (nonlinear_arith);
    }
}

/// Time spent in each step of preparing one frame.
#[derive(Debug, Clone, Copy, PartialEq, Eq, Default)]
pub struct WgpuTerminalPreparedFrameTimings {
    pub render_surface: Duration,
    pub quads_clone: Duration,
    pub vertex_build: Duration,
    pub atlas_build: Duration,
    pub uv_map: Duration,
    pub upload_bytes: Duration,
    pub draw_plan: Duration,
    pub renderer_lines: Duration,
    pub viewport_upload: Duration,
    pub total: Duration,
}

/// Time spent in each step of rendering one terminal surface.
#[derive(Debug, Clone, Copy, PartialEq, Eq, Default)]
pub struct WgpuTerminalFrameRenderTimings {
    pub prepare: Duration,
    pub upload_plan: Duration,
    pub upload: Duration,
    pub encode: Duration,
    pub prepared_frame: WgpuTerminalPreparedFrameTimings,
    pub total: Duration,
}

/// Time spent in each step of presenting one window frame.
#[derive(Debug, Clone, Copy, PartialEq, Eq, Default)]
pub struct WgpuTerminalSurfaceFrameTimings {
    pub acquire_surface_texture: Duration,
    pub create_texture_view: Duration,
    pub create_command_encoder: Duration,
    pub render_to_view: Duration,
    pub submit: Duration,
    pub present: Duration,
    pub total: Duration,
}

/// What rendering one terminal surface did.
#[derive(Debug, Clone, Copy, PartialEq, Eq)]
pub struct WgpuTerminalFrameRenderResult {
    pub target_id: RenderTargetId,
    pub seq: SeqNo,
    pub prepared: bool,
    pub uploaded: bool,
    pub encoded: bool,
    pub command_count: usize,
    pub draw_count: usize,
    pub index_count: u32,
    pub vertex_count: usize,
    pub quad_count: usize,
    pub glyph_count: usize,
    pub glyph_atlas_uploaded: bool,
    pub glyph_atlas_cpu_cache_hit: bool,
    pub glyph_atlas_gpu_cache_hit: bool,
    pub video_surface_count: usize,
    pub video_draw_count: usize,
    pub image_surface_count: usize,
    pub image_draw_count: usize,
    pub timings: WgpuTerminalFrameRenderTimings,
}

impl WgpuTerminalFrameRenderResult {
    /// A surface was rendered when its frame was both prepared and encoded.
    pub fn rendered(&self) -> (r: bool)
        ensures
            r == (self.prepared && self.encoded),
    {
        self.prepared && self.encoded
    }
}

/// What presenting one window frame did.
#[derive(Debug, Clone, PartialEq, Eq)]
pub struct WgpuTerminalWorkspaceFramePresentResult {
    pub render_results: Vec<WgpuTerminalFrameRenderResult>,
    pub background_draw_count: usize,
    pub divider_draw_count: usize,
    pub plugin_draw_count: usize,
    pub plugin_redraw_requested: bool,
    pub visual_bell_draw_count: usize,
    pub acquired_surface_frame: bool,
    pub submitted: bool,
    pub presented: bool,
    pub timings: WgpuTerminalSurfaceFrameTimings,
}

impl WgpuTerminalWorkspaceFramePresentResult {
    /// The frame went all the way: acquired, submitted and presented.
    pub fn completed(&self) -> (r: bool)
        ensures
            r == (self.acquired_surface_frame && self.submitted && self.presented),
    {
        self.acquired_surface_frame && self.submitted && self.presented
    }

    /// Some surface of the frame was rendered.
    pub fn rendered(&self) -> (r: bool)
        ensures
            r == exists|i: int|
                0 <= i < self.render_results@.len() && (#[trigger] self.render_results@[i]).prepared
                    && self.render_results@[i].encoded,
    {
        let mut i: usize = 0;
        while i < self.render_results.len()
            invariant
                i <= self.render_results@.len(),
                forall|j: int|
                    0 <= j < i ==> !((#[trigger] self.render_results@[j]).prepared
                        && self.render_results@[j].encoded),
            decreases self.render_results@.len() - i,
        {
            if self.render_results[i].rendered() {
                return true;
            }
            i = i + 1;
        }
        false
    }
}

} // verus!
