use vstd::prelude::*;
use crate::frame_geometry::{PixelRect, WgpuTerminalRenderTargetPlan};
use crate::ids::RenderTargetId;
use crate::retained_frame::{WgpuRetainedFrameAction, sat_add_u32, sat_sub_u32};

verus! {

/// What the presenter knows of a workspace frame when it decides whether the
/// frame may be drawn through the retained texture: the window size, whether
/// retention is on, whether a background shader, a visual bell or pane plugins
/// draw too, whether the background opacity is full, and how many panes the
/// layout has.
#[derive(Debug, Clone, Copy, PartialEq, Eq)]
pub struct WgpuWorkspaceRetainConditions {
    pub retain_terminal_frame: bool,
    pub has_background_shader: bool,
    pub background_opaque: bool,
    pub has_visual_bell: bool,
    pub render_plugin_count: usize,
    pub layout_count: usize,
    pub width_px: u32,
    pub height_px: u32,
}

/// What the presenter knows of one terminal surface of the frame: where it is
/// drawn, the alpha of its background, and how many image and video surfaces
/// it embeds.
#[derive(Debug, Clone, Copy, PartialEq, Eq)]
pub struct WgpuWorkspaceSurfaceTraits {
    pub render_target_plan: WgpuTerminalRenderTargetPlan,
    pub background_alpha: u8,
    pub image_surface_count: usize,
    pub video_surface_count: usize,
}

/// A frame can reuse the retained texture only when retention is on, nothing
/// but one opaque terminal surface covers the whole window, and that surface
/// embeds no image or video.
pub open spec fn retained_eligible(
    conditions: WgpuWorkspaceRetainConditions,
    surfaces: Seq<WgpuWorkspaceSurfaceTraits>,
) -> bool {
    &&& conditions.retain_terminal_frame
    &&& !conditions.has_background_shader
    &&& conditions.background_opaque
    &&& !conditions.has_visual_bell
    &&& conditions.render_plugin_count == 0
    &&& surfaces.len() == 1
    &&& conditions.layout_count == 1
    &&& surfaces[0].render_target_plan.x_px == 0
    &&& surfaces[0].render_target_plan.y_px == 0
    &&& surfaces[0].render_target_plan.width_px == conditions.width_px
    &&& surfaces[0].render_target_plan.height_px == conditions.height_px
    &&& surfaces[0].background_alpha == 255
    &&& surfaces[0].image_surface_count == 0
    &&& surfaces[0].video_surface_count == 0
}

/// Whether this workspace frame is drawn through the retained texture.
pub fn retained_frame_eligible(
    conditions: &WgpuWorkspaceRetainConditions,
    surfaces: &[WgpuWorkspaceSurfaceTraits],
) -> (eligible: bool)
    ensures
        eligible == retained_eligible(*conditions, surfaces@),
{
    if !conditions.retain_terminal_frame || conditions.has_background_shader
        || !conditions.background_opaque || conditions.has_visual_bell
        || conditions.render_plugin_count != 0 || surfaces.len() != 1
        || conditions.layout_count != 1 {
        return false;
    }
    let surface = &surfaces[0];
    surface.render_target_plan.x_px == 0 && surface.render_target_plan.y_px == 0
        && surface.render_target_plan.width_px == conditions.width_px
        && surface.render_target_plan.height_px == conditions.height_px
        && surface.background_alpha == 255 && surface.image_surface_count == 0
        && surface.video_surface_count == 0
}

/// The whole target is cleared first unless a retained frame is patched or
/// reused.
pub open spec fn clears_target(action: Option<WgpuRetainedFrameAction>) -> bool {
    action == Some(WgpuRetainedFrameAction::Full) || action.is_none()
}

/// Whether the presenter clears the target before drawing, for the retained
/// action of the frame (none when the frame is not retained).
pub fn present_clears_target(action: Option<WgpuRetainedFrameAction>) -> (clear: bool)
    ensures
        clear == clears_target(action),
{
    match action {
        None => true,
        Some(WgpuRetainedFrameAction::Full) => true,
        Some(_) => false,
    }
}

/// The rectangle a surface's pass is limited to: the band of the retained
/// action that is redrawn, moved down by the surface's top; none for a full
/// redraw or an unretained frame.
pub open spec fn surface_scissor(
    plan: WgpuTerminalRenderTargetPlan,
    action: Option<WgpuRetainedFrameAction>,
) -> Option<PixelRect> {
    match action {
        Some(WgpuRetainedFrameAction::Damage { top_px, bottom_px })
        | Some(WgpuRetainedFrameAction::ScrollUp { top_px, bottom_px, .. }) => Some(
            PixelRect {
                x_px: plan.x_px,
                y_px: sat_add_u32(plan.y_px as int, top_px as int) as u32,
                width_px: plan.width_px,
                height_px: sat_sub_u32(bottom_px as int, top_px as int) as u32,
            },
        ),
        _ => None,
    }
}

/// The passes the presenter makes for the terminal surfaces of a frame, one
/// per surface in order with its scissor; none when the retained texture is
/// reused as it is.
pub fn present_surface_scissors(
    action: Option<WgpuRetainedFrameAction>,
    plans: &[WgpuTerminalRenderTargetPlan],
) -> (passes: Vec<Option<PixelRect>>)
    ensures
        action == Some(WgpuRetainedFrameAction::Reuse) ==> passes@.len() == 0,
        action != Some(WgpuRetainedFrameAction::Reuse) ==> passes@.len() == plans@.len(),
        action != Some(WgpuRetainedFrameAction::Reuse) ==> forall|i: int|
            0 <= i < plans@.len() ==> passes@[i] == surface_scissor(plans@[i], action),
{
    let mut passes: Vec<Option<PixelRect>> = Vec::new();
    if action == Some(WgpuRetainedFrameAction::Reuse) {
        return passes;
    }
    let bounds = match action {
        Some(action) => action.damage_bounds(),
        None => None,
    };
    let mut i: usize = 0;
    while i < plans.len()
        invariant
            i <= plans@.len(),
            passes@.len() == i,
            forall|j: int| 0 <= j < i ==> passes@[j] == surface_scissor(plans@[j], action),
            bounds == match action {
                Some(WgpuRetainedFrameAction::Damage { top_px, bottom_px }) => Some((top_px, bottom_px)),
                Some(WgpuRetainedFrameAction::ScrollUp { top_px, bottom_px, .. }) => Some(
                    (top_px, bottom_px),
                ),
                _ => None::<(u32, u32)>,
            },
        decreases plans@.len() - i,
    {
        let plan = plans[i];
        let pass = match bounds {
            Some((top, bottom)) => Some(
                PixelRect {
                    x_px: plan.x_px,
                    y_px: plan.y_px.saturating_add(top),
                    width_px: plan.width_px,
                    height_px: bottom.saturating_sub(top),
                },
            ),
            None => None,
        };
        passes.push(pass);
        i += 1;
    }
    passes
}

/// A surface the window draws in a frame: a pane of the layout, by its index
/// there, or the tab bar.
#[derive(Debug, Clone, Copy, PartialEq, Eq)]
pub enum WgpuWorkspaceDrawSlot {
    Pane(usize),
    TabBar,
}

/// The panes of the layout, in layout order, that the window draws as
/// terminal surfaces: those that no pane plugin draws and that have a
/// snapshot.
pub open spec fn drawn_panes(
    layout: Seq<RenderTargetId>,
    plugin_targets: Seq<RenderTargetId>,
    has_snapshot: Seq<bool>,
    n: int,
) -> Seq<WgpuWorkspaceDrawSlot>
    decreases n,
{
    if n <= 0 {
        Seq::empty()
    } else {
        let earlier = drawn_panes(layout, plugin_targets, has_snapshot, n - 1);
        if !plugin_targets.contains(layout[n - 1]) && has_snapshot[n - 1] {
            earlier.push(WgpuWorkspaceDrawSlot::Pane((n - 1) as usize))
        } else {
            earlier
        }
    }
}

/// The surfaces the window draws, in order: the drawn panes, then the tab bar
/// when there is one.
pub open spec fn draw_slots(
    layout: Seq<RenderTargetId>,
    plugin_targets: Seq<RenderTargetId>,
    has_snapshot: Seq<bool>,
    has_tab_bar: bool,
) -> Seq<WgpuWorkspaceDrawSlot> {
    let panes = drawn_panes(layout, plugin_targets, has_snapshot, layout.len() as int);
    if has_tab_bar {
        panes.push(WgpuWorkspaceDrawSlot::TabBar)
    } else {
        panes
    }
}

fn contains_target(targets: &[RenderTargetId], target: RenderTargetId) -> (found: bool)
    ensures
        found == targets@.contains(target),
{
    let mut i: usize = 0;
    while i < targets.len()
        invariant
            i <= targets@.len(),
            forall|j: int| 0 <= j < i ==> targets@[j] != target,
        decreases targets@.len() - i,
    {
        if targets[i].0 == target.0 {
            assert(targets@[i as int] == target);
            return true;
        }
        i += 1;
    }
    false
}

/// Which surfaces the window draws in a frame, in order, given the layout's
/// targets, the targets that pane plugins draw, whether each layout pane has a
/// snapshot, and whether a tab bar is shown.
pub fn workspace_draw_slots(
    layout: &[RenderTargetId],
    plugin_targets: &[RenderTargetId],
    has_snapshot: &[bool],
    has_tab_bar: bool,
) -> (slots: Vec<WgpuWorkspaceDrawSlot>)
    requires
        has_snapshot@.len() == layout@.len(),
    ensures
        slots@ == draw_slots(layout@, plugin_targets@, has_snapshot@, has_tab_bar),
{
    let mut slots: Vec<WgpuWorkspaceDrawSlot> = Vec::new();
    let mut i: usize = 0;
    while i < layout.len()
        invariant
            i <= layout@.len(),
            has_snapshot@.len() == layout@.len(),
            slots@ == drawn_panes(layout@, plugin_targets@, has_snapshot@, i as int),
        decreases layout@.len() - i,
    {
        if !contains_target(plugin_targets, layout[i]) && has_snapshot[i] {
            slots.push(WgpuWorkspaceDrawSlot::Pane(i));
        }
        i += 1;
    }
    if has_tab_bar {
        slots.push(WgpuWorkspaceDrawSlot::TabBar);
    }
    slots
}

} // verus!
