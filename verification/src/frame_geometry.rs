use vstd::prelude::*;
use crate::atlas_layout::{max_int, min_int, sat_u32, sat_sub};
use crate::pipeline_specs::WgpuTerminalLoadOp;

verus! {

/// Where a terminal surface is drawn in the window and how its pass starts
/// and ends.
#[derive(Debug, Clone, Copy, PartialEq, Eq)]
pub struct WgpuTerminalRenderTargetPlan {
    pub x_px: u32,
    pub y_px: u32,
    pub width_px: u32,
    pub height_px: u32,
    pub load_op: WgpuTerminalLoadOp,
    pub store: bool,
}

impl WgpuTerminalRenderTargetPlan {
    /// A target of the given size at the window origin that clears and stores.
    pub fn new(width_px: u32, height_px: u32) -> (plan: Self)
        ensures
            plan == (WgpuTerminalRenderTargetPlan {
                x_px: 0,
                y_px: 0,
                width_px,
                height_px,
                load_op: WgpuTerminalLoadOp::Clear,
                store: true,
            }),
    {
        WgpuTerminalRenderTargetPlan {
            x_px: 0,
            y_px: 0,
            width_px,
            height_px,
            load_op: WgpuTerminalLoadOp::Clear,
            store: true,
        }
    }

    pub fn with_origin(self, x_px: u32, y_px: u32) -> (plan: Self)
        ensures
            plan == (WgpuTerminalRenderTargetPlan { x_px, y_px, ..self }),
    {
        WgpuTerminalRenderTargetPlan { x_px, y_px, ..self }
    }

    pub fn with_load_op(self, load_op: WgpuTerminalLoadOp) -> (plan: Self)
        ensures
            plan == (WgpuTerminalRenderTargetPlan { load_op, ..self }),
    {
        WgpuTerminalRenderTargetPlan { load_op, ..self }
    }

    pub fn with_store(self, store: bool) -> (plan: Self)
        ensures
            plan == (WgpuTerminalRenderTargetPlan { store, ..self }),
    {
        WgpuTerminalRenderTargetPlan { store, ..self }
    }

    pub fn is_empty(&self) -> (r: bool)
        ensures
            r == (self.width_px == 0 || self.height_px == 0),
    {
        self.width_px == 0 || self.height_px == 0
    }
}

/// A rectangle in window pixels.
#[derive(Debug, Clone, Copy, PartialEq, Eq, Structural)]
pub struct PixelRect {
    pub x_px: u32,
    pub y_px: u32,
    pub width_px: u32,
    pub height_px: u32,
}

/// A band of the visual bell's border.
pub type VisualBellRect = PixelRect;

/// A divider between two workspace panes.
pub type WorkspaceDividerRect = PixelRect;

/// The 2-pixel divider on the shared vertical edge of two targets, over the
/// span where both have rows, if they touch side by side.
pub open spec fn vertical_divider_spec(
    first: WgpuTerminalRenderTargetPlan,
    second: WgpuTerminalRenderTargetPlan,
) -> Option<PixelRect> {
    let first_right = sat_u32(first.x_px + first.width_px);
    let second_right = sat_u32(second.x_px + second.width_px);
    let start = max_int(first.y_px as int, second.y_px as int);
    let end = min_int(sat_u32(first.y_px + first.height_px), sat_u32(second.y_px + second.height_px));
    if first_right != second.x_px && second_right != first.x_px {
        None
    } else if end <= start {
        None
    } else {
        let boundary = if first_right == second.x_px {
            first_right
        } else {
            second_right
        };
        Some(
            PixelRect {
                x_px: sat_sub(boundary, 1) as u32,
                y_px: start as u32,
                width_px: 2,
                height_px: (end - start) as u32,
            },
        )
    }
}

/// The 2-pixel divider on the shared horizontal edge of two targets, over the
/// span where both have columns, if one sits on the other.
pub open spec fn horizontal_divider_spec(
    first: WgpuTerminalRenderTargetPlan,
    second: WgpuTerminalRenderTargetPlan,
) -> Option<PixelRect> {
    let first_bottom = sat_u32(first.y_px + first.height_px);
    let second_bottom = sat_u32(second.y_px + second.height_px);
    let start = max_int(first.x_px as int, second.x_px as int);
    let end = min_int(sat_u32(first.x_px + first.width_px), sat_u32(second.x_px + second.width_px));
    if first_bottom != second.y_px && second_bottom != first.y_px {
        None
    } else if end <= start {
        None
    } else {
        let boundary = if first_bottom == second.y_px {
            first_bottom
        } else {
            second_bottom
        };
        Some(
            PixelRect {
                x_px: start as u32,
                y_px: sat_sub(boundary, 1) as u32,
                width_px: (end - start) as u32,
                height_px: 2,
            },
        )
    }
}

pub open spec fn option_seq(r: Option<PixelRect>) -> Seq<PixelRect> {
    match r {
        Some(rect) => seq![rect],
        None => Seq::empty(),
    }
}

/// The dividers between target `i` and the targets from `j` on.
pub open spec fn dividers_with(targets: Seq<WgpuTerminalRenderTargetPlan>, i: int, j: int) -> Seq<PixelRect>
    decreases targets.len() - j,
{
    if j >= targets.len() {
        Seq::empty()
    } else {
        option_seq(vertical_divider_spec(targets[i], targets[j])) + option_seq(
            horizontal_divider_spec(targets[i], targets[j]),
        ) + dividers_with(targets, i, j + 1)
    }
}

/// The dividers of every pair of targets from `i` on, pair by pair in order.
pub open spec fn dividers_from(targets: Seq<WgpuTerminalRenderTargetPlan>, i: int) -> Seq<PixelRect>
    decreases targets.len() - i,
{
    if i >= targets.len() {
        Seq::empty()
    } else {
        dividers_with(targets, i, i + 1) + dividers_from(targets, i + 1)
    }
}

fn vertical_divider(first: WgpuTerminalRenderTargetPlan, second: WgpuTerminalRenderTargetPlan) -> (r: Option<
    PixelRect,
>)
    ensures
        r == vertical_divider_spec(first, second),
{
    let first_right = first.x_px.saturating_add(first.width_px);
    let second_right = second.x_px.saturating_add(second.width_px);
    let boundary = if first_right == second.x_px {
        first_right
    } else if second_right == first.x_px {
        second_right
    } else {
        return None;
    };
    let start = if first.y_px > second.y_px {
        first.y_px
    } else {
        second.y_px
    };
    let first_end = first.y_px.saturating_add(first.height_px);
    let second_end = second.y_px.saturating_add(second.height_px);
    let end = if first_end < second_end {
        first_end
    } else {
        second_end
    };
    if end > start {
        Some(
            PixelRect {
                x_px: boundary.saturating_sub(1),
                y_px: start,
                width_px: 2,
                height_px: end - start,
            },
        )
    } else {
        None
    }
}

fn horizontal_divider(first: WgpuTerminalRenderTargetPlan, second: WgpuTerminalRenderTargetPlan) -> (r: Option<
    PixelRect,
>)
    ensures
        r == horizontal_divider_spec(first, second),
{
    let first_bottom = first.y_px.saturating_add(first.height_px);
    let second_bottom = second.y_px.saturating_add(second.height_px);
    let boundary = if first_bottom == second.y_px {
        first_bottom
    } else if second_bottom == first.y_px {
        second_bottom
    } else {
        return None;
    };
    let start = if first.x_px > second.x_px {
        first.x_px
    } else {
        second.x_px
    };
    let first_end = first.x_px.saturating_add(first.width_px);
    let second_end = second.x_px.saturating_add(second.width_px);
    let end = if first_end < second_end {
        first_end
    } else {
        second_end
    };
    if end > start {
        Some(
            PixelRect {
                x_px: start,
                y_px: boundary.saturating_sub(1),
                width_px: end - start,
                height_px: 2,
            },
        )
    } else {
        None
    }
}

proof fn lemma_dividers_with_unfold(targets: Seq<WgpuTerminalRenderTargetPlan>, i: int, j: int)
    requires
        0 <= j <= targets.len(),
    ensures
        j < targets.len() ==> dividers_with(targets, i, j) == option_seq(
            vertical_divider_spec(targets[i], targets[j]),
        ) + option_seq(horizontal_divider_spec(targets[i], targets[j])) + dividers_with(targets, i, j + 1),
{
}

/// The dividers to draw between the targets of a workspace: for each pair, in
/// order, the vertical divider if they touch side by side, then the horizontal
/// one if they touch top to bottom.
pub fn workspace_divider_rects(targets: &[WgpuTerminalRenderTargetPlan]) -> (dividers: Vec<PixelRect>)
    ensures
        dividers@ == dividers_from(targets@, 0),
{
    let mut dividers: Vec<PixelRect> = Vec::new();
    let n = targets.len();
    let mut index: usize = 0;
    while index < n
        invariant
            n == targets@.len(),
            index <= n,
            dividers@ + dividers_from(targets@, index as int) == dividers_from(targets@, 0),
        decreases n - index,
    {
        let first = targets[index];
        let ghost outer = dividers@;
        let mut second_index: usize = index + 1;
        while second_index < n
            invariant
                n == targets@.len(),
                index < n,
                first == targets@[index as int],
                index + 1 <= second_index <= n,
                outer + dividers_from(targets@, index as int) == dividers_from(targets@, 0),
                dividers@ + dividers_with(targets@, index as int, second_index as int) == outer
                    + dividers_with(targets@, index as int, index as int + 1),
            decreases n - second_index,
        {
            let second = targets[second_index];
            let ghost before = dividers@;
            let vertical = vertical_divider(first, second);
            match vertical {
                Some(divider) => dividers.push(divider),
                None => {},
            }
            let horizontal = horizontal_divider(first, second);
            match horizontal {
                Some(divider) => dividers.push(divider),
                None => {},
            }
            proof {
                assert(dividers@ =~= before + option_seq(vertical) + option_seq(horizontal));
                lemma_dividers_with_unfold(targets@, index as int, second_index as int);
                assert(dividers@ + dividers_with(targets@, index as int, second_index as int + 1) =~= before
                    + dividers_with(targets@, index as int, second_index as int));
            }
            second_index = second_index + 1;
        }
        proof {
            assert(dividers@ =~= outer + dividers_with(targets@, index as int, index as int + 1));
            assert(dividers@ + dividers_from(targets@, index as int + 1) =~= outer + dividers_from(
                targets@,
                index as int,
            ));
        }
        index = index + 1;
    }
    assert(dividers@ =~= dividers_from(targets@, 0));
    dividers
}

/// Size of the window a visual bell flashes in.
#[derive(Debug, Clone, Copy, PartialEq, Eq)]
pub struct WgpuVisualBellFrame {
    pub width_px: u32,
    pub height_px: u32,
}

impl WgpuVisualBellFrame {
    pub fn new(width_px: u32, height_px: u32) -> (frame: Self)
        ensures
            frame.width_px == width_px,
            frame.height_px == height_px,
    {
        WgpuVisualBellFrame { width_px, height_px }
    }
}

/// Thickness of the visual bell border, in pixels.
pub const VISUAL_BELL_BORDER_PX: u32 = 4;

/// Thickness of the bell border of a window: 4 pixels, or less in a smaller
/// window.
pub open spec fn bell_thickness(frame: WgpuVisualBellFrame) -> int {
    min_int(min_int(4, frame.width_px as int), frame.height_px as int)
}

/// The border of the visual bell: a top and a bottom bar across the window,
/// then a left and a right bar between them when there is room for them.
pub fn visual_bell_border_rects(frame: WgpuVisualBellFrame) -> (rects: Vec<PixelRect>)
    ensures
        frame.width_px == 0 || frame.height_px == 0 ==> rects@.len() == 0,
        frame.width_px > 0 && frame.height_px > 0 ==> {
            let t = bell_thickness(frame);
            let w = frame.width_px as int;
            let h = frame.height_px as int;
            let bars = seq![
                PixelRect { x_px: 0, y_px: 0, width_px: w as u32, height_px: t as u32 },
                PixelRect { x_px: 0, y_px: (h - t) as u32, width_px: w as u32, height_px: t as u32 },
            ];
            let sides = seq![
                PixelRect { x_px: 0, y_px: t as u32, width_px: t as u32, height_px: (h - 2 * t) as u32 },
                PixelRect {
                    x_px: (w - t) as u32,
                    y_px: t as u32,
                    width_px: t as u32,
                    height_px: (h - 2 * t) as u32,
                },
            ];
            rects@ == if h > 2 * t {
                bars + sides
            } else {
                bars
            }
        },
{
    let mut rects: Vec<PixelRect> = Vec::new();
    if frame.width_px == 0 || frame.height_px == 0 {
        return rects;
    }
    let thickness = if VISUAL_BELL_BORDER_PX < frame.width_px {
        VISUAL_BELL_BORDER_PX
    } else {
        frame.width_px
    };
    let thickness = if thickness < frame.height_px {
        thickness
    } else {
        frame.height_px
    };
    let side_height = frame.height_px.saturating_sub(thickness * 2);
    rects.push(PixelRect { x_px: 0, y_px: 0, width_px: frame.width_px, height_px: thickness });
    rects.push(
        PixelRect { x_px: 0, y_px: frame.height_px - thickness, width_px: frame.width_px, height_px: thickness },
    );
    if side_height > 0 {
        rects.push(PixelRect { x_px: 0, y_px: thickness, width_px: thickness, height_px: side_height });
        rects.push(
            PixelRect {
                x_px: frame.width_px - thickness,
                y_px: thickness,
                width_px: thickness,
                height_px: side_height,
            },
        );
    }
    let ghost t = bell_thickness(frame);
    let ghost w = frame.width_px as int;
    let ghost h = frame.height_px as int;
    assert(rects@ =~= if h > 2 * t {
        seq![
            PixelRect { x_px: 0, y_px: 0, width_px: w as u32, height_px: t as u32 },
            PixelRect { x_px: 0, y_px: (h - t) as u32, width_px: w as u32, height_px: t as u32 },
        ] + seq![
            PixelRect { x_px: 0, y_px: t as u32, width_px: t as u32, height_px: (h - 2 * t) as u32 },
            PixelRect {
                x_px: (w - t) as u32,
                y_px: t as u32,
                width_px: t as u32,
                height_px: (h - 2 * t) as u32,
            },
        ]
    } else {
        seq![
            PixelRect { x_px: 0, y_px: 0, width_px: w as u32, height_px: t as u32 },
            PixelRect { x_px: 0, y_px: (h - t) as u32, width_px: w as u32, height_px: t as u32 },
        ]
    });
    rects
}

/// `value * numerator / denominator`, rounded to nearest (halves up), with a
/// zero denominator taken as 1, and capped to `u32`.
pub open spec fn rounded_ratio_spec(lhs: u32, numerator: u32, denominator: u32) -> int {
    let d = max_int(denominator as int, 1);
    min_int((lhs as int * numerator as int + d / 2) / d, u32::MAX as int)
}

pub fn rounded_ratio(lhs: u32, numerator: u32, denominator: u32) -> (r: u32)
    ensures
        r == rounded_ratio_spec(lhs, numerator, denominator),
{
    let d: u64 = if denominator > 1 {
        denominator as u64
    } else {
        1
    };
    assert((lhs as u64) * (numerator as u64) <= 0xffff_fffe_0000_0001) by (nonlinear_arith)
        requires
            lhs <= u32::MAX,
            numerator <= u32::MAX,
    ;
    let scaled: u64 = (lhs as u64) * (numerator as u64);
    let rounded: u64 = (scaled + d / 2) / d;
    if rounded > u32::MAX as u64 {
        u32::MAX
    } else {
        rounded as u32
    }
}

/// A coordinate of the virtual pixel grid scaled to the content area:
/// `value * actual / virtual`, rounded to nearest, capped to `u32`.
pub open spec fn scale_virtual_spec(value: u32, actual_content_px: u32, virtual_content_px: u32) -> int {
    min_int(
        (value as int * actual_content_px as int + virtual_content_px as int / 2) / max_int(
            virtual_content_px as int,
            1,
        ),
        u32::MAX as int,
    )
}

pub fn scale_virtual_px(value: u32, actual_content_px: u32, virtual_content_px: u32) -> (r: u32)
    ensures
        r == scale_virtual_spec(value, actual_content_px, virtual_content_px),
{
    assert((value as u64) * (actual_content_px as u64) <= 0xffff_fffe_0000_0001) by (nonlinear_arith)
        requires
            value <= u32::MAX,
            actual_content_px <= u32::MAX,
    ;
    let scaled: u64 = (value as u64) * (actual_content_px as u64);
    let d: u64 = if virtual_content_px > 1 {
        virtual_content_px as u64
    } else {
        1
    };
    let rounded: u64 = (scaled + (virtual_content_px / 2) as u64) / d;
    if rounded > u32::MAX as u64 {
        u32::MAX
    } else {
        rounded as u32
    }
}

/// Where a video surface is drawn, in window pixels.
#[derive(Debug, Clone, Copy, PartialEq, Eq, Structural)]
pub struct VideoSurfaceRect {
    pub x_px: u32,
    pub y_px: u32,
    pub width_px: u32,
    pub height_px: u32,
}

/// The largest rectangle of the frame's aspect ratio that fits in the
/// container, centred in it.
pub open spec fn fit_video_frame_spec(container: VideoSurfaceRect, frame_width_px: u32, frame_height_px: u32) -> VideoSurfaceRect {
    let container_width = max_int(container.width_px as int, 1);
    let container_height = max_int(container.height_px as int, 1);
    let frame_width = max_int(frame_width_px as int, 1);
    let frame_height = max_int(frame_height_px as int, 1);
    let width_limited_height = rounded_ratio_spec(
        container_width as u32,
        frame_height as u32,
        frame_width as u32,
    );
    let fit_width = if width_limited_height <= container_height {
        container_width
    } else {
        max_int(
            min_int(
                rounded_ratio_spec(container_height as u32, frame_width as u32, frame_height as u32),
                container_width,
            ),
            1,
        )
    };
    let fit_height = if width_limited_height <= container_height {
        max_int(min_int(width_limited_height, container_height), 1)
    } else {
        container_height
    };
    VideoSurfaceRect {
        x_px: sat_u32(container.x_px + sat_sub(container.width_px as int, fit_width) / 2) as u32,
        y_px: sat_u32(container.y_px + sat_sub(container.height_px as int, fit_height) / 2) as u32,
        width_px: fit_width as u32,
        height_px: fit_height as u32,
    }
}

pub fn fit_video_frame_rect(container: VideoSurfaceRect, frame_width_px: u32, frame_height_px: u32) -> (fit:
    VideoSurfaceRect)
    ensures
        fit == fit_video_frame_spec(container, frame_width_px, frame_height_px),
{
    let container_width = if container.width_px > 1 {
        container.width_px
    } else {
        1
    };
    let container_height = if container.height_px > 1 {
        container.height_px
    } else {
        1
    };
    let frame_width = if frame_width_px > 1 {
        frame_width_px
    } else {
        1
    };
    let frame_height = if frame_height_px > 1 {
        frame_height_px
    } else {
        1
    };
    let width_limited_height = rounded_ratio(container_width, frame_height, frame_width);
    let (fit_width, fit_height) = if width_limited_height <= container_height {
        let h = if width_limited_height < container_height {
            width_limited_height
        } else {
            container_height
        };
        (container_width, if h > 1 {
            h
        } else {
            1
        })
    } else {
        let w = rounded_ratio(container_height, frame_width, frame_height);
        let w = if w < container_width {
            w
        } else {
            container_width
        };
        (if w > 1 {
            w
        } else {
            1
        }, container_height)
    };
    let offset_x = container.width_px.saturating_sub(fit_width) / 2;
    let offset_y = container.height_px.saturating_sub(fit_height) / 2;
    VideoSurfaceRect {
        x_px: container.x_px.saturating_add(offset_x),
        y_px: container.y_px.saturating_add(offset_y),
        width_px: fit_width,
        height_px: fit_height,
    }
}

/// Bytes of one plane of a video frame: stride times height.
pub fn estimated_plane_size_bytes(stride: u32, height_px: u32) -> (size: u64)
    ensures
        size == stride as int * height_px as int,
{
    assert((stride as u64) * (height_px as u64) <= 0xffff_fffe_0000_0001) by (nonlinear_arith)
        requires
            stride <= u32::MAX,
            height_px <= u32::MAX,
    ;
    (stride as u64) * (height_px as u64)
}

/// The little-endian `u32` at `offset` of `bytes`, if all four bytes are there.
pub fn read_u32(bytes: &[u8], offset: usize) -> (value: Option<u32>)
    requires
        offset + 4 <= usize::MAX,
    ensures
        value == if offset + 4 <= bytes@.len() {
            Some(
                (bytes@[offset as int] as int + bytes@[offset + 1] as int * 0x100 + bytes@[offset + 2] as int
                    * 0x1_0000 + bytes@[offset + 3] as int * 0x100_0000) as u32,
            )
        } else {
            None
        },
{
    if offset + 4 > bytes.len() {
        return None;
    }
    let b0: u32 = bytes[offset] as u32;
    let b1: u32 = bytes[offset + 1] as u32;
    let b2: u32 = bytes[offset + 2] as u32;
    let b3: u32 = bytes[offset + 3] as u32;
    Some(b0 + b1 * 0x100 + b2 * 0x1_0000 + b3 * 0x100_0000)
}

} // verus!
