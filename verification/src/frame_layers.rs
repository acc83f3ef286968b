use vstd::prelude::*;
use crate::pipeline_specs::{WgpuTerminalLoadOp, layer_load_op};

verus! {

/// A part of a frame's terminal text drawn in a pass of its own.
#[derive(Debug, Clone, Copy, PartialEq, Eq, Structural)]
pub enum WgpuTerminalTextLayer {
    All,
    SurfaceBackground,
    CellBackground,
    Foreground,
}

/// Where a frame's images are drawn relative to its text.
#[derive(Debug, Clone, Copy, PartialEq, Eq, Structural)]
pub enum WgpuImageLayer {
    BelowCellBackground,
    BelowText,
    AboveText,
}

/// One pass of a surface frame.
#[derive(Debug, Clone, Copy, PartialEq, Eq, Structural)]
pub enum WgpuFrameLayer {
    Text(WgpuTerminalTextLayer),
    Images(WgpuImageLayer),
    Video,
}

/// How far rendering a surface goes: nothing for an empty target, only the
/// preparation when nothing is to be drawn, else every layer.
#[derive(Debug, Clone, Copy, PartialEq, Eq, Structural)]
pub enum WgpuFrameRenderStage {
    Skip,
    PreparedOnly,
    Encode,
}

/// Decides how far rendering a surface goes.
pub fn frame_render_stage(
    target_empty: bool,
    has_text_draw_work: bool,
    has_video_draw_work: bool,
    has_image_draw_work: bool,
) -> (stage: WgpuFrameRenderStage)
    ensures
        stage == if target_empty {
            WgpuFrameRenderStage::Skip
        } else if !has_text_draw_work && !has_video_draw_work && !has_image_draw_work {
            WgpuFrameRenderStage::PreparedOnly
        } else {
            WgpuFrameRenderStage::Encode
        },
{
    if target_empty {
        WgpuFrameRenderStage::Skip
    } else if !has_text_draw_work && !has_video_draw_work && !has_image_draw_work {
        WgpuFrameRenderStage::PreparedOnly
    } else {
        WgpuFrameRenderStage::Encode
    }
}

/// The passes of a surface frame in drawing order. Text is drawn only when
/// it was uploaded; when images sit below the cell backgrounds or below the
/// text, the text is split into the surface background, the cell backgrounds
/// and the foreground, with the image layers between them. Images above the
/// text and then video close the frame.
pub open spec fn frame_layers(has_uploaded_text: bool, split_text_layers: bool) -> Seq<WgpuFrameLayer> {
    let split = has_uploaded_text && split_text_layers;
    let first: Seq<WgpuFrameLayer> = if !has_uploaded_text {
        Seq::empty()
    } else if split_text_layers {
        seq![WgpuFrameLayer::Text(WgpuTerminalTextLayer::SurfaceBackground)]
    } else {
        seq![WgpuFrameLayer::Text(WgpuTerminalTextLayer::All)]
    };
    let cell_background: Seq<WgpuFrameLayer> = if split {
        seq![WgpuFrameLayer::Text(WgpuTerminalTextLayer::CellBackground)]
    } else {
        Seq::empty()
    };
    let foreground: Seq<WgpuFrameLayer> = if split {
        seq![WgpuFrameLayer::Text(WgpuTerminalTextLayer::Foreground)]
    } else {
        Seq::empty()
    };
    first + seq![WgpuFrameLayer::Images(WgpuImageLayer::BelowCellBackground)] + cell_background
        + seq![WgpuFrameLayer::Images(WgpuImageLayer::BelowText)] + foreground + seq![
        WgpuFrameLayer::Images(WgpuImageLayer::AboveText),
        WgpuFrameLayer::Video,
    ]
}

/// The passes of a surface frame, in drawing order.
pub fn frame_layer_plan(has_uploaded_text: bool, split_text_layers: bool) -> (layers: Vec<WgpuFrameLayer>)
    ensures
        layers@ == frame_layers(has_uploaded_text, split_text_layers),
{
    let mut layers: Vec<WgpuFrameLayer> = Vec::new();
    if has_uploaded_text {
        if split_text_layers {
            layers.push(WgpuFrameLayer::Text(WgpuTerminalTextLayer::SurfaceBackground));
        } else {
            layers.push(WgpuFrameLayer::Text(WgpuTerminalTextLayer::All));
        }
    }
    layers.push(WgpuFrameLayer::Images(WgpuImageLayer::BelowCellBackground));
    if has_uploaded_text && split_text_layers {
        layers.push(WgpuFrameLayer::Text(WgpuTerminalTextLayer::CellBackground));
    }
    layers.push(WgpuFrameLayer::Images(WgpuImageLayer::BelowText));
    if has_uploaded_text && split_text_layers {
        layers.push(WgpuFrameLayer::Text(WgpuTerminalTextLayer::Foreground));
    }
    layers.push(WgpuFrameLayer::Images(WgpuImageLayer::AboveText));
    layers.push(WgpuFrameLayer::Video);
    assert(layers@ =~= frame_layers(has_uploaded_text, split_text_layers));
    layers
}

/// What one pass reported: whether it encoded anything, its commands, draws
/// and indices, and the image or video surfaces it drew.
#[derive(Debug, Clone, Copy, PartialEq, Eq, Structural)]
pub struct WgpuFrameLayerResult {
    pub encoded: bool,
    pub command_count: usize,
    pub draw_count: usize,
    pub index_count: u32,
    pub surface_count: usize,
}

/// What the passes of a surface frame have done so far, summed the way the
/// frame's result reports it.
#[derive(Debug, Clone, Copy, PartialEq, Eq, Structural)]
pub struct WgpuFrameLayerTally {
    pub encoded: bool,
    pub command_count: usize,
    pub draw_count: usize,
    pub index_count: u32,
    pub image_surface_count: usize,
    pub image_draw_count: usize,
    pub video_surface_count: usize,
    pub video_draw_count: usize,
}

/// How a pass starts: the first text pass and the image passes start on what
/// earlier passes drew when any of them drew something, else as the target's
/// plan says; the later text passes and the video pass always draw over what
/// is there.
pub open spec fn layer_start(
    layer: WgpuFrameLayer,
    earlier_encoded: bool,
    plan_load_op: WgpuTerminalLoadOp,
) -> WgpuTerminalLoadOp {
    match layer {
        WgpuFrameLayer::Text(WgpuTerminalTextLayer::CellBackground)
        | WgpuFrameLayer::Text(WgpuTerminalTextLayer::Foreground)
        | WgpuFrameLayer::Video => WgpuTerminalLoadOp::Load,
        _ => if earlier_encoded {
            WgpuTerminalLoadOp::Load
        } else {
            plan_load_op
        },
    }
}

/// The tally after one more pass: text passes add their commands and
/// indices, image and video passes one command when they encoded, and each
/// adds its draws to the frame's and to its own kind's.
pub open spec fn tally_after(
    tally: WgpuFrameLayerTally,
    layer: WgpuFrameLayer,
    result: WgpuFrameLayerResult,
) -> WgpuFrameLayerTally {
    let one: int = if result.encoded {
        1
    } else {
        0
    };
    match layer {
        WgpuFrameLayer::Text(_) => WgpuFrameLayerTally {
            encoded: tally.encoded || result.encoded,
            command_count: (tally.command_count + result.command_count) as usize,
            draw_count: (tally.draw_count + result.draw_count) as usize,
            index_count: (tally.index_count + result.index_count) as u32,
            ..tally
        },
        WgpuFrameLayer::Images(_) => WgpuFrameLayerTally {
            encoded: tally.encoded || result.encoded,
            command_count: (tally.command_count + one) as usize,
            draw_count: (tally.draw_count + result.draw_count) as usize,
            image_surface_count: (tally.image_surface_count + result.surface_count) as usize,
            image_draw_count: (tally.image_draw_count + result.draw_count) as usize,
            ..tally
        },
        WgpuFrameLayer::Video => WgpuFrameLayerTally {
            encoded: tally.encoded || result.encoded,
            command_count: (tally.command_count + one) as usize,
            draw_count: (tally.draw_count + result.draw_count) as usize,
            video_surface_count: (tally.video_surface_count + result.surface_count) as usize,
            video_draw_count: (tally.video_draw_count + result.draw_count) as usize,
            ..tally
        },
    }
}

/// Whether adding a pass's result keeps every sum of the tally in range.
pub open spec fn tally_fits(
    tally: WgpuFrameLayerTally,
    layer: WgpuFrameLayer,
    result: WgpuFrameLayerResult,
) -> bool {
    &&& tally.command_count + result.command_count + 1 <= usize::MAX
    &&& tally.draw_count + result.draw_count <= usize::MAX
    &&& tally.index_count + result.index_count <= u32::MAX
    &&& tally.image_surface_count + result.surface_count <= usize::MAX
    &&& tally.image_draw_count + result.draw_count <= usize::MAX
    &&& tally.video_surface_count + result.surface_count <= usize::MAX
    &&& tally.video_draw_count + result.draw_count <= usize::MAX
}

impl WgpuFrameLayerTally {
    /// Nothing drawn yet.
    pub fn new() -> (tally: Self)
        ensures
            tally == (WgpuFrameLayerTally {
                encoded: false,
                command_count: 0,
                draw_count: 0,
                index_count: 0,
                image_surface_count: 0,
                image_draw_count: 0,
                video_surface_count: 0,
                video_draw_count: 0,
            }),
    {
        WgpuFrameLayerTally {
            encoded: false,
            command_count: 0,
            draw_count: 0,
            index_count: 0,
            image_surface_count: 0,
            image_draw_count: 0,
            video_surface_count: 0,
            video_draw_count: 0,
        }
    }

    /// How the next pass starts, after the passes tallied so far.
    pub fn load_op_for(&self, layer: WgpuFrameLayer, plan_load_op: WgpuTerminalLoadOp) -> (load_op:
        WgpuTerminalLoadOp)
        ensures
            load_op == layer_start(layer, self.encoded, plan_load_op),
    {
        match layer {
            WgpuFrameLayer::Text(WgpuTerminalTextLayer::CellBackground)
            | WgpuFrameLayer::Text(WgpuTerminalTextLayer::Foreground)
            | WgpuFrameLayer::Video => WgpuTerminalLoadOp::Load,
            _ => layer_load_op(self.encoded, plan_load_op),
        }
    }

    /// Adds what a pass reported.
    pub fn record(&mut self, layer: WgpuFrameLayer, result: WgpuFrameLayerResult)
        requires
            tally_fits(*old(self), layer, result),
        ensures
            *final(self) == tally_after(*old(self), layer, result),
    {
        let one: usize = if result.encoded {
            1
        } else {
            0
        };
        self.encoded = self.encoded || result.encoded;
        self.draw_count = self.draw_count + result.draw_count;
        match layer {
            WgpuFrameLayer::Text(_) => {
                self.command_count = self.command_count + result.command_count;
                self.index_count = self.index_count + result.index_count;
            },
            WgpuFrameLayer::Images(_) => {
                self.command_count = self.command_count + one;
                self.image_surface_count = self.image_surface_count + result.surface_count;
                self.image_draw_count = self.image_draw_count + result.draw_count;
            },
            WgpuFrameLayer::Video => {
                self.command_count = self.command_count + one;
                self.video_surface_count = self.video_surface_count + result.surface_count;
                self.video_draw_count = self.video_draw_count + result.draw_count;
            },
        }
    }
}

} // verus!
