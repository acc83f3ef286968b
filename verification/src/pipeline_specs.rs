use vstd::prelude::*;

verus! {

/// WGSL of the terminal pipeline: a viewport uniform, a glyph atlas texture
/// and sampler, and vertex and fragment entry points.
pub const WGPU_TERMINAL_SHADER_WGSL: &'static str = r#"
struct Viewport {
    width_px: f32,
    height_px: f32,
}

@group(0) @binding(0)
var<uniform> viewport: Viewport;

@group(1) @binding(0)
var glyph_atlas: texture_2d<f32>;

@group(1) @binding(1)
var glyph_sampler: sampler;

struct VertexInput {
    @location(0) position_px: vec2<f32>,
    @location(1) uv: vec2<f32>,
    @location(2) color: vec4<f32>,
    @location(3) kind: u32,
    @location(4) glyph_codepoint: u32,
}

struct VertexOutput {
    @builtin(position) position: vec4<f32>,
    @location(0) uv: vec2<f32>,
    @location(1) color: vec4<f32>,
    @location(2) kind: u32,
}

@vertex
fn vs_main(input: VertexInput) -> VertexOutput {
    var output: VertexOutput;

    let x = (input.position_px.x / viewport.width_px) * 2.0 - 1.0;
    let y = 1.0 - (input.position_px.y / viewport.height_px) * 2.0;

    output.position = vec4<f32>(x, y, 0.0, 1.0);
    output.uv = input.uv;
    output.color = input.color;
    output.kind = input.kind;

    return output;
}

@fragment
fn fs_main(input: VertexOutput) -> @location(0) vec4<f32> {
    if (input.kind == 1u) {
        let glyph_sample = textureSample(
            glyph_atlas,
            glyph_sampler,
            input.uv,
        );

        let color_sum = glyph_sample.r + glyph_sample.g + glyph_sample.b;

        if (color_sum > 0.001) {
            return glyph_sample;
        }

        return vec4<f32>(
            input.color.rgb,
            input.color.a * glyph_sample.a,
        );
    }

    return input.color;
}
"#;

/// Vertex kind of background quads in the terminal shader.
pub const WGPU_VERTEX_KIND_BACKGROUND: u32 = 0;

/// Vertex kind of glyph quads in the terminal shader.
pub const WGPU_VERTEX_KIND_GLYPH: u32 = 1;

/// Vertex kind of underline and geometric quads in the terminal shader.
pub const WGPU_VERTEX_KIND_UNDERLINE: u32 = 2;

/// The shader module of the terminal pipeline and its entry points and
/// bindings.
#[derive(Debug, Clone, Copy, PartialEq, Eq)]
pub struct WgpuTerminalShaderSpec {
    pub source: &'static str,
    pub vertex_entry: &'static str,
    pub fragment_entry: &'static str,
    pub viewport_binding: u32,
    pub viewport_bind_group: u32,
}

impl WgpuTerminalShaderSpec {
    pub fn new() -> (spec: Self)
        ensures
            spec.source == WGPU_TERMINAL_SHADER_WGSL,
            spec.vertex_entry == "vs_main",
            spec.fragment_entry == "fs_main",
            spec.viewport_binding == 0,
            spec.viewport_bind_group == 0,
    {
        WgpuTerminalShaderSpec {
            source: WGPU_TERMINAL_SHADER_WGSL,
            vertex_entry: "vs_main",
            fragment_entry: "fs_main",
            viewport_binding: 0,
            viewport_bind_group: 0,
        }
    }

    pub fn shader_source(&self) -> (source: &'static str)
        ensures
            source == self.source,
    {
        self.source
    }
}

impl Default for WgpuTerminalShaderSpec {
    fn default() -> (spec: Self)
        ensures
            spec.source == WGPU_TERMINAL_SHADER_WGSL,
            spec.vertex_entry == "vs_main",
            spec.fragment_entry == "fs_main",
            spec.viewport_binding == 0,
            spec.viewport_bind_group == 0,
    {
        Self::new()
    }
}

/// WGSL placed before a user background shader: the uniforms and a vertex
/// stage that covers the viewport with one triangle.
pub const BACKGROUND_SHADER_PREFIX: &'static str = r#"
struct GerminalBackgroundUniforms {
    resolution: vec2<f32>,
    time: f32,
    opacity: f32,
};

@group(0) @binding(0)
var<uniform> germinal_background: GerminalBackgroundUniforms;

struct GerminalBackgroundVertexOutput {
    @builtin(position) position: vec4<f32>,
};

@vertex
fn germinal_background_vs(@builtin(vertex_index) vertex_index: u32) -> GerminalBackgroundVertexOutput {
    let positions = array<vec2<f32>, 3>(
        vec2<f32>(-1.0, -1.0),
        vec2<f32>(3.0, -1.0),
        vec2<f32>(-1.0, 3.0),
    );
    var output: GerminalBackgroundVertexOutput;
    output.position = vec4<f32>(positions[vertex_index], 0.0, 1.0);
    return output;
}
"#;

/// WGSL placed after a user background shader: the fragment stage that calls
/// the user's `background` function and applies the opacity.
pub const BACKGROUND_SHADER_SUFFIX: &'static str = r#"
@fragment
fn germinal_background_fs(
    @builtin(position) position: vec4<f32>,
) -> @location(0) vec4<f32> {
    let resolution = max(germinal_background.resolution, vec2<f32>(1.0));
    let uv = position.xy / resolution;
    let color = background(uv, germinal_background.time, resolution);
    let alpha = clamp(color.a * germinal_background.opacity, 0.0, 1.0);
    return vec4<f32>(color.rgb * alpha, alpha);
}
"#;

/// A user background shader: a label, the WGSL of its `background`
/// function, and whether it animates.
#[derive(Debug, Clone, PartialEq, Eq)]
pub struct WgpuBackgroundShaderSource {
    label: String,
    source: String,
    animated: bool,
}

impl WgpuBackgroundShaderSource {
    pub closed spec fn spec_label(&self) -> Seq<char> {
        self.label@
    }

    pub closed spec fn spec_source(&self) -> Seq<char> {
        self.source@
    }

    pub closed spec fn spec_animated(&self) -> bool {
        self.animated
    }

    pub fn new(label: String, source: String, animated: bool) -> (shader: Self)
        ensures
            shader.spec_label() == label@,
            shader.spec_source() == source@,
            shader.spec_animated() == animated,
    {
        WgpuBackgroundShaderSource { label, source, animated }
    }

    pub fn with_animated(self, animated: bool) -> (shader: Self)
        ensures
            shader.spec_label() == self.spec_label(),
            shader.spec_source() == self.spec_source(),
            shader.spec_animated() == animated,
    {
        WgpuBackgroundShaderSource { label: self.label, source: self.source, animated }
    }

    pub fn label(&self) -> (label: &str)
        ensures
            label@ == self.spec_label(),
    {
        self.label.as_str()
    }

    pub fn source(&self) -> (source: &str)
        ensures
            source@ == self.spec_source(),
    {
        self.source.as_str()
    }

    pub fn animated(&self) -> (animated: bool)
        ensures
            animated == self.spec_animated(),
    {
        self.animated
    }
}

/// The full WGSL module of a background shader: the prefix, a line break, the
/// user source, a line break, and the suffix.
pub fn compose_background_shader(source: &str) -> (shader: String)
    ensures
        shader@ == BACKGROUND_SHADER_PREFIX@ + "\n"@ + source@ + "\n"@ + BACKGROUND_SHADER_SUFFIX@,
{
    let mut shader = String::from_str(BACKGROUND_SHADER_PREFIX);
    shader.append("\n");
    shader.append(source);
    shader.append("\n");
    shader.append(BACKGROUND_SHADER_SUFFIX);
    shader
}

/// A background shader that the device rejected.
#[derive(Debug, Clone, PartialEq, Eq)]
pub enum WgpuBackgroundShaderError {
    Validation { label: String, message: String },
}

/// Encodes one terminal frame into a command encoder.
#[derive(Debug, Clone, Copy, Default)]
pub struct WgpuTerminalCommandEncoderAdapter;

impl WgpuTerminalCommandEncoderAdapter {
    pub fn new() -> (adapter: Self) {
        WgpuTerminalCommandEncoderAdapter
    }
}

/// The shape of the terminal render pass: one color attachment and nothing
/// else.
#[derive(Debug, Clone, Copy, PartialEq, Eq)]
pub struct WgpuTerminalCommandEncoderAdapterSpec {
    pub color_attachment_count: usize,
    pub has_depth_stencil_attachment: bool,
    pub has_timestamp_writes: bool,
    pub has_occlusion_query_set: bool,
    pub has_multiview_mask: bool,
}

impl WgpuTerminalCommandEncoderAdapterSpec {
    pub fn new() -> (spec: Self)
        ensures
            spec.color_attachment_count == 1,
            !spec.has_depth_stencil_attachment,
            !spec.has_timestamp_writes,
            !spec.has_occlusion_query_set,
            !spec.has_multiview_mask,
    {
        WgpuTerminalCommandEncoderAdapterSpec {
            color_attachment_count: 1,
            has_depth_stencil_attachment: false,
            has_timestamp_writes: false,
            has_occlusion_query_set: false,
            has_multiview_mask: false,
        }
    }
}

impl Default for WgpuTerminalCommandEncoderAdapterSpec {
    fn default() -> (spec: Self)
        ensures
            spec.color_attachment_count == 1,
            !spec.has_depth_stencil_attachment,
            !spec.has_timestamp_writes,
            !spec.has_occlusion_query_set,
            !spec.has_multiview_mask,
    {
        Self::new()
    }
}

/// The steps of presenting a surface frame: all of them.
#[derive(Debug, Clone, Copy, PartialEq, Eq)]
pub struct WgpuTerminalSurfaceFramePresenterSpec {
    pub acquires_surface_texture: bool,
    pub creates_texture_view: bool,
    pub creates_command_encoder: bool,
    pub submits_command_buffer: bool,
    pub presents_surface_texture: bool,
}

impl WgpuTerminalSurfaceFramePresenterSpec {
    pub fn new() -> (spec: Self)
        ensures
            spec.acquires_surface_texture,
            spec.creates_texture_view,
            spec.creates_command_encoder,
            spec.submits_command_buffer,
            spec.presents_surface_texture,
    {
        WgpuTerminalSurfaceFramePresenterSpec {
            acquires_surface_texture: true,
            creates_texture_view: true,
            creates_command_encoder: true,
            submits_command_buffer: true,
            presents_surface_texture: true,
        }
    }
}

impl Default for WgpuTerminalSurfaceFramePresenterSpec {
    fn default() -> (spec: Self)
        ensures
            spec.acquires_surface_texture,
            spec.creates_texture_view,
            spec.creates_command_encoder,
            spec.submits_command_buffer,
            spec.presents_surface_texture,
    {
        Self::new()
    }
}

/// Why a surface frame was not presented.
#[derive(Debug, Clone, Copy, PartialEq, Eq, Structural)]
pub enum WgpuTerminalSurfaceFramePresentError {
    Timeout,
    Occluded,
    Outdated,
    Lost,
    Validation,
}

/// How a render pass starts from the target's previous contents.
#[derive(Debug, Clone, Copy, PartialEq, Eq, Structural)]
pub enum WgpuTerminalLoadOp {
    Clear,
    Load,
}

/// How a layer of a frame's render passes starts: on what the earlier layers
/// drew when any of them drew something, else as the target's plan says.
pub fn layer_load_op(earlier_layer_encoded: bool, plan_load_op: WgpuTerminalLoadOp) -> (load_op: WgpuTerminalLoadOp)
    ensures
        load_op == if earlier_layer_encoded {
            WgpuTerminalLoadOp::Load
        } else {
            plan_load_op
        },
{
    if earlier_layer_encoded {
        WgpuTerminalLoadOp::Load
    } else {
        plan_load_op
    }
}

/// Which glyph source an atlas comes from.
#[derive(Debug, Clone, Copy, PartialEq, Eq, Structural)]
pub enum WgpuTerminalGlyphAtlasSourceKind {
    Debug5x7,
    Crossfont,
}

/// Range of video sample values.
#[derive(Debug, Clone, Copy, PartialEq, Eq, Structural)]
pub enum WgpuVideoSurfaceColorRange {
    Full,
    Limited,
}

/// YUV to RGB matrix of video frames.
#[derive(Debug, Clone, Copy, PartialEq, Eq, Structural)]
pub enum WgpuVideoSurfaceColorMatrix {
    Bt601,
    Bt709,
}

/// Color range and matrix of a video surface.
#[derive(Debug, Clone, Copy, PartialEq, Eq, Structural)]
pub struct WgpuVideoSurfaceColorProfile {
    pub range: WgpuVideoSurfaceColorRange,
    pub matrix: WgpuVideoSurfaceColorMatrix,
}

impl Default for WgpuVideoSurfaceColorProfile {
    /// Limited range with the BT.709 matrix.
    fn default() -> (profile: Self)
        ensures
            profile.range == WgpuVideoSurfaceColorRange::Limited,
            profile.matrix == WgpuVideoSurfaceColorMatrix::Bt709,
    {
        WgpuVideoSurfaceColorProfile {
            range: WgpuVideoSurfaceColorRange::Limited,
            matrix: WgpuVideoSurfaceColorMatrix::Bt709,
        }
    }
}

/// Which GPU the terminal asks for.
#[derive(Debug, Clone, Copy, PartialEq, Eq, Structural)]
pub enum WgpuTerminalPowerPreference {
    High,
    Low,
}

impl Default for WgpuTerminalPowerPreference {
    fn default() -> (preference: Self)
        ensures
            preference == WgpuTerminalPowerPreference::High,
    {
        WgpuTerminalPowerPreference::High
    }
}

/// Kind of a GPU adapter.
#[derive(Debug, Clone, Copy, PartialEq, Eq, Structural)]
pub enum GpuDeviceType {
    Other,
    IntegratedGpu,
    DiscreteGpu,
    VirtualGpu,
    Cpu,
}

/// High performance when a discrete GPU is present, low power otherwise.
pub fn terminal_power_preference_for_device_types(device_types: &[GpuDeviceType]) -> (preference:
    WgpuTerminalPowerPreference)
    ensures
        preference == if exists|i: int|
            0 <= i < device_types@.len() && device_types@[i] == GpuDeviceType::DiscreteGpu {
            WgpuTerminalPowerPreference::High
        } else {
            WgpuTerminalPowerPreference::Low
        },
{
    let mut i: usize = 0;
    while i < device_types.len()
        invariant
            i <= device_types@.len(),
            forall|j: int| 0 <= j < i ==> device_types@[j] != GpuDeviceType::DiscreteGpu,
        decreases device_types@.len() - i,
    {
        if device_types[i] == GpuDeviceType::DiscreteGpu {
            return WgpuTerminalPowerPreference::High;
        }
        i = i + 1;
    }
    WgpuTerminalPowerPreference::Low
}

/// How a surface's alpha is composited with what lies under the window.
#[derive(Debug, Clone, Copy, PartialEq, Eq, Structural)]
pub enum WgpuCompositeAlphaMode {
    Auto,
    Opaque,
    PreMultiplied,
    PostMultiplied,
    Inherit,
}

/// The alpha mode of a transparent window's surface: premultiplied when the
/// surface supports it, else whatever the platform picks.
pub fn transparent_surface_alpha_mode(supported: &[WgpuCompositeAlphaMode]) -> (mode: WgpuCompositeAlphaMode)
    ensures
        mode == if supported@.contains(WgpuCompositeAlphaMode::PreMultiplied) {
            WgpuCompositeAlphaMode::PreMultiplied
        } else {
            WgpuCompositeAlphaMode::Auto
        },
{
    let mut i: usize = 0;
    while i < supported.len()
        invariant
            i <= supported@.len(),
            forall|j: int| 0 <= j < i ==> supported@[j] != WgpuCompositeAlphaMode::PreMultiplied,
        decreases supported@.len() - i,
    {
        if supported[i] == WgpuCompositeAlphaMode::PreMultiplied {
            assert(supported@[i as int] == WgpuCompositeAlphaMode::PreMultiplied);
            return WgpuCompositeAlphaMode::PreMultiplied;
        }
        i = i + 1;
    }
    WgpuCompositeAlphaMode::Auto
}

/// Creates the viewport uniform bind group of the terminal pipeline.
#[derive(Debug, Clone, Copy, Default)]
pub struct WgpuViewportBindGroupFactory;

impl WgpuViewportBindGroupFactory {
    pub fn new() -> (factory: Self) {
        WgpuViewportBindGroupFactory
    }
}

} // verus!
