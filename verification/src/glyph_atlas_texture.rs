use vstd::prelude::*;
use crate::glyph_atlas::WgpuTerminalGlyphAtlas;

verus! {

/// The texel format of a glyph atlas texture.
#[derive(Debug, Clone, Copy, PartialEq, Eq, Structural)]
pub enum WgpuTerminalAtlasTextureFormat {
    Rgba8UnormSrgb,
}

/// The dimensionality of a texture.
#[derive(Debug, Clone, Copy, PartialEq, Eq, Structural)]
pub enum WgpuTerminalTextureDimension {
    D2,
}

/// How a texture is sampled between texels.
#[derive(Debug, Clone, Copy, PartialEq, Eq, Structural)]
pub enum WgpuTerminalFilterMode {
    Nearest,
    Linear,
}

/// What a texture may be used for.
#[derive(Debug, Clone, Copy, PartialEq, Eq, Structural)]
pub struct WgpuTerminalTextureUsages {
    pub texture_binding: bool,
    pub copy_dst: bool,
}

/// How the glyph atlas texture is made and sampled: one sRGB RGBA 2D level,
/// bound for sampling and written by copies, sampled without filtering.
#[derive(Debug, Clone, Copy, PartialEq, Eq, Structural)]
pub struct WgpuTerminalGlyphAtlasTextureSpec {
    pub format: WgpuTerminalAtlasTextureFormat,
    pub dimension: WgpuTerminalTextureDimension,
    pub mip_level_count: u32,
    pub sample_count: u32,
    pub usage: WgpuTerminalTextureUsages,
    pub sampler_mag_filter: WgpuTerminalFilterMode,
    pub sampler_min_filter: WgpuTerminalFilterMode,
}

/// The glyph atlas texture's specification.
pub open spec fn atlas_texture_spec() -> WgpuTerminalGlyphAtlasTextureSpec {
    WgpuTerminalGlyphAtlasTextureSpec {
        format: WgpuTerminalAtlasTextureFormat::Rgba8UnormSrgb,
        dimension: WgpuTerminalTextureDimension::D2,
        mip_level_count: 1,
        sample_count: 1,
        usage: WgpuTerminalTextureUsages { texture_binding: true, copy_dst: true },
        sampler_mag_filter: WgpuTerminalFilterMode::Nearest,
        sampler_min_filter: WgpuTerminalFilterMode::Nearest,
    }
}

impl WgpuTerminalGlyphAtlasTextureSpec {
    pub fn new() -> (spec: Self)
        ensures
            spec == atlas_texture_spec(),
    {
        WgpuTerminalGlyphAtlasTextureSpec {
            format: WgpuTerminalAtlasTextureFormat::Rgba8UnormSrgb,
            dimension: WgpuTerminalTextureDimension::D2,
            mip_level_count: 1,
            sample_count: 1,
            usage: WgpuTerminalTextureUsages { texture_binding: true, copy_dst: true },
            sampler_mag_filter: WgpuTerminalFilterMode::Nearest,
            sampler_min_filter: WgpuTerminalFilterMode::Nearest,
        }
    }
}

impl Default for WgpuTerminalGlyphAtlasTextureSpec {
    fn default() -> (spec: Self)
        ensures
            spec == atlas_texture_spec(),
    {
        Self::new()
    }
}

/// The bytes to write into a glyph atlas texture: RGBA rows of `width_px`
/// texels.
#[derive(Debug, Clone, PartialEq, Eq)]
pub struct WgpuTerminalGlyphAtlasUploadBytes {
    pub width_px: u32,
    pub height_px: u32,
    pub pixels: Vec<u8>,
    pub format: WgpuTerminalAtlasTextureFormat,
}

impl WgpuTerminalGlyphAtlasUploadBytes {
    pub fn is_empty(&self) -> (r: bool)
        ensures
            r == (self.width_px == 0 || self.height_px == 0 || self.pixels@.len() == 0),
    {
        self.width_px == 0 || self.height_px == 0 || self.pixels.len() == 0
    }

    pub fn byte_len(&self) -> (r: usize)
        ensures
            r == self.pixels@.len(),
    {
        self.pixels.len()
    }

    /// Four bytes per texel.
    pub fn expected_byte_len(&self) -> (r: usize)
        requires
            self.width_px * self.height_px * 4 <= u32::MAX,
        ensures
            r == self.width_px * self.height_px * 4,
    {
        let texels: u32 = self.width_px * self.height_px;
        (texels * 4) as usize
    }

    pub fn bytes_per_row(&self) -> (r: u32)
        requires
            self.width_px * 4 <= u32::MAX,
        ensures
            r == self.width_px * 4,
    {
        self.width_px * 4
    }

    pub fn rows_per_image(&self) -> (r: u32)
        ensures
            r == self.height_px,
    {
        self.height_px
    }

    /// The bytes are exactly the texture's texels, with no padding.
    pub fn is_tightly_packed(&self) -> (r: bool)
        requires
            self.width_px * self.height_px * 4 <= u32::MAX,
        ensures
            r == (self.pixels@.len() == self.width_px * self.height_px * 4),
    {
        self.byte_len() == self.expected_byte_len()
    }
}

/// The RGBA texels of an atlas: RGBA pixels are kept as they are; one alpha
/// byte per pixel becomes black with that alpha; any other length is copied
/// into a zeroed RGBA buffer as far as it goes.
pub open spec fn rgba_texels(pixels: Seq<u8>, texel_count: int) -> Seq<u8> {
    if pixels.len() == texel_count * 4 {
        pixels
    } else if pixels.len() == texel_count {
        Seq::new((texel_count * 4) as nat, |i: int| if i % 4 == 3 { pixels[i / 4] } else { 0u8 })
    } else {
        Seq::new(
            (texel_count * 4) as nat,
            |i: int| if i < pixels.len() { pixels[i] } else { 0u8 },
        )
    }
}

pub fn rgba_pixels_from_atlas(atlas: &WgpuTerminalGlyphAtlas) -> (pixels: Vec<u8>)
    requires
        atlas.width_px * atlas.height_px <= u32::MAX,
        atlas.width_px * atlas.height_px * 4 <= usize::MAX,
    ensures
        pixels@ == rgba_texels(atlas.pixels@, atlas.width_px * atlas.height_px),
{
    let alpha_len: u32 = atlas.width_px * atlas.height_px;
    let alpha_len = alpha_len as usize;
    let rgba_len = alpha_len * 4;
    if atlas.pixels.len() == rgba_len {
        return atlas.pixels.clone();
    }
    let ghost expected = rgba_texels(atlas.pixels@, atlas.width_px * atlas.height_px);
    let mut pixels: Vec<u8> = Vec::new();
    if atlas.pixels.len() == alpha_len {
        let mut i: usize = 0;
        while i < alpha_len
            invariant
                i <= alpha_len,
                rgba_len == alpha_len * 4,
                atlas.pixels@.len() == alpha_len,
                alpha_len == atlas.width_px * atlas.height_px,
                expected == rgba_texels(atlas.pixels@, atlas.width_px * atlas.height_px),
                pixels@ == expected.subrange(0, i * 4),
            decreases alpha_len - i,
        {
            let alpha = atlas.pixels[i];
            pixels.push(0);
            pixels.push(0);
            pixels.push(0);
            pixels.push(alpha);
            proof {
                assert forall|k: int| i * 4 <= k < i * 4 + 4 implies expected[k] == (if k % 4 == 3 {
                    atlas.pixels@[k / 4]
                } else {
                    0u8
                }) by {}
                assert(pixels@ =~= expected.subrange(0, i * 4 + 4)) by {
                    assert forall|k: int| 0 <= k < i * 4 + 4 implies pixels@[k] == expected[k] by {
                        if k >= i * 4 {
                            assert(k / 4 == i as int) by (nonlinear_arith)
                                requires
                                    i * 4 <= k < i * 4 + 4,
                            ;
                            assert(k % 4 == k - i * 4) by (nonlinear_arith)
                                requires
                                    i * 4 <= k < i * 4 + 4,
                            ;
                        }
                    }
                }
            }
            i = i + 1;
        }
        assert(pixels@ =~= expected);
        return pixels;
    }
    let mut i: usize = 0;
    while i < rgba_len
        invariant
            i <= rgba_len,
            rgba_len == alpha_len * 4,
            alpha_len == atlas.width_px * atlas.height_px,
            atlas.pixels@.len() != alpha_len,
            atlas.pixels@.len() != rgba_len,
            expected == rgba_texels(atlas.pixels@, atlas.width_px * atlas.height_px),
            pixels@ == expected.subrange(0, i as int),
        decreases rgba_len - i,
    {
        let byte = if i < atlas.pixels.len() {
            atlas.pixels[i]
        } else {
            0
        };
        pixels.push(byte);
        assert(pixels@ =~= expected.subrange(0, i as int + 1));
        i = i + 1;
    }
    assert(pixels@ =~= expected);
    pixels
}

/// Prepares the upload of glyph atlases.
#[derive(Debug, Clone, Copy, Default)]
pub struct WgpuTerminalGlyphAtlasTextureFactory;

impl WgpuTerminalGlyphAtlasTextureFactory {
    pub fn new() -> (factory: Self) {
        WgpuTerminalGlyphAtlasTextureFactory
    }

    /// The upload of an atlas as sRGB RGBA texels; an empty atlas has none.
    pub fn build_upload_bytes(&self, atlas: &WgpuTerminalGlyphAtlas) -> (upload: Option<
        WgpuTerminalGlyphAtlasUploadBytes,
    >)
        requires
            atlas.width_px * atlas.height_px <= u32::MAX,
            atlas.width_px * atlas.height_px * 4 <= usize::MAX,
        ensures
            (atlas.width_px == 0 || atlas.height_px == 0 || atlas.pixels@.len() == 0) ==> upload
                is None,
            !(atlas.width_px == 0 || atlas.height_px == 0 || atlas.pixels@.len() == 0) ==> {
                &&& upload is Some
                &&& upload->0.width_px == atlas.width_px
                &&& upload->0.height_px == atlas.height_px
                &&& upload->0.pixels@ == rgba_texels(
                    atlas.pixels@,
                    atlas.width_px * atlas.height_px,
                )
                &&& upload->0.format == WgpuTerminalAtlasTextureFormat::Rgba8UnormSrgb
            },
    {
        if atlas.is_empty() {
            return None;
        }
        Some(
            WgpuTerminalGlyphAtlasUploadBytes {
                width_px: atlas.width_px,
                height_px: atlas.height_px,
                pixels: rgba_pixels_from_atlas(atlas),
                format: WgpuTerminalAtlasTextureFormat::Rgba8UnormSrgb,
            },
        )
    }
}

/// The upload of a non-empty atlas is tightly packed: four bytes for each of
/// its texels.
pub proof fn lemma_upload_is_tightly_packed(pixels: Seq<u8>, texel_count: int)
    requires
        texel_count >= 0,
    ensures
        rgba_texels(pixels, texel_count).len() == texel_count * 4,
{
}

} // verus!
