use vstd::prelude::*;
use crate::colors::{RgbColorDto, TextStyleDto};
use crate::ids::{RenderTargetId, SeqNo};

verus! {

/// A styled run of text on one row of a render surface.
#[derive(Debug, Clone, PartialEq, Eq)]
pub struct RenderSurfaceRunSnapshot {
    pub x: u32,
    pub text: String,
    pub style: TextStyleDto,
}

/// The runs of one row of a render surface.
#[derive(Debug, Clone, PartialEq, Eq)]
pub struct RenderSurfaceRowSnapshot {
    pub y: u32,
    pub runs: Vec<RenderSurfaceRunSnapshot>,
}

/// How a cursor is drawn.
#[derive(Debug, Clone, Copy, PartialEq, Eq, Structural)]
pub enum RenderSurfaceCursorShape {
    Block,
    Underline,
    Beam,
    HollowBlock,
    Hidden,
}

/// The cursor of a render surface: its cell, whether its pane has focus,
/// its shape, and whether it blinks.
#[derive(Debug, Clone, Copy, PartialEq, Eq, Structural)]
pub struct RenderSurfaceCursorSnapshot {
    pub x: u32,
    pub y: u32,
    pub focused: bool,
    pub shape: RenderSurfaceCursorShape,
    pub blinking: bool,
}

/// Text being composed by an input method, not yet committed.
#[derive(Debug, Clone, PartialEq, Eq)]
pub struct RenderSurfaceImePreeditSnapshot {
    pub text: String,
    pub cursor_range: Option<(usize, usize)>,
}

/// A video surface embedded in a render surface: its id and where it is
/// drawn, in pixels.
#[derive(Debug, Clone, PartialEq, Eq)]
pub struct RenderSurfaceVideoSurfaceSnapshot {
    pub id: String,
    pub x_px: u32,
    pub y_px: u32,
    pub width_px: u32,
    pub height_px: u32,
}

/// A video surface seen as plain values.
pub struct VideoSurfaceView {
    pub id: Seq<char>,
    pub x_px: u32,
    pub y_px: u32,
    pub width_px: u32,
    pub height_px: u32,
}

impl View for RenderSurfaceVideoSurfaceSnapshot {
    type V = VideoSurfaceView;

    open spec fn view(&self) -> VideoSurfaceView {
        VideoSurfaceView {
            id: self.id@,
            x_px: self.x_px,
            y_px: self.y_px,
            width_px: self.width_px,
            height_px: self.height_px,
        }
    }
}

pub open spec fn video_surfaces_view(surfaces: Seq<RenderSurfaceVideoSurfaceSnapshot>) -> Seq<VideoSurfaceView> {
    surfaces.map_values(|surface: RenderSurfaceVideoSurfaceSnapshot| surface@)
}

/// What a render surface shows at one sequence number: its rows of styled
/// runs, the video surfaces and how many image surfaces it embeds, the rows
/// that changed, the cursor, and any text being composed.
#[derive(Debug, Clone, PartialEq, Eq)]
pub struct RenderSurfaceSnapshot {
    pub target_id: RenderTargetId,
    pub latest_seq: SeqNo,
    pub default_background: RgbColorDto,
    pub rows: Vec<RenderSurfaceRowSnapshot>,
    pub video_surfaces: Vec<RenderSurfaceVideoSurfaceSnapshot>,
    pub image_surface_count: usize,
    pub dirty_rows: Vec<u32>,
    pub cursor: Option<RenderSurfaceCursorSnapshot>,
    pub ime_preedit: Option<RenderSurfaceImePreeditSnapshot>,
}

/// A run seen as plain values.
pub struct RunView {
    pub x: u32,
    pub text: Seq<char>,
    pub style: TextStyleDto,
}

impl View for RenderSurfaceRunSnapshot {
    type V = RunView;

    open spec fn view(&self) -> RunView {
        RunView { x: self.x, text: self.text@, style: self.style }
    }
}

/// The runs of a row, seen as plain values.
pub open spec fn runs_view(runs: Seq<RenderSurfaceRunSnapshot>) -> Seq<RunView> {
    runs.map_values(|run: RenderSurfaceRunSnapshot| run@)
}

/// A row seen as plain values.
pub struct RowView {
    pub y: u32,
    pub runs: Seq<RunView>,
}

impl View for RenderSurfaceRowSnapshot {
    type V = RowView;

    open spec fn view(&self) -> RowView {
        RowView { y: self.y, runs: runs_view(self.runs@) }
    }
}

/// Text being composed, seen as plain values.
pub struct PreeditView {
    pub text: Seq<char>,
    pub cursor_range: Option<(usize, usize)>,
}

impl View for RenderSurfaceImePreeditSnapshot {
    type V = PreeditView;

    open spec fn view(&self) -> PreeditView {
        PreeditView { text: self.text@, cursor_range: self.cursor_range }
    }
}

/// A surface snapshot seen as plain values.
pub struct SurfaceView {
    pub target_id: RenderTargetId,
    pub latest_seq: SeqNo,
    pub default_background: RgbColorDto,
    pub rows: Seq<RowView>,
    pub video_surfaces: Seq<VideoSurfaceView>,
    pub image_surface_count: usize,
    pub dirty_rows: Seq<u32>,
    pub cursor: Option<RenderSurfaceCursorSnapshot>,
    pub ime_preedit: Option<PreeditView>,
}

impl View for RenderSurfaceSnapshot {
    type V = SurfaceView;

    open spec fn view(&self) -> SurfaceView {
        SurfaceView {
            target_id: self.target_id,
            latest_seq: self.latest_seq,
            default_background: self.default_background,
            rows: self.rows@.map_values(|row: RenderSurfaceRowSnapshot| row@),
            video_surfaces: video_surfaces_view(self.video_surfaces@),
            image_surface_count: self.image_surface_count,
            dirty_rows: self.dirty_rows@,
            cursor: self.cursor,
            ime_preedit: match self.ime_preedit {
                Some(preedit) => Some(preedit@),
                None => None,
            },
        }
    }
}

/// Whether two lists of runs hold the same runs.
pub fn same_runs(a: &Vec<RenderSurfaceRunSnapshot>, b: &Vec<RenderSurfaceRunSnapshot>) -> (r: bool)
    ensures
        r == (runs_view(a@) == runs_view(b@)),
{
    if a.len() != b.len() {
        assert(runs_view(a@).len() != runs_view(b@).len());
        return false;
    }
    let mut i: usize = 0;
    while i < a.len()
        invariant
            a@.len() == b@.len(),
            i <= a@.len(),
            forall|j: int| 0 <= j < i ==> runs_view(a@)[j] == runs_view(b@)[j],
        decreases a@.len() - i,
    {
        let x = &a[i];
        let y = &b[i];
        if x.x != y.x || x.text != y.text || x.style != y.style {
            assert(runs_view(a@)[i as int] != runs_view(b@)[i as int]);
            return false;
        }
        assert(runs_view(a@)[i as int] == runs_view(b@)[i as int]);
        i = i + 1;
    }
    assert(runs_view(a@) =~= runs_view(b@));
    true
}

/// Whether two lists of rows hold the same rows.
pub fn same_rows(a: &Vec<RenderSurfaceRowSnapshot>, b: &Vec<RenderSurfaceRowSnapshot>) -> (r: bool)
    ensures
        r == (a@.map_values(|row: RenderSurfaceRowSnapshot| row@) == b@.map_values(
            |row: RenderSurfaceRowSnapshot| row@,
        )),
{
    let ghost va = a@.map_values(|row: RenderSurfaceRowSnapshot| row@);
    let ghost vb = b@.map_values(|row: RenderSurfaceRowSnapshot| row@);
    if a.len() != b.len() {
        assert(va.len() != vb.len());
        return false;
    }
    let mut i: usize = 0;
    while i < a.len()
        invariant
            a@.len() == b@.len(),
            i <= a@.len(),
            va == a@.map_values(|row: RenderSurfaceRowSnapshot| row@),
            vb == b@.map_values(|row: RenderSurfaceRowSnapshot| row@),
            forall|j: int| 0 <= j < i ==> va[j] == vb[j],
        decreases a@.len() - i,
    {
        if a[i].y != b[i].y || !same_runs(&a[i].runs, &b[i].runs) {
            assert(va[i as int] != vb[i as int]);
            return false;
        }
        assert(va[i as int] == vb[i as int]);
        i = i + 1;
    }
    assert(va =~= vb);
    true
}

/// Whether two lists of rows numbers are the same.
fn same_row_numbers(a: &Vec<u32>, b: &Vec<u32>) -> (r: bool)
    ensures
        r == (a@ == b@),
{
    if a.len() != b.len() {
        return false;
    }
    let mut i: usize = 0;
    while i < a.len()
        invariant
            a@.len() == b@.len(),
            i <= a@.len(),
            forall|j: int| 0 <= j < i ==> a@[j] == b@[j],
        decreases a@.len() - i,
    {
        if a[i] != b[i] {
            return false;
        }
        i = i + 1;
    }
    assert(a@ =~= b@);
    true
}

/// Whether two lists of video surfaces are the same.
pub fn same_video_surfaces(
    a: &Vec<RenderSurfaceVideoSurfaceSnapshot>,
    b: &Vec<RenderSurfaceVideoSurfaceSnapshot>,
) -> (r: bool)
    ensures
        r == (video_surfaces_view(a@) == video_surfaces_view(b@)),
{
    if a.len() != b.len() {
        assert(video_surfaces_view(a@).len() != video_surfaces_view(b@).len());
        return false;
    }
    let mut i: usize = 0;
    while i < a.len()
        invariant
            a@.len() == b@.len(),
            i <= a@.len(),
            forall|j: int| 0 <= j < i ==> video_surfaces_view(a@)[j] == video_surfaces_view(b@)[j],
        decreases a@.len() - i,
    {
        let x = &a[i];
        let y = &b[i];
        if x.id != y.id || x.x_px != y.x_px || x.y_px != y.y_px || x.width_px != y.width_px || x.height_px
            != y.height_px {
            assert(video_surfaces_view(a@)[i as int] != video_surfaces_view(b@)[i as int]);
            return false;
        }
        assert(video_surfaces_view(a@)[i as int] == video_surfaces_view(b@)[i as int]);
        i = i + 1;
    }
    assert(video_surfaces_view(a@) =~= video_surfaces_view(b@));
    true
}

/// Whether two surface snapshots are the same.
pub fn same_surface(a: &RenderSurfaceSnapshot, b: &RenderSurfaceSnapshot) -> (r: bool)
    ensures
        r == (a@ == b@),
{
    if a.target_id != b.target_id || a.latest_seq != b.latest_seq || a.default_background
        != b.default_background
        || a.image_surface_count != b.image_surface_count || a.cursor != b.cursor {
        return false;
    }
    if !same_video_surfaces(&a.video_surfaces, &b.video_surfaces) {
        return false;
    }
    if !same_row_numbers(&a.dirty_rows, &b.dirty_rows) {
        return false;
    }
    if !same_rows(&a.rows, &b.rows) {
        return false;
    }
    match (&a.ime_preedit, &b.ime_preedit) {
        (None, None) => true,
        (Some(x), Some(y)) => x.text == y.text && x.cursor_range == y.cursor_range,
        _ => false,
    }
}

} // verus!
