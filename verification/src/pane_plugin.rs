use vstd::prelude::*;

verus! {

/// What a pane's render plugin asks of the window after drawing.
#[derive(Debug, Clone, Copy, Default, PartialEq, Eq, Structural)]
pub struct WgpuPaneRenderResult {
    pub request_redraw: bool,
}

impl WgpuPaneRenderResult {
    /// Nothing more to draw.
    pub fn idle() -> (result: Self)
        ensures
            !result.request_redraw,
    {
        WgpuPaneRenderResult { request_redraw: false }
    }

    /// Draw again.
    pub fn redraw() -> (result: Self)
        ensures
            result.request_redraw,
    {
        WgpuPaneRenderResult { request_redraw: true }
    }
}

/// What a pane's render plugin asks of the window after an input event.
#[derive(Debug, Clone, Copy, Default, PartialEq, Eq, Structural)]
pub struct WgpuPaneInputResult {
    pub request_redraw: bool,
}

impl WgpuPaneInputResult {
    /// The event was handled and nothing changed on screen.
    pub fn handled() -> (result: Self)
        ensures
            !result.request_redraw,
    {
        WgpuPaneInputResult { request_redraw: false }
    }

    /// The event changed what the pane shows.
    pub fn redraw() -> (result: Self)
        ensures
            result.request_redraw,
    {
        WgpuPaneInputResult { request_redraw: true }
    }
}

} // verus!
