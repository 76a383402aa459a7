//! The tool plugin interface: the response a tool gives to an event, and
//! the kinds of options a tool can expose.

use vstd::prelude::*;

verus! {

/// What a tool reports after handling an event.
#[derive(Clone, Debug)]
pub struct ToolResponse {
    /// Whether the canvas was modified.
    pub canvas_modified: bool,
    /// Modified region `(x, y, width, height)`, for repainting.
    pub dirty_rect: Option<(u32, u32, u32, u32)>,
    /// Preview data.
    pub preview: Option<Vec<u8>>,
    /// Status message.
    pub status: Option<String>,
}

impl ToolResponse {
    /// A response reporting nothing.
    pub fn new() -> (r: ToolResponse)
        ensures
            !r.canvas_modified,
            r.dirty_rect is None,
            r.preview is None,
            r.status is None,
    {
        ToolResponse { canvas_modified: false, dirty_rect: None, preview: None, status: None }
    }

    /// The response marked as having modified `dirty_rect`.
    pub fn with_modified(self, dirty_rect: Option<(u32, u32, u32, u32)>) -> (r: ToolResponse)
        ensures
            r.canvas_modified,
            r.dirty_rect == dirty_rect,
            r.preview == self.preview,
            r.status == self.status,
    {
        ToolResponse { canvas_modified: true, dirty_rect, ..self }
    }

    /// The response with `preview` data attached.
    pub fn with_preview(self, preview: Vec<u8>) -> (r: ToolResponse)
        ensures
            r.canvas_modified == self.canvas_modified,
            r.dirty_rect == self.dirty_rect,
            r.preview == Some(preview),
            r.status == self.status,
    {
        ToolResponse { preview: Some(preview), ..self }
    }

    /// The response with a status message.
    pub fn with_status(self, status: &str) -> (r: ToolResponse)
        ensures
            r.canvas_modified == self.canvas_modified,
            r.dirty_rect == self.dirty_rect,
            r.preview == self.preview,
            r.status matches Some(s) && s@ == status@,
    {
        ToolResponse { status: Some(status.to_owned()), ..self }
    }
}

impl Default for ToolResponse {
    /// A response reporting nothing.
    fn default() -> (r: ToolResponse)
        ensures
            !r.canvas_modified,
            r.dirty_rect is None,
            r.preview is None,
            r.status is None,
    {
        ToolResponse::new()
    }
}

/// The kinds of option a tool can expose.
#[derive(Clone, Copy, Debug, PartialEq, Eq, Structural)]
pub enum ToolOptionType {
    Boolean,
    Integer,
    Float,
    String,
    Enum,
    Color,
}

} // verus!
