//! The coordinate model: where the next glyph is drawn and how much vertical
//! space a widget may take.

use crate::backend::Size;
use vstd::prelude::*;

verus! {

/// The part of a widget to show when it is taller than the space it is given.
#[derive(Debug, Clone, Copy, PartialEq, Eq, Structural, Hash)]
pub enum RenderRegion {
    Top,
    Middle,
    Bottom,
}

impl Default for RenderRegion {
    fn default() -> (region: RenderRegion)
        ensures
            region == RenderRegion::Middle,
    {
        RenderRegion::Middle
    }
}

/// The first hidden-above line count of a widget `natural` lines tall that is
/// shown through a slot of `max_height` lines: nothing is hidden when it fits,
/// otherwise the slot sits at the top, in the middle (rounded toward the top)
/// or at the bottom of the widget.
pub open spec fn clip_start(region: RenderRegion, natural: int, max_height: int) -> int {
    if natural > max_height {
        match region {
            RenderRegion::Top => 0,
            RenderRegion::Middle => (natural - max_height) / 2,
            RenderRegion::Bottom => natural - max_height,
        }
    } else {
        0
    }
}

/// The geometry handed to a widget when it is rendered or measured.
///
/// ```text
///  ____________
/// |            |
/// |     ███████|
/// |  ██████████|
/// |  ██████████|
/// '------------'
/// ```
#[derive(Debug, Clone, Copy, PartialEq, Eq, Structural, Hash, Default)]
pub struct Layout {
    /// Columns already taken on the first line, counted from `offset_x`.
    pub line_offset: u16,
    /// The column where every line of the widget starts.
    pub offset_x: u16,
    /// The row where the widget starts.
    pub offset_y: u16,
    /// The width of the terminal.
    pub width: u16,
    /// The height of the terminal.
    pub height: u16,
    /// The number of rows the widget may take.
    pub max_height: u16,
    /// The part to show when the widget is taller than `max_height`.
    pub render_region: RenderRegion,
}

impl Layout {
    /// Whether the first line starts within the terminal's width, so that
    /// [`line_width`](Layout::line_width) is defined.
    pub open spec fn starts_in_line(self) -> bool {
        self.line_offset + self.offset_x <= self.width
    }

    /// The columns left on the first line.
    pub open spec fn spec_line_width(self) -> int {
        self.width - self.line_offset - self.offset_x
    }

    pub fn new(line_offset: u16, size: Size) -> (layout: Layout)
        ensures
            layout == (Layout {
                line_offset,
                offset_x: 0,
                offset_y: 0,
                width: size.width,
                height: size.height,
                max_height: size.height,
                render_region: RenderRegion::Middle,
            }),
    {
        Layout {
            line_offset,
            offset_x: 0,
            offset_y: 0,
            width: size.width,
            height: size.height,
            max_height: size.height,
            render_region: RenderRegion::Middle,
        }
    }

    pub fn with_line_offset(self, line_offset: u16) -> (layout: Layout)
        ensures
            layout == (Layout { line_offset, ..self }),
    {
        let mut layout = self;
        layout.line_offset = line_offset;
        layout
    }

    pub fn with_size(self, size: Size) -> (layout: Layout)
        ensures
            layout == (Layout { width: size.width, height: size.height, ..self }),
    {
        let mut layout = self;
        layout.set_size(size);
        layout
    }

    pub fn with_offset(self, offset_x: u16, offset_y: u16) -> (layout: Layout)
        ensures
            layout == (Layout { offset_x, offset_y, ..self }),
    {
        let mut layout = self;
        layout.offset_x = offset_x;
        layout.offset_y = offset_y;
        layout
    }

    pub fn with_render_region(self, region: RenderRegion) -> (layout: Layout)
        ensures
            layout == (Layout { render_region: region, ..self }),
    {
        let mut layout = self;
        layout.render_region = region;
        layout
    }

    pub fn with_max_height(self, max_height: u16) -> (layout: Layout)
        ensures
            layout == (Layout { max_height, ..self }),
    {
        let mut layout = self;
        layout.max_height = max_height;
        layout
    }

    /// Continues after a widget that left the cursor at `cursor_pos`, given as
    /// column and row.
    pub fn with_cursor_pos(self, cursor_pos: (u16, u16)) -> (layout: Layout)
        ensures
            layout == (Layout { line_offset: cursor_pos.0, offset_y: cursor_pos.1, ..self }),
    {
        let mut layout = self;
        layout.line_offset = cursor_pos.0;
        layout.offset_y = cursor_pos.1;
        layout
    }

    pub fn set_size(&mut self, terminal_size: Size)
        ensures
            *final(self) == (Layout {
                width: terminal_size.width,
                height: terminal_size.height,
                ..*old(self)
            }),
    {
        self.width = terminal_size.width;
        self.height = terminal_size.height;
    }

    /// The columns left on the first line.
    pub fn line_width(&self) -> (w: u16)
        requires
            self.starts_in_line(),
        ensures
            w == self.spec_line_width(),
    {
        self.width - self.line_offset - self.offset_x
    }

    /// The number of lines to skip at the top of a widget `height` lines tall.
    pub fn get_start(&self, height: u16) -> (start: u16)
        ensures
            start == clip_start(self.render_region, height as int, self.max_height as int),
    {
        if height > self.max_height {
            match self.render_region {
                RenderRegion::Top => 0,
                RenderRegion::Middle => (height - self.max_height) / 2,
                RenderRegion::Bottom => height - self.max_height,
            }
        } else {
            0
        }
    }
}

} // verus!
