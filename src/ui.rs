use crate::text::{OpenText, Persister, Test};
use vstd::prelude::*;

verus! {

/// How a glyph is shown: outside the sample, already typed, the next to type, or
/// still to come.
#[derive(Debug, Copy, Clone, PartialEq, Eq)]
pub enum GlyphClass {
    OutsideSample,
    Typed,
    Cursor,
    Pending,
}

/// The class of glyph `idx` while `test` is under way and `focused` has the focus;
/// with no sample every glyph is outside it.
pub open spec fn class_of(test: Option<Test>, focused: int, idx: int) -> GlyphClass {
    let (s, c, e) = match test {
        Some(t) => (
            t.start_index as int,
            t.start_index + t.cur_char,
            t.start_index + t.length,
        ),
        None => (focused, focused, focused),
    };
    if idx < s || idx >= e {
        GlyphClass::OutsideSample
    } else if idx < c {
        GlyphClass::Typed
    } else if idx == c {
        GlyphClass::Cursor
    } else {
        GlyphClass::Pending
    }
}

impl<P: Persister> OpenText<P> {
    /// How glyph `idx` is shown.
    pub fn glyph_class(&self, idx: usize) -> (r: GlyphClass)
        requires
            self.wf(),
        ensures
            r == class_of(self.test, self.focused_glyph as int, idx as int),
    {
        match &self.test {
            Some(t) => {
                let s = t.start_index;
                let c = t.start_index + t.cur_char;
                let e = t.start_index + t.length;
                if idx < s || idx >= e {
                    GlyphClass::OutsideSample
                } else if idx < c {
                    GlyphClass::Typed
                } else if idx == c {
                    GlyphClass::Cursor
                } else {
                    GlyphClass::Pending
                }
            },
            None => GlyphClass::OutsideSample,
        }
    }
}

/// Which display lines a screen shows, and where: `num_lines` lines from line
/// `first_line` on, the first of them on row `first_row`.
#[derive(Debug, Copy, Clone, PartialEq, Eq)]
pub struct Viewport {
    pub first_line: usize,
    pub first_row: usize,
    pub num_lines: usize,
}

pub open spec fn sat_sub(a: int, b: int) -> int {
    if a > b {
        a - b
    } else {
        0
    }
}

/// The rows inside a frame `height` rows high with a border, the line with the focus
/// kept two rows above the middle when the text allows it.
pub open spec fn viewport_for(cur_line: int, height: int) -> Viewport {
    let num_rows = sat_sub(height, 2);
    let rows_to_center = sat_sub(num_rows / 2, 2);
    let first_row = sat_sub(rows_to_center, cur_line);
    Viewport {
        first_line: sat_sub(cur_line, rows_to_center) as usize,
        first_row: first_row as usize,
        num_lines: (num_rows - first_row) as usize,
    }
}

/// The lines to show when display line `cur_line` holds the focus, in a frame
/// `height` rows high.
pub fn viewport(cur_line: usize, height: u16) -> (r: Viewport)
    ensures
        r == viewport_for(cur_line as int, height as int),
{
    let num_rows: usize = (height as usize).saturating_sub(2);
    let rows_to_center: usize = (num_rows / 2).saturating_sub(2);
    let first_line = cur_line.saturating_sub(rows_to_center);
    let first_row = rows_to_center.saturating_sub(cur_line);
    let num_lines = num_rows - first_row;
    Viewport { first_line, first_row, num_lines }
}

/// The size in character cells of a window `raw_width` by `raw_height` pixels, with
/// cells 20 pixels wide and 44 high.
pub fn get_window_size(raw_width: usize, raw_height: usize) -> (r: (u16, u16))
    ensures
        r.0 == (raw_width / 20) as u16,
        r.1 == (raw_height / 44) as u16,
{
    ((raw_width / 20) as u16, (raw_height / 44) as u16)
}

} // verus!
