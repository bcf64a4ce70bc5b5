//! The log widget: the lines of the log that end at a scroll offset.
use std::collections::VecDeque;

use vstd::prelude::*;
use vstd::string::StringExecFns;

verus! {

/// A view of log lines that ends at `scroll_offset`.
#[derive(Debug)]
pub struct Log<'a> {
    lines: &'a VecDeque<String>,
    scroll_offset: usize,
}

/// The lines shown on a screen of `height` lines when the view ends at
/// `offset`: the screenful before the offset, or the first screenful while
/// the offset lies within it, cut at the end of the log.
pub open spec fn visible_range(offset: usize, height: u16, len: usize) -> (int, int) {
    let start = if offset >= height { offset - height } else { 0 };
    let end_offset = if offset < height { height as int } else { 0 };
    let end = if offset + end_offset <= len { offset + end_offset } else { len as int };
    (start, end)
}

/// The text of `lines[start..end]`, one line after another.
pub open spec fn joined(lines: Seq<String>, start: int, end: int) -> Seq<char>
    decreases end - start,
{
    if end <= start {
        Seq::empty()
    } else {
        joined(lines, start, end - 1) + lines[end - 1]@
    }
}

impl<'a> Log<'a> {
    pub closed spec fn lines_view(self) -> Seq<String> {
        self.lines@
    }

    pub closed spec fn offset_view(self) -> usize {
        self.scroll_offset
    }

    /// A view of `lines` that starts at their beginning.
    pub fn new(lines: &'a VecDeque<String>) -> (r: Self)
        ensures
            r.lines_view() == lines@,
            r.offset_view() == 0,
    {
        Log { lines, scroll_offset: 0 }
    }

    /// The same view, ending at `offset`.
    pub fn scroll(self, offset: usize) -> (r: Self)
        ensures
            r.lines_view() == self.lines_view(),
            r.offset_view() == offset,
    {
        Log { lines: self.lines, scroll_offset: offset }
    }

    /// The range of lines a screen of `height` lines shows.
    pub fn visible_lines(&self, height: u16) -> (r: (usize, usize))
        ensures
            r.0 == visible_range(self.offset_view(), height, self.lines_view().len() as usize).0,
            r.1 == visible_range(self.offset_view(), height, self.lines_view().len() as usize).1,
    {
        let offset = self.scroll_offset;
        let height = height as usize;
        let end_offset = if offset < height {
            height
        } else {
            0
        };
        let len = self.lines.len();
        let start = offset.saturating_sub(height);
        let end = if offset <= len && end_offset <= len - offset {
            offset + end_offset
        } else {
            len
        };
        (start, end)
    }

    /// The text a screen of `height` lines shows.
    pub fn visible_text(&self, height: u16) -> (r: String)
        ensures
            ({
                let (start, end) = visible_range(
                    self.offset_view(),
                    height,
                    self.lines_view().len() as usize,
                );
                r@ == joined(self.lines_view(), start, end)
            }),
    {
        let (start, end) = self.visible_lines(height);
        let mut text = String::new();
        let mut i = start;
        if start >= end {
            return text;
        }
        while i < end
            invariant
                start <= i <= end,
                end <= self.lines@.len(),
                text@ == joined(self.lines@, start as int, i as int),
            decreases end - i,
        {
            text.append(self.lines[i].as_str());
            i += 1;
        }
        text
    }
}

} // verus!
