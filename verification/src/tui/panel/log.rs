//! The log panel: the recent log messages, scrolled by the user.
use vstd::prelude::*;

use crate::tui::event::{AppEventNotification, EventResult, PanelEvent};
use crate::tui::MAX_LOG_MESSAGES;

verus! {

/// How many lines one scroll step moves.
pub const SCROLL_AMOUNT: usize = 10;

/// The keys the log panel acts on.
#[derive(Debug, Clone, Copy, PartialEq, Eq, Structural)]
pub enum LogKey {
    Escape,
    /// Page up or arrow up.
    ScrollUp,
    /// Page down or arrow down.
    ScrollDown,
    Home,
    End,
    Other,
}

/// The log panel. With no scroll offset it follows the newest message;
/// otherwise it shows the messages that end at the offset.
#[derive(Debug)]
pub struct Log {
    scroll_offset: Option<usize>,
}

/// The offset after scrolling up from `offset` (the end of the log when not
/// scrolled), never above the first screenful.
pub open spec fn scrolled_up(offset: Option<usize>, buffer_len: usize, view_height: u16) -> usize {
    let start = match offset {
        Some(o) => o,
        None => buffer_len,
    };
    let lowered = if start >= SCROLL_AMOUNT { start - SCROLL_AMOUNT } else { 0 };
    if lowered >= view_height { lowered as usize } else { view_height as usize }
}

/// The offset after scrolling down; reaching the end of the log follows it
/// again.
pub open spec fn scrolled_down(offset: Option<usize>, buffer_len: usize) -> Option<usize> {
    let start = match offset {
        Some(o) => o,
        None => buffer_len,
    };
    if start + SCROLL_AMOUNT >= buffer_len {
        None
    } else {
        Some((start + SCROLL_AMOUNT) as usize)
    }
}

/// The offset after a message arrives: a scrolled view of a full log moves
/// up one line with its messages, never above the first screenful.
pub open spec fn after_message(offset: Option<usize>, buffer_len: usize, view_height: u16) -> Option<usize> {
    match offset {
        Some(o) => if buffer_len == MAX_LOG_MESSAGES {
            let lowered = if o >= 1 { o - 1 } else { 0 };
            Some(if lowered >= view_height { lowered as usize } else { view_height as usize })
        } else {
            Some(o)
        },
        None => None,
    }
}

impl Log {
    /// The scroll offset; `None` follows the newest message.
    pub closed spec fn offset_view(self) -> Option<usize> {
        self.scroll_offset
    }

    /// Offsets stay within what a log and a screen can hold.
    pub closed spec fn wf(self) -> bool {
        match self.scroll_offset {
            Some(o) => o <= isize::MAX,
            None => true,
        }
    }

    /// A log panel that follows the newest message.
    pub fn new() -> (r: Self)
        ensures
            r.offset_view() is None,
            r.wf(),
    {
        Log { scroll_offset: None }
    }

    /// The line the view ends at: the scroll offset, or the end of the log.
    pub fn visible_offset(&self, buffer_len: usize) -> (r: usize)
        ensures
            r == match self.offset_view() {
                Some(o) => o,
                None => buffer_len,
            },
    {
        match self.scroll_offset {
            Some(o) => o,
            None => buffer_len,
        }
    }

    /// The scrollbar for the view: how far the log can scroll and where the
    /// view stands, both counted in lines above the last screenful.
    pub fn scrollbar(&self, buffer_len: usize, area_height: u16) -> (r: (usize, usize))
        ensures
            r.0 == (if buffer_len >= area_height { buffer_len - area_height } else { 0 }),
            ({
                let offset = match self.offset_view() {
                    Some(o) => o,
                    None => buffer_len,
                };
                r.1 == (if offset >= area_height { offset - area_height } else { 0 })
            }),
    {
        let offset = self.visible_offset(buffer_len);
        let height = area_height as usize;
        (buffer_len.saturating_sub(height), offset.saturating_sub(height))
    }

    /// Handle a key, given how many messages the log holds and how many lines
    /// the screen has.
    pub fn process_input(&mut self, key: LogKey, buffer_len: usize, view_height: u16) -> (r:
        EventResult)
        requires
            old(self).wf(),
            buffer_len <= isize::MAX,
        ensures
            final(self).wf(),
            match key {
                LogKey::Escape => r == EventResult::Continue(Some(PanelEvent::PopPanel))
                    && final(self).offset_view() == old(self).offset_view(),
                LogKey::ScrollUp => r == EventResult::Continue(None) && final(self).offset_view()
                    == Some(scrolled_up(old(self).offset_view(), buffer_len, view_height)),
                LogKey::ScrollDown => r == EventResult::Continue(None)
                    && final(self).offset_view() == scrolled_down(
                    old(self).offset_view(),
                    buffer_len,
                ),
                LogKey::Home => r == EventResult::Continue(None) && final(self).offset_view()
                    == Some(view_height as usize),
                LogKey::End => r == EventResult::Continue(None) && final(self).offset_view()
                    is None,
                LogKey::Other => r == EventResult::Continue(None) && final(self).offset_view()
                    == old(self).offset_view(),
            },
    {
        match key {
            LogKey::Escape => {
                return EventResult::Continue(Some(PanelEvent::PopPanel));
            },
            LogKey::ScrollUp => {
                let offset = match self.scroll_offset {
                    Some(o) => o,
                    None => buffer_len,
                };
                let lowered = offset.saturating_sub(SCROLL_AMOUNT);
                let height = view_height as usize;
                self.scroll_offset = Some(
                    if lowered >= height {
                        lowered
                    } else {
                        height
                    },
                );
            },
            LogKey::ScrollDown => {
                let new_offset = match self.scroll_offset {
                    Some(o) => o,
                    None => buffer_len,
                } + SCROLL_AMOUNT;
                self.scroll_offset = if new_offset >= buffer_len {
                    None
                } else {
                    Some(new_offset)
                };
            },
            LogKey::Home => {
                self.scroll_offset = Some(view_height as usize);
            },
            LogKey::End => {
                self.scroll_offset = None;
            },
            LogKey::Other => {},
        }
        EventResult::Continue(None)
    }

    /// Follow a notification, given how many messages the log now holds.
    pub fn process_event_notification(
        &mut self,
        notification: AppEventNotification,
        buffer_len: usize,
        view_height: u16,
    )
        requires
            old(self).wf(),
        ensures
            final(self).wf(),
            final(self).offset_view() == after_message(
                old(self).offset_view(),
                buffer_len,
                view_height,
            ),
    {
        match notification {
            AppEventNotification::LogMessage => {
                if let Some(offset) = self.scroll_offset {
                    if buffer_len == MAX_LOG_MESSAGES {
                        let lowered = offset.saturating_sub(1);
                        let height = view_height as usize;
                        self.scroll_offset = Some(
                            if lowered >= height {
                                lowered
                            } else {
                                height
                            },
                        );
                    }
                }
            },
        }
    }
}

} // verus!
