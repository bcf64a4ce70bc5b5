//! Events of the interface and what handling them asks for.
pub mod series;

use std::collections::VecDeque;

use vstd::prelude::*;

use super::MAX_LOG_MESSAGES;

verus! {

/// A change that panels are told about after an event was handled.
#[derive(Debug, Clone, Copy, PartialEq, Eq, Structural)]
pub enum AppEventNotification {
    LogMessage,
}

/// A change of the panel stack that handling an input asks for.
#[derive(Debug, Clone, Copy, PartialEq, Eq, Structural)]
pub enum PanelEvent {
    /// Show the log on top of the current panel.
    PushLogPanel,
    /// Close the current panel.
    PopPanel,
}

/// What handling an event leads to.
#[derive(Debug, Clone, Copy, PartialEq, Eq, Structural)]
pub enum EventResult {
    /// Keep running, then handle the follow-up event if there is one.
    Continue(Option<PanelEvent>),
    /// Leave the interface.
    Quit,
}

/// The log after `msg` arrives: a full log first drops its oldest message.
pub open spec fn logged(buffer: Seq<String>, msg: String) -> Seq<String> {
    if buffer.len() >= MAX_LOG_MESSAGES {
        buffer.drop_first().push(msg)
    } else {
        buffer.push(msg)
    }
}

/// Append a log message, dropping the oldest one when the log is full; the
/// panels are then told that a message arrived.
pub fn push_log_message(buffer: &mut VecDeque<String>, msg: String) -> (r: AppEventNotification)
    ensures
        final(buffer)@ == logged(old(buffer)@, msg),
        old(buffer)@.len() <= MAX_LOG_MESSAGES ==> final(buffer)@.len() <= MAX_LOG_MESSAGES,
        r == AppEventNotification::LogMessage,
{
    if buffer.len() >= MAX_LOG_MESSAGES {
        buffer.pop_front();
    }
    buffer.push_back(msg);
    AppEventNotification::LogMessage
}

} // verus!
