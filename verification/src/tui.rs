//! The terminal interface's state and the decisions it makes; drawing and
//! terminal input stay with the application.
pub mod event;
pub mod panel;
pub mod state;
pub mod widget;

use vstd::prelude::*;
use vstd::utf8::{decode_utf8, valid_utf8};

verus! {

/// The most log messages the interface keeps.
pub const MAX_LOG_MESSAGES: usize = 500;

/// `String::from_utf8`: the text the bytes encode, or an error when they are
/// not valid UTF-8.
#[verifier::external_body]
fn string_from_utf8(bytes: Vec<u8>) -> (r: Option<String>)
    ensures
        r is Some <==> valid_utf8(bytes@),
        r matches Some(s) ==> s@ == decode_utf8(bytes@),
{
    String::from_utf8(bytes).ok()
}

/// What flushing the log writer's buffer produced.
#[derive(Debug, PartialEq, Eq)]
pub enum Flushed {
    /// Nothing was written since the last flush.
    Nothing,
    /// A log message to send to the interface.
    Message(String),
    /// The written bytes were not UTF-8 text.
    InvalidData,
}

/// The bytes the log writer collects until it is flushed.
#[derive(Debug)]
pub struct LogBuffer {
    buffer: Vec<u8>,
}

impl LogBuffer {
    /// The bytes written since the last flush.
    pub closed spec fn view(self) -> Seq<u8> {
        self.buffer@
    }

    pub fn new() -> (r: Self)
        ensures
            r.view() == Seq::<u8>::empty(),
    {
        LogBuffer { buffer: Vec::new() }
    }

    /// Collect `buf`; all of it is taken.
    pub fn write(&mut self, buf: &[u8]) -> (r: usize)
        ensures
            r == buf@.len(),
            final(self).view() == old(self).view() + buf@,
    {
        let ghost before = self.buffer@;
        self.buffer.extend_from_slice(buf);
        assert(self.buffer@ =~= before + buf@);
        buf.len()
    }

    /// Take what was collected as one message, leaving the buffer empty.
    pub fn flush(&mut self) -> (r: Flushed)
        ensures
            final(self).view() == Seq::<u8>::empty(),
            old(self).view().len() == 0 ==> r == Flushed::Nothing,
            old(self).view().len() > 0 && valid_utf8(old(self).view()) ==> (r matches Flushed::Message(
                m,
            ) && m@ == decode_utf8(old(self).view())),
            old(self).view().len() > 0 && !valid_utf8(old(self).view()) ==> r == Flushed::InvalidData,
    {
        if self.buffer.len() == 0 {
            return Flushed::Nothing;
        }
        let mut taken = Vec::new();
        std::mem::swap(&mut taken, &mut self.buffer);
        match string_from_utf8(taken) {
            Some(content) => Flushed::Message(content),
            None => Flushed::InvalidData,
        }
    }
}

} // verus!
