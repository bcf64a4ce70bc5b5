//! Reading a stream of byte chunks up to a size limit.
use vstd::prelude::*;

verus! {

/// What a limited read produced.
#[derive(Debug)]
pub enum LimitedReadResult<T> {
    /// The stream ended within the limit; everything it sent.
    UnderLimit(T),
    /// The stream sent more than the limit; what was read before the chunk
    /// that would have passed it.
    Limited(T),
}

/// Append `chunk` to `buffer` when the two together stay within
/// `max_bytes`; `false`, leaving the buffer as it was, when they would not.
pub fn append_within_limit(buffer: &mut Vec<u8>, chunk: &[u8], max_bytes: usize) -> (r: bool)
    ensures
        r == (old(buffer)@.len() + chunk@.len() <= max_bytes),
        r ==> final(buffer)@ == old(buffer)@ + chunk@,
        !r ==> final(buffer)@ == old(buffer)@,
        old(buffer)@.len() <= max_bytes ==> final(buffer)@.len() <= max_bytes,
{
    if chunk.len() > max_bytes || buffer.len() > max_bytes - chunk.len() {
        return false;
    }
    let ghost before = buffer@;
    buffer.extend_from_slice(chunk);
    assert(buffer@ =~= before + chunk@);
    true
}

/// The result of a read that ended: within the limit or cut short at it.
pub fn finish_read(buffer: Vec<u8>, limited: bool) -> (r: LimitedReadResult<Vec<u8>>)
    ensures
        limited ==> (r matches LimitedReadResult::Limited(b) && b@ == buffer@),
        !limited ==> (r matches LimitedReadResult::UnderLimit(b) && b@ == buffer@),
{
    if limited {
        LimitedReadResult::Limited(buffer)
    } else {
        LimitedReadResult::UnderLimit(buffer)
    }
}

} // verus!
