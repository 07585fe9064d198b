//! What goes into the 4 KiB C buffer the foreign interface writes replies
//! to: the reply's UTF-8 bytes, cut to leave room for the terminating NUL.

use vstd::prelude::*;

use vstd::string::StringSliceAdditionalSpecFns;

verus! {

/// The most reply bytes the buffer holds (one byte is kept for the NUL).
pub const MAX_SIZE: usize = 4095;

/// The bytes written to the buffer for a reply.
pub open spec fn buffer_bytes(reply: Seq<u8>) -> Seq<u8> {
    let copy_len = if reply.len() < MAX_SIZE { reply.len() as int } else { MAX_SIZE as int };
    reply.take(copy_len).push(0u8)
}

/// Law of the buffer: what goes into it is the reply's first bytes, as
/// many as fit (at most `MAX_SIZE`), in order from the start, followed by
/// a single NUL.
pub proof fn lemma_buffer_is_prefix_then_nul(reply: Seq<u8>)
    ensures
        buffer_bytes(reply).len() == (if reply.len() < MAX_SIZE {
            reply.len()
        } else {
            MAX_SIZE as nat
        }) + 1,
        forall|k: int| 0 <= k < buffer_bytes(reply).len() - 1 ==> #[trigger] buffer_bytes(reply)[k] == reply[k],
        buffer_bytes(reply)[buffer_bytes(reply).len() - 1] == 0u8,
{
}

/// The bytes to copy into the buffer for a reply: at most `MAX_SIZE` of
/// its UTF-8 bytes, then a NUL.
pub fn buffer_contents(result: &str) -> (bytes: Vec<u8>)
    ensures
        bytes@ == buffer_bytes(result.spec_bytes()),
        bytes@.len() == (if result.spec_bytes().len() < MAX_SIZE {
            result.spec_bytes().len()
        } else {
            MAX_SIZE as nat
        }) + 1,
        forall|k: int| 0 <= k < bytes@.len() - 1 ==> #[trigger] bytes@[k] == result.spec_bytes()[k],
        bytes@[bytes@.len() - 1] == 0u8,
{
    let source = result.as_bytes();
    let copy_len = if source.len() < MAX_SIZE { source.len() } else { MAX_SIZE };
    let mut bytes: Vec<u8> = Vec::with_capacity(copy_len + 1);
    let mut i: usize = 0;
    while i < copy_len
        invariant
            i <= copy_len,
            copy_len <= source@.len(),
            bytes@ == source@.take(i as int),
        decreases copy_len - i,
    {
        bytes.push(source[i]);
        i = i + 1;
        assert(bytes@ =~= source@.take(i as int));
    }
    bytes.push(0u8);
    bytes
}

} // verus!
