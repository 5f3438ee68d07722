//! The compute half of console output redirection: what the background
//! worker flushes each cycle. The worker itself (thread, timer, the actual
//! console call) lives with the caller; this decides what one drain step
//! hands to the host console function and what it leaves behind.

use vstd::prelude::*;

verus! {

/// One drain step over the shared output buffer: an empty buffer yields
/// nothing and stays as it is; otherwise the whole content, terminated for
/// the host's C string channel, is handed out and the buffer is left empty.
pub fn take_console_chunk(buf: &mut Vec<u8>) -> (r: Option<Vec<u8>>)
    ensures
        match r {
            Some(chunk) => old(buf)@.len() > 0 && chunk@ == old(buf)@.push(0u8) && final(buf)@
                == Seq::<u8>::empty(),
            None => old(buf)@.len() == 0 && final(buf)@ == old(buf)@,
        },
{
    if buf.len() == 0 {
        return None;
    }
    let mut chunk: Vec<u8> = Vec::new();
    let n = buf.len();
    let mut i: usize = 0;
    while i < n
        invariant
            i <= n,
            n == buf@.len(),
            buf@ == old(buf)@,
            chunk@ =~= old(buf)@.take(i as int),
        decreases n - i,
    {
        chunk.push(buf[i]);
        i = i + 1;
    }
    chunk.push(0u8);
    buf.clear();
    proof {
        assert(chunk@ =~= old(buf)@.push(0u8));
    }
    Some(chunk)
}

} // verus!
