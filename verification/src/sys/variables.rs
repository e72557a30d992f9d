//! What the system knows of users and hosts.

use vstd::prelude::*;

verus! {

/// The home directory of the user `username`.
///
/// No account database is at hand on this platform: no user is found.
pub fn get_user_home(_username: &str) -> (r: Option<String>)
    ensures
        r is None,
{
    None
}

/// The length of the text at the front of a buffer that the system filled
/// with a text and a closing zero byte: the place of the first zero byte, or
/// the length of the buffer where it holds none.
pub open spec fn text_len(buffer: Seq<u8>) -> nat
    decreases buffer.len(),
{
    if buffer.len() == 0 || buffer[0] == 0 {
        0
    } else {
        1 + text_len(buffer.drop_first())
    }
}

/// Finds the end of the text at the front of a buffer, such as the one that
/// the system writes the name of the host into.
pub fn terminated_len(buffer: &Vec<u8>) -> (r: usize)
    ensures
        r == text_len(buffer@),
        r <= buffer@.len(),
{
    let mut i: usize = 0;
    assert(buffer@.skip(0) =~= buffer@);
    while i < buffer.len() && buffer[i] != 0
        invariant
            i <= buffer.len(),
            text_len(buffer@) == i + text_len(buffer@.skip(i as int)),
        decreases buffer.len() - i,
    {
        assert(buffer@.skip(i as int).drop_first() =~= buffer@.skip(i + 1));
        i += 1;
    }
    i
}

} // verus!
