use vstd::prelude::*;

verus! {

/// Identity of a socket inside the readiness poller's notification stream.
#[derive(Clone, Copy, Debug, PartialEq, Eq, Structural, Hash)]
pub struct Token(pub usize);

/// Value permanently reserved for the listening socket.
pub const SERVER: usize = 0;

/// Hands out `*current` and advances the counter by one.
pub fn next(current: &mut Token) -> (r: Token)
    requires
        old(current).0 < usize::MAX,
    ensures
        r == *old(current),
        final(current).0 == old(current).0 + 1,
{
    let r = *current;
    current.0 = current.0 + 1;
    r
}

} // verus!
