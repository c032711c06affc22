//! Which of two servers reconnects when the connection between them is lost.

use vstd::prelude::*;
use crate::eventrelay::broadcaster::ConnectionRegistry;
use crate::text::text_bytes;

verus! {

/// `a` comes before `b` in the byte-wise lexicographic order (the order of
/// `str`'s `<`).
pub open spec fn bytes_before(a: Seq<u8>, b: Seq<u8>) -> bool
    decreases a.len(),
{
    if a.len() == 0 {
        b.len() > 0
    } else if b.len() == 0 {
        false
    } else if a[0] != b[0] {
        a[0] < b[0]
    } else {
        bytes_before(a.drop_first(), b.drop_first())
    }
}

/// Determines if this server should attempt reconnection to the peer: the
/// server with the lower id is the one that reconnects.
pub fn should_attempt_reconnection(self_id: &str, peer_id: &str) -> (r: bool)
    ensures
        r == bytes_before(text_bytes(self_id@), text_bytes(peer_id@)),
{
    let a = self_id.as_bytes();
    let b = peer_id.as_bytes();
    let mut i: usize = 0;
    assert(a@.skip(0) =~= a@ && b@.skip(0) =~= b@);
    while i < a.len() && i < b.len()
        invariant
            i <= a@.len(),
            i <= b@.len(),
            a@ == text_bytes(self_id@),
            b@ == text_bytes(peer_id@),
            bytes_before(a@, b@) == bytes_before(a@.skip(i as int), b@.skip(i as int)),
        decreases a@.len() - i,
    {
        assert(a@.skip(i as int)[0] == a@[i as int]);
        assert(b@.skip(i as int)[0] == b@[i as int]);
        if a[i] != b[i] {
            return a[i] < b[i];
        }
        assert(a@.skip(i as int).drop_first() =~= a@.skip(i + 1));
        assert(b@.skip(i as int).drop_first() =~= b@.skip(i + 1));
        i = i + 1;
    }
    i < b.len()
}

/// What to do about a peer in one round of reconnection.
#[derive(Debug, Clone, Copy, PartialEq, Eq, Structural)]
pub enum ReconnectStep {
    /// The peer is registered: nothing to do.
    Connected,
    /// This server is the one to reconnect.
    Attempt,
    /// The peer is the one to reconnect; this server waits for it.
    Wait,
}

/// The step for peer `peer_id` in a round of reconnection.
pub fn reconnect_step(registry: &ConnectionRegistry, self_id: &str, peer_id: &str) -> (s: ReconnectStep)
    ensures
        registry.peers().contains_key(text_bytes(peer_id@)) ==> s == ReconnectStep::Connected,
        !registry.peers().contains_key(text_bytes(peer_id@)) ==> s == if bytes_before(text_bytes(self_id@), text_bytes(peer_id@)) {
            ReconnectStep::Attempt
        } else {
            ReconnectStep::Wait
        },
{
    if registry.contains_peer(peer_id.as_bytes()) {
        ReconnectStep::Connected
    } else if should_attempt_reconnection(self_id, peer_id) {
        ReconnectStep::Attempt
    } else {
        ReconnectStep::Wait
    }
}

/// No id comes before itself.
pub proof fn law_not_before_itself(a: Seq<u8>)
    ensures
        !bytes_before(a, a),
    decreases a.len(),
{
    if a.len() > 0 {
        law_not_before_itself(a.drop_first());
    }
}

/// Of two different ids exactly one comes first, so exactly one of the two
/// servers attempts the reconnection.
pub proof fn law_one_side_reconnects(a: Seq<u8>, b: Seq<u8>)
    requires
        a != b,
    ensures
        bytes_before(a, b) != bytes_before(b, a),
    decreases a.len(),
{
    if a.len() > 0 && b.len() > 0 && a[0] == b[0] {
        if a.drop_first() == b.drop_first() {
            assert(a.drop_first().len() == b.drop_first().len());
            assert(a.len() == b.len());
            assert forall|i: int| 0 <= i < a.len() implies a[i] == b[i] by {
                if i > 0 {
                    assert(a[i] == a.drop_first()[i - 1]);
                    assert(b[i] == b.drop_first()[i - 1]);
                }
            }
            assert(a =~= b);
        }
        law_one_side_reconnects(a.drop_first(), b.drop_first());
    } else if a.len() == 0 && b.len() == 0 {
        assert(a =~= b);
    }
}

/// `bytes_before` is the byte-wise lexicographic order of `str`: for two ids
/// that agree on their first `i` bytes, the one whose byte at `i` is the
/// smaller unsigned value comes first, and a proper prefix comes before any
/// longer id; an id never comes before one of its own prefixes.
pub proof fn law_bytes_before_is_byte_order(a: Seq<u8>, b: Seq<u8>, i: int)
    requires
        0 <= i <= a.len(),
        i <= b.len(),
        forall|k: int| 0 <= k < i ==> a[k] == b[k],
    ensures
        i < a.len() && i < b.len() && a[i] != b[i] ==> bytes_before(a, b) == (a[i] < b[i]),
        i == a.len() ==> bytes_before(a, b) == (i < b.len()),
        i == b.len() ==> !bytes_before(a, b),
    decreases i,
{
    if i > 0 {
        assert(a[0] == b[0]);
        let a1 = a.drop_first();
        let b1 = b.drop_first();
        assert forall|k: int| 0 <= k < i - 1 implies #[trigger] a1[k] == b1[k] by {
            assert(a[k + 1] == b[k + 1]);
        }
        law_bytes_before_is_byte_order(a1, b1, i - 1);
    }
}

} // verus!
