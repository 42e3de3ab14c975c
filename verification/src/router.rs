//! Routing of messages for the relay chain into the upward message queue.
use vstd::prelude::*;
use crate::location::Location;

verus! {

/// Why a message was not sent: the destination is not the relay chain (the
/// destination and the message are handed back), the message cannot be put in
/// a version that the relay chain understands, or the upward queue refused it.
#[derive(Clone, Debug, PartialEq, Eq)]
pub enum SendError<M, E> {
    CannotReachDestination(Location, M),
    DestinationUnsupported,
    Transport(E),
}

/// A router that recognises the relay chain as destination (one parent and
/// nothing further) and prepares such messages for the upward message queue.
/// Every other destination is refused, with no payload for the queue.
pub struct ParentAsUmp;

/// `payload` is what may come of preparing `msg` for the relay chain at
/// `dest`: `DestinationUnsupported` where `wrap` cannot put the message in a
/// version for it, else the encoding by `encode` of the versioned message.
pub open spec fn payload_possible<M, V, W, N>(
    wrap: W,
    encode: N,
    dest: &Location,
    msg: M,
    payload: Result<Vec<u8>, SendError<M, ()>>,
) -> bool where
    W: FnOnce(&Location, M) -> Option<V>,
    N: FnOnce(V) -> Vec<u8>,
 {
    ||| payload == Err::<Vec<u8>, SendError<M, ()>>(SendError::DestinationUnsupported) && call_ensures(
        wrap,
        (dest, msg),
        None::<V>,
    )
    ||| payload is Ok && exists|v: V|
        #![trigger call_ensures(encode, (v,), payload->Ok_0)]
        call_ensures(wrap, (dest, msg), Some(v)) && call_ensures(encode, (v,), payload->Ok_0)
}

/// The result of sending, given the upward queue's answer to the payload.
pub open spec fn send_outcome<M, E>(sent: Result<(), E>) -> Result<(), SendError<M, E>> {
    match sent {
        Ok(()) => Ok(()),
        Err(e) => Err(SendError::Transport(e)),
    }
}

impl ParentAsUmp {
    /// What to send upward for `msg` to `dest`. Where `dest` is the relay
    /// chain, the message is put in a version for it by `wrap` and encoded by
    /// `encode`, and the encoding is the payload for the upward queue. Any
    /// other destination is refused, and the destination and message are
    /// handed back. Nothing is sent here: the caller hands an `Ok` payload, and
    /// only that, to the upward queue.
    pub fn upward_payload<M, V, W, N>(dest: Location, msg: M, wrap: W, encode: N) -> (r: Result<
        Vec<u8>,
        SendError<M, ()>,
    >) where
        W: FnOnce(&Location, M) -> Option<V>,
        N: FnOnce(V) -> Vec<u8>,

        requires
            wrap.requires((&dest, msg)),
            forall|v: V| encode.requires((v,)),
        ensures
            !dest@.contains_parents_only(1) ==> (r matches Err(SendError::CannotReachDestination(d, m))
                && d@ == dest@ && m == msg),
            dest@.contains_parents_only(1) ==> payload_possible(wrap, encode, &dest, msg, r),
    {
        if dest.contains_parents_only(1) {
            let wrapped = wrap(&dest, msg);
            let versioned = match wrapped {
                Some(v) => v,
                None => return Err(SendError::DestinationUnsupported),
            };
            let ghost v = versioned;
            assert(call_ensures(wrap, (&dest, msg), Some(v)));
            let data = encode(versioned);
            assert(call_ensures(encode, (v,), data));
            let r: Result<Vec<u8>, SendError<M, ()>> = Ok(data);
            assert(call_ensures(encode, (v,), r->Ok_0));
            assert(payload_possible(wrap, encode, &dest, msg, r));
            r
        } else {
            Err(SendError::CannotReachDestination(dest, msg))
        }
    }

    /// The result of sending, given the upward queue's answer to the payload:
    /// success, or its refusal as a transport error.
    pub fn transport_outcome<M, E>(sent: Result<(), E>) -> (r: Result<(), SendError<M, E>>)
        ensures
            r == send_outcome::<M, E>(sent),
    {
        match sent {
            Ok(()) => Ok(()),
            Err(e) => Err(SendError::Transport(e)),
        }
    }
}

} // verus!
