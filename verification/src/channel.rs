//! One-shot channels: the wire between the tasks of a session.
//!
//! Exactly one value may be sent and exactly one received on a channel.
//! Both halves of the underlying channel pair live in one [`OneShot`]
//! value owned by the channel store of the executing machine; endpoints
//! handed to tasks are indices into that store, so that the linear
//! bookkeeping over endpoints stays in verified code while the delivery
//! itself is done by the outside channel implementation.

use vstd::prelude::*;

use crate::value::Value;

verus! {

/// A one-shot channel: the paired sending and receiving halves of one
/// `tokio::sync::oneshot` channel, held together.
#[verifier::external_body]
pub struct OneShot {
    tx: Option<tokio::sync::oneshot::Sender<Value>>,
    rx: tokio::sync::oneshot::Receiver<Value>,
}

/// The values sent on the channel and not yet received: empty, or one
/// value.
pub uninterp spec fn chan_msgs(c: OneShot) -> Seq<Value>;

/// Whether the channel can still deliver: its one send has not happened
/// and its sending half has not been dropped.
pub uninterp spec fn chan_open(c: OneShot) -> bool;

/// The lifecycle position of a channel: `0` before the send, `1` while
/// the sent value waits to be received, `2` once the value was received
/// or the sender is gone.  A channel only ever moves forward.
pub open spec fn chan_rank(c: OneShot) -> int {
    if chan_open(c) {
        0
    } else if chan_msgs(c).len() > 0 {
        1
    } else {
        2
    }
}

/// What one attempted receive reports: a delivered value, nothing yet
/// (the sender may still send), or nothing ever (the sender is gone).
pub enum RecvOutcome {
    Got(Value),
    Pending,
    Gone,
}

/// Relies on tokio::sync::oneshot::channel: creates a connected
/// sender/receiver pair with nothing sent yet.
#[verifier::external_body]
pub fn oneshot_chan() -> (c: OneShot)
    ensures
        chan_open(c),
        chan_msgs(c) == Seq::<Value>::empty(),
{
    let (tx, rx) = tokio::sync::oneshot::channel();
    OneShot { tx: Some(tx), rx }
}

/// Relies on tokio::sync::oneshot::channel and on dropping the returned
/// sender: the receiving half then reports the sender as gone and no
/// value can ever arrive.
#[verifier::external_body]
pub fn oneshot_dropped() -> (c: OneShot)
    ensures
        !chan_open(c),
        chan_msgs(c) == Seq::<Value>::empty(),
{
    let (_, rx) = tokio::sync::oneshot::channel();
    OneShot { tx: None, rx }
}

/// Relies on tokio::sync::oneshot::Sender::send: buffers the value for
/// the paired receiver; it cannot fail while the receiving half is alive,
/// and this store keeps the receiving half until the channel is dropped.
/// `false` reports that the one send already happened.
#[verifier::external_body]
pub fn chan_send(c: &mut OneShot, v: Value) -> (ok: bool)
    ensures
        ok ==> {
            &&& chan_open(*old(c))
            &&& chan_msgs(*old(c)) == Seq::<Value>::empty()
            &&& !chan_open(*final(c))
            &&& chan_msgs(*final(c)) == seq![v]
        },
        !ok ==> {
            &&& !chan_open(*old(c))
            &&& *final(c) == *old(c)
        },
{
    match c.tx.take() {
        Some(tx) => {
            let _ = tx.send(v);
            true
        },
        None => false,
    }
}

/// Relies on tokio::sync::oneshot::Receiver::try_recv: returns the
/// buffered value if the send happened, reports `Empty` while the sender
/// is alive and silent, and `Closed` once no value can ever arrive.
#[verifier::external_body]
pub fn chan_try_recv(c: &mut OneShot) -> (r: RecvOutcome)
    ensures
        match r {
            RecvOutcome::Got(v) => {
                &&& chan_msgs(*old(c)) == seq![v]
                &&& !chan_open(*old(c))
                &&& chan_msgs(*final(c)) == Seq::<Value>::empty()
                &&& !chan_open(*final(c))
            },
            RecvOutcome::Pending => {
                &&& *final(c) == *old(c)
                &&& chan_msgs(*old(c)) == Seq::<Value>::empty()
                &&& chan_open(*old(c))
            },
            RecvOutcome::Gone => {
                &&& *final(c) == *old(c)
                &&& chan_msgs(*old(c)) == Seq::<Value>::empty()
                &&& !chan_open(*old(c))
            },
        },
{
    match c.rx.try_recv() {
        Ok(v) => RecvOutcome::Got(v),
        Err(tokio::sync::oneshot::error::TryRecvError::Empty) => RecvOutcome::Pending,
        Err(tokio::sync::oneshot::error::TryRecvError::Closed) => RecvOutcome::Gone,
    }
}

/// The channel is untouched: its one send has not happened and its
/// sender is alive.
pub open spec fn chan_fresh(c: OneShot) -> bool {
    chan_open(c) && chan_msgs(c).len() == 0
}

/// The channel's one send has happened and the value still waits to be
/// received.
pub open spec fn chan_holds(c: OneShot, v: Value) -> bool {
    !chan_open(c) && chan_msgs(c) == seq![v]
}

/// The channel can never deliver again: its value was received, or its
/// sender is gone without having sent.
pub open spec fn chan_spent(c: OneShot) -> bool {
    !chan_open(c) && chan_msgs(c).len() == 0
}

/// One channel either stayed as it was or moved forward in its
/// lifecycle.
pub open spec fn chan_le(a: OneShot, b: OneShot) -> bool {
    a == b || chan_rank(a) < chan_rank(b)
}

/// A channel store evolved: no channel was removed, and every channel
/// either stayed as it was or moved forward — in particular no channel
/// was ever sent on or received from twice.
pub open spec fn store_evolves(a: Seq<OneShot>, b: Seq<OneShot>) -> bool {
    &&& b.len() >= a.len()
    &&& forall|j: int| 0 <= j < a.len() ==> chan_le(a[j], b[j])
}

/// Evolution of a channel store is transitive.
pub proof fn lemma_store_evolves_trans(a: Seq<OneShot>, b: Seq<OneShot>, c: Seq<OneShot>)
    requires
        store_evolves(a, b),
        store_evolves(b, c),
    ensures
        store_evolves(a, c),
{
    assert forall|j: int| 0 <= j < a.len() implies chan_le(a[j], c[j]) by {
        assert(chan_le(a[j], b[j]));
        assert(chan_le(b[j], c[j]));
    }
}

} // verus!
