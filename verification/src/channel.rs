//! The broadcast channel of tokio, as far as the hub uses it: one sender,
//! held by one owner, and the receivers that were subscribed to it.
//!
//! Nothing in this file is proved. Each contract states what the source of
//! `tokio::sync::broadcast` shows of the call, for a channel that is used
//! from one place at a time: the hub holds the only sender and every
//! receiver, and calls them in turn.

use vstd::prelude::*;
use tokio::sync::broadcast::error::TryRecvError;
use tokio::sync::broadcast::{Receiver, Sender};

verus! {

/// `tokio::sync::broadcast::Sender`, declared so that a hub can hold one.
/// Nothing is claimed of what is inside.
#[verifier::external_type_specification]
#[verifier::external_body]
#[verifier::reject_recursive_types(T)]
pub struct ExSender<T>(Sender<T>);

/// `tokio::sync::broadcast::Receiver`, declared so that a hub can hold one
/// for each subscriber. Nothing is claimed of what is inside.
#[verifier::external_type_specification]
#[verifier::external_body]
#[verifier::reject_recursive_types(T)]
pub struct ExReceiver<T>(Receiver<T>);

/// Every value that the channel has taken since it was made, oldest first.
/// Each is a pair: a number that the sender gave, and a text.
pub uninterp spec fn channel_log(tx: Sender<(u64, String)>) -> Seq<(u64, Seq<char>)>;

/// How many values the channel retains: the capacity it was made with,
/// rounded up to a power of two.
pub uninterp spec fn channel_width(tx: Sender<(u64, String)>) -> nat;

/// How many receivers of the channel are alive.
pub uninterp spec fn channel_receivers(tx: Sender<(u64, String)>) -> nat;

/// How many of the channel's values lie behind the receiver: the place in
/// `channel_log` of the value it takes next.
pub uninterp spec fn receiver_position(rx: Receiver<(u64, String)>) -> nat;

/// The receiver was subscribed to the channel of this sender.
pub uninterp spec fn attached(rx: Receiver<(u64, String)>, tx: Sender<(u64, String)>) -> bool;

/// The least power of two that is not below `n`, found by doubling `p`.
pub open spec fn doubled_up_to(p: nat, n: nat) -> nat
    decreases (if p < n { n - p } else { 0 }),
{
    if p == 0 || p >= n {
        p
    } else {
        doubled_up_to(2 * p, n)
    }
}

/// The least power of two that is not below `n`.
pub open spec fn next_power_of_two(n: nat) -> nat {
    doubled_up_to(1, n)
}

/// What a receiver hands out when it is asked once.
pub enum Polled {
    /// The next value.
    Value(u64, String),
    /// So many values were overwritten before the receiver took them.
    Lagged(u64),
    /// Nothing is waiting.
    Empty,
    /// Every sender is gone.
    Closed,
}

/// What one `try_recv` does, for a receiver that stood at `before` and
/// stands at `after`, on a channel with the values `log` that retains
/// `width` of them.
pub open spec fn polled_as(
    got: Polled,
    log: Seq<(u64, Seq<char>)>,
    width: nat,
    before: nat,
    after: nat,
) -> bool {
    match got {
        Polled::Value(origin, text) => {
            &&& before < log.len() <= before + width
            &&& log[before as int] == (origin, text@)
            &&& after == before + 1
        },
        Polled::Lagged(missed) => {
            &&& log.len() > before + width
            &&& missed == log.len() - width - before
            &&& after == log.len() - width
        },
        Polled::Empty => before == log.len() && after == before,
        Polled::Closed => false,
    }
}

/// Calls `tokio::sync::broadcast::channel` and keeps the sender; the
/// receiver that comes with it is dropped at once. The contract claims that
/// the new channel has taken nothing, has no receiver, and retains as many
/// values as the capacity rounded up to a power of two. `channel` panics on
/// a capacity of zero or above `usize::MAX / 2`.
#[verifier::external_body]
pub(crate) fn open_channel(capacity: usize) -> (tx: Sender<(u64, String)>)
    requires
        0 < capacity <= usize::MAX / 2,
    ensures
        channel_log(tx) == Seq::<(u64, Seq<char>)>::empty(),
        channel_width(tx) == next_power_of_two(capacity as nat),
        channel_receivers(tx) == 0,
{
    tokio::sync::broadcast::channel(capacity).0
}

/// Calls `Sender::subscribe`. The contract claims that the new receiver
/// belongs to this channel and stands behind everything it has taken, that
/// the channel has one receiver more, and that nothing else changes.
/// `subscribe` panics when the channel has `usize::MAX >> 2` receivers.
#[verifier::external_body]
pub(crate) fn channel_subscribe(tx: &mut Sender<(u64, String)>) -> (rx: Receiver<(u64, String)>)
    requires
        channel_receivers(*old(tx)) < usize::MAX / 4,
    ensures
        attached(rx, *final(tx)),
        receiver_position(rx) == channel_log(*old(tx)).len(),
        channel_log(*final(tx)) == channel_log(*old(tx)),
        channel_width(*final(tx)) == channel_width(*old(tx)),
        channel_receivers(*final(tx)) == channel_receivers(*old(tx)) + 1,
        forall|other: Receiver<(u64, String)>| #[trigger]
            attached(other, *old(tx)) ==> attached(other, *final(tx)),
{
    tx.subscribe()
}

/// Calls `Sender::send` with the pair of `origin` and `text`. The contract
/// claims that a channel with a receiver takes the value as its newest and
/// answers with the number of its receivers, that a channel without one
/// takes nothing and answers `None`, and that nothing else changes. The
/// channel counts its values in a `u64`: the claim is made of a channel that
/// has taken fewer than `u64::MAX`.
#[verifier::external_body]
pub(crate) fn channel_send(tx: &mut Sender<(u64, String)>, origin: u64, text: String) -> (reached:
    Option<usize>)
    requires
        channel_log(*old(tx)).len() < u64::MAX,
    ensures
        reached is Some <==> channel_receivers(*old(tx)) > 0,
        reached matches Some(n) ==> n == channel_receivers(*old(tx)),
        channel_log(*final(tx)) == if channel_receivers(*old(tx)) > 0 {
            channel_log(*old(tx)).push((origin, text@))
        } else {
            channel_log(*old(tx))
        },
        channel_width(*final(tx)) == channel_width(*old(tx)),
        channel_receivers(*final(tx)) == channel_receivers(*old(tx)),
        forall|other: Receiver<(u64, String)>| #[trigger]
            attached(other, *old(tx)) ==> attached(other, *final(tx)),
{
    tx.send((origin, text)).ok()
}

/// Calls `Receiver::try_recv`. The sender is borrowed for the length of the
/// call: while it is alive the channel is not closed. The contract claims
/// what `polled_as` says: a receiver that is more than the channel's width
/// behind learns how many values it missed and moves to the oldest value
/// that is retained; any other receiver takes the value at its place and
/// moves on by one, or finds nothing and stays.
#[verifier::external_body]
pub(crate) fn channel_try_recv(tx: &Sender<(u64, String)>, rx: &mut Receiver<(u64, String)>) -> (got:
    Polled)
    requires
        attached(*old(rx), *tx),
    ensures
        attached(*final(rx), *tx),
        polled_as(
            got,
            channel_log(*tx),
            channel_width(*tx),
            receiver_position(*old(rx)),
            receiver_position(*final(rx)),
        ),
{
    let _ = tx;
    match rx.try_recv() {
        Ok((origin, text)) => Polled::Value(origin, text),
        Err(TryRecvError::Lagged(missed)) => Polled::Lagged(missed),
        Err(TryRecvError::Empty) => Polled::Empty,
        Err(TryRecvError::Closed) => Polled::Closed,
    }
}

/// Drops a receiver of the channel. The contract claims that the channel
/// has one receiver fewer and that nothing else changes.
#[verifier::external_body]
pub(crate) fn channel_release(tx: &mut Sender<(u64, String)>, rx: Receiver<(u64, String)>)
    requires
        attached(rx, *old(tx)),
        channel_receivers(*old(tx)) > 0,
    ensures
        channel_log(*final(tx)) == channel_log(*old(tx)),
        channel_width(*final(tx)) == channel_width(*old(tx)),
        channel_receivers(*final(tx)) == channel_receivers(*old(tx)) - 1,
        forall|other: Receiver<(u64, String)>| #[trigger]
            attached(other, *old(tx)) ==> attached(other, *final(tx)),
{
    let _ = tx;
    drop(rx)
}

} // verus!
