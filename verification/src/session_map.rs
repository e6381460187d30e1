//! The map of a UDP forwarder's sessions and the queues of its workers, as
//! `dashmap` and `tokio` provide them.
//!
//! Nothing in this file is proved. Each function here does nothing but call
//! one of the two crates, and states what the crate's source shows of the
//! call; the forwarder's logic is proved against these statements.
//!
//! `DashMap` and the queues change through shared references. The functions
//! that change them take them by unique reference all the same, so that
//! neither can change under a caller that looks at it, and what is said of
//! them before and after a call holds.

use dashmap::DashMap;
use std::collections::hash_map::RandomState;
use tokio::sync::mpsc::error::TrySendError;
use tokio::sync::mpsc::{Receiver, Sender};
use vstd::prelude::*;

verus! {

/// `dashmap::DashMap`, a concurrent hash map.
#[verifier::external_type_specification]
#[verifier::external_body]
#[verifier::reject_recursive_types(K)]
#[verifier::reject_recursive_types(V)]
#[verifier::reject_recursive_types(S)]
pub struct ExDashMap<K, V, S>(DashMap<K, V, S>);

/// `tokio::sync::mpsc::Sender`, the sending end of a bounded queue.
#[verifier::external_type_specification]
#[verifier::external_body]
#[verifier::reject_recursive_types(T)]
pub struct ExSender<T>(Sender<T>);

/// `tokio::sync::mpsc::Receiver`, the receiving end of a bounded queue.
#[verifier::external_type_specification]
#[verifier::external_body]
#[verifier::reject_recursive_types(T)]
pub struct ExReceiver<T>(Receiver<T>);

/// The key of a client in the map: its address as two numbers.
pub type ClientKey = (u128, u128);

/// The number of the session under each key that has an entry in the map.
/// Beside the number the map holds the sending end of the session's queue.
pub uninterp spec fn numbers(map: DashMap<ClientKey, (u64, Sender<Vec<u8>>), RandomState>) -> Map<ClientKey, u64>;

/// The numbers of a map without entries.
pub open spec fn nothing() -> Map<ClientKey, u64> {
    Map::empty()
}

/// `DashMap::new`: a map without entries.
#[verifier::external_body]
pub(crate) fn map_new() -> (made: DashMap<ClientKey, (u64, Sender<Vec<u8>>), RandomState>)
    ensures
        numbers(made) == nothing(),
{
    DashMap::new()
}

/// `DashMap::get`: the value under `key`, where the map has an entry for the
/// key. The value is handed out as a copy: the number, and a copy of the
/// sender made by `Sender::clone`, which sends to the same queue.
#[verifier::external_body]
pub(crate) fn map_get(map: &DashMap<ClientKey, (u64, Sender<Vec<u8>>), RandomState>, key: ClientKey) -> (found: Option<(u64, Sender<Vec<u8>>)>)
    ensures
        found is Some <==> numbers(*map).contains_key(key),
        found matches Some(entry) ==> entry.0 == numbers(*map)[key],
{
    match map.get(&key) {
        Some(entry) => Some((entry.value().0, entry.value().1.clone())),
        None => None,
    }
}

/// `DashMap::insert`: afterwards the map holds `number` and `sender` under
/// `key`, and what it held under every other key. An earlier value under
/// `key` is dropped.
#[verifier::external_body]
pub(crate) fn map_insert(
    map: &mut DashMap<ClientKey, (u64, Sender<Vec<u8>>), RandomState>,
    key: ClientKey,
    number: u64,
    sender: Sender<Vec<u8>>,
)
    ensures
        numbers(*final(map)) == numbers(*old(map)).insert(key, number),
{
    map.insert(key, (number, sender));
}

/// `DashMap::remove`: afterwards the map has no entry for `key`, and holds
/// what it held under every other key.
#[verifier::external_body]
pub(crate) fn map_remove(map: &mut DashMap<ClientKey, (u64, Sender<Vec<u8>>), RandomState>, key: ClientKey)
    ensures
        numbers(*final(map)) == numbers(*old(map)).remove(key),
{
    map.remove(&key);
}

/// What became of a datagram that was offered to a queue.
#[derive(Clone, Copy, Debug, PartialEq, Eq, Structural)]
pub enum Enqueue {
    /// The queue took it.
    Sent,
    /// The queue was full.
    Full,
    /// The receiving end is gone.
    Closed,
}

/// Whether `ends` are the two ends of one queue as `queue` made them:
/// nothing has been offered to the queue, and its receiving end is open.
pub uninterp spec fn unused(ends: (Sender<Vec<u8>>, Receiver<Vec<u8>>)) -> bool;

/// `tokio::sync::mpsc::channel`: the two ends of a new queue that holds up
/// to `bound` values. It panics for a bound of zero or above
/// `usize::MAX >> 3`, which is `0x1fff_ffff` where `usize` has 32 bits and
/// more where it has 64.
#[verifier::external_body]
pub(crate) fn queue(bound: usize) -> (ends: (Sender<Vec<u8>>, Receiver<Vec<u8>>))
    requires
        0 < bound <= 0x1fff_ffff,
    ensures
        unused(ends),
{
    tokio::sync::mpsc::channel(bound)
}

/// `Sender::try_send` on the sending end of a queue whose receiving end is
/// at hand: offers `datagram` without waiting. A queue that nothing has
/// been offered to has room, since its bound is above zero, and is open,
/// since its receiving end is here: it takes the datagram.
#[verifier::external_body]
pub(crate) fn first_send(ends: &mut (Sender<Vec<u8>>, Receiver<Vec<u8>>), datagram: Vec<u8>) -> (outcome:
    Enqueue)
    ensures
        unused(*old(ends)) ==> outcome == Enqueue::Sent,
{
    match ends.0.try_send(datagram) {
        Ok(()) => Enqueue::Sent,
        Err(TrySendError::Full(_)) => Enqueue::Full,
        Err(TrySendError::Closed(_)) => Enqueue::Closed,
    }
}

/// `Sender::try_send` on a sending end alone: offers `datagram` to the queue
/// without waiting. Which of the three outcomes it is depends on what the
/// queue holds and on whether its receiving end is still there. The sender
/// is taken by unique reference, because the queue changes.
#[verifier::external_body]
pub(crate) fn try_send(sender: &mut Sender<Vec<u8>>, datagram: Vec<u8>) -> (outcome: Enqueue) {
    match sender.try_send(datagram) {
        Ok(()) => Enqueue::Sent,
        Err(TrySendError::Full(_)) => Enqueue::Full,
        Err(TrySendError::Closed(_)) => Enqueue::Closed,
    }
}

} // verus!
