use tokio::sync::broadcast::error::TryRecvError;
use tokio::sync::broadcast::{Receiver, Sender};
use vstd::prelude::*;

verus! {

#[verifier::external_type_specification]
#[verifier::external_body]
#[verifier::reject_recursive_types(T)]
pub struct ExSender<T>(Sender<T>);

#[verifier::external_type_specification]
#[verifier::external_body]
#[verifier::reject_recursive_types(T)]
pub struct ExReceiver<T>(Receiver<T>);

/// Relies on tokio's broadcast `Sender::clone`: another handle to the same
/// bus.
pub assume_specification<T>[ <Sender<T> as Clone>::clone ](s: &Sender<T>) -> Sender<T>;

/// Messages each subscriber of a channel's bus may hold before the oldest
/// are dropped for it.
pub const BUS_CAPACITY: usize = 64;

/// Whether `n` is a power of two.
pub open spec fn is_power_of_two(n: nat) -> bool
    decreases n,
{
    if n == 1 {
        true
    } else if n == 0 || n % 2 == 1 {
        false
    } else {
        is_power_of_two(n / 2)
    }
}

/// The number of messages that the bus behind `tx` keeps for each
/// subscriber, fixed when the bus is made.
pub uninterp spec fn bus_capacity(tx: Sender<Vec<u8>>) -> nat;

/// Relies on tokio::sync::broadcast::channel: a new bus keeping, for each
/// subscriber, the given number of messages rounded up to a power of two
/// (it panics on zero, or on more than half of `usize::MAX`). The receiver
/// made with it is dropped at once.
#[verifier::external_body]
fn open_bus(capacity: usize) -> (r: Sender<Vec<u8>>)
    requires
        0 < capacity <= usize::MAX / 2,
    ensures
        is_power_of_two(bus_capacity(r)),
        capacity <= bus_capacity(r) < 2 * capacity,
{
    tokio::sync::broadcast::channel::<Vec<u8>>(capacity).0
}

/// Relies on tokio's broadcast `Sender::new`: a new bus with no receiver
/// yet (it panics on a capacity of zero, or of more than half of
/// `usize::MAX`).
#[verifier::external_body]
pub(crate) fn new_bus<T>(capacity: usize) -> Sender<T>
    requires
        0 < capacity <= usize::MAX / 2,
{
    Sender::new(capacity)
}

/// Relies on tokio's broadcast `Sender::send`: queues the message for every
/// current subscriber, evicting the oldest message of any subscriber whose
/// queue is full; `Ok` carries the number of subscribers, which is never 0,
/// and with no subscriber the message is handed back as an error.
#[verifier::external_body]
fn bus_send(tx: &Sender<Vec<u8>>, message: Vec<u8>) -> (r: Option<usize>)
    ensures
        r matches Some(n) ==> n >= 1,
{
    tx.send(message).ok()
}

/// Relies on tokio's broadcast `Sender::subscribe`: a receiver of the
/// messages sent after this call. It panics only once a quarter of
/// `usize::MAX` receivers are alive at the same time.
#[verifier::external_body]
pub(crate) fn bus_subscribe<T>(tx: &Sender<T>) -> Receiver<T> {
    tx.subscribe()
}

/// What a subscriber takes off its queue.
#[derive(Clone, Debug, PartialEq, Eq)]
pub enum BusEvent {
    /// The next message published on the channel.
    Message(Vec<u8>),
    /// This many messages were dropped for the subscriber since its last
    /// receive, because it fell behind.
    Lagged(u64),
    /// No publisher is left: nothing more will come.
    Closed,
}

/// Relies on tokio's broadcast `Receiver::try_recv`: the next queued
/// message, or the number of messages the receiver missed (never 0), or
/// that the bus is closed; `None` when nothing is queued yet.
#[verifier::external_body]
fn bus_try_recv(rx: &mut Receiver<Vec<u8>>) -> (r: Option<BusEvent>)
    ensures
        r matches Some(BusEvent::Lagged(n)) ==> n >= 1,
{
    match rx.try_recv() {
        Ok(message) => Some(BusEvent::Message(message)),
        Err(TryRecvError::Empty) => None,
        Err(TryRecvError::Lagged(n)) => Some(BusEvent::Lagged(n)),
        Err(TryRecvError::Closed) => Some(BusEvent::Closed),
    }
}

proof fn lemma_only_power_of_two_in_range(n: nat)
    requires
        is_power_of_two(n),
        BUS_CAPACITY <= n < 2 * BUS_CAPACITY,
    ensures
        n == BUS_CAPACITY,
{
    reveal_with_fuel(is_power_of_two, 8);
}

/// A named broadcast endpoint: everything published on it goes to each of
/// its current subscribers.
#[derive(Debug)]
pub struct Channel {
    pub name: String,
    pub broadcast: Sender<Vec<u8>>,
}

impl Channel {
    pub fn new(name: &str) -> (r: Self)
        ensures
            r.name@ == name@,
            bus_capacity(r.broadcast) == BUS_CAPACITY,
    {
        let broadcast = open_bus(BUS_CAPACITY);
        proof {
            lemma_only_power_of_two_in_range(bus_capacity(broadcast));
        }
        Channel { name: name.to_owned(), broadcast }
    }

    /// Queues `message` for every current subscriber without waiting on
    /// any of them, and returns how many there were (0 when none).
    pub fn publish(&self, message: Vec<u8>) -> usize {
        match bus_send(&self.broadcast, message) {
            Some(n) => n,
            None => 0,
        }
    }

    /// A new subscriber, positioned after everything published so far.
    pub fn subscribe(&self) -> Subscriber {
        Subscriber { receiver: bus_subscribe(&self.broadcast) }
    }
}

/// One subscriber's end of a channel's bus.
pub struct Subscriber {
    pub receiver: Receiver<Vec<u8>>,
}

impl Subscriber {
    /// The next event for this subscriber if one is ready, without waiting.
    pub fn try_recv(&mut self) -> (r: Option<BusEvent>)
        ensures
            r matches Some(BusEvent::Lagged(n)) ==> n >= 1,
    {
        bus_try_recv(&mut self.receiver)
    }
}

} // verus!
