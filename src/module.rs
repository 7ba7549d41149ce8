use tokio::sync::broadcast::Sender;
use vstd::prelude::*;

use crate::channel::{new_bus, BUS_CAPACITY};

verus! {

pub type MessageData = String;

/// A command for a module, with the bus on which its reply is to go.
#[derive(Clone, Debug)]
pub struct Message {
    pub data: MessageData,
    pub reply: Sender<MessageData>,
}

/// A pluggable service of the server: the commands it takes and the events
/// it emits, each on a bus of its own.
#[derive(Debug)]
pub struct Module {
    pub commands: Sender<Message>,
    pub events: Sender<MessageData>,
}

impl Module {
    pub fn new() -> (r: Self) {
        Module { commands: new_bus(BUS_CAPACITY), events: new_bus(BUS_CAPACITY) }
    }
}

} // verus!
