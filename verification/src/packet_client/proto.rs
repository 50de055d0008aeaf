//! The messages exchanged with the controller, as plain values.
use vstd::prelude::*;

verus! {

/// A group of node ids that may talk to each other.
#[derive(Debug, Clone)]
pub struct Partition {
    pub nodes: Vec<u32>,
}

/// The network configuration handed out by the controller.
#[derive(Debug, Clone)]
pub struct Config {
    pub hostname_prefix: String,
    pub number_of_nodes: u32,
    pub net_partitions: Vec<Partition>,
    pub unl_partitions: Vec<Partition>,
}

/// What the controller is told about one validator node.
#[derive(Debug, Clone)]
pub struct ValidatorNodeInfo {
    pub hostname: String,
    pub status: String,
    pub validation_key: String,
    pub validation_private_key: String,
    pub validation_public_key: String,
    pub validation_seed: String,
}

/// An intercepted message, as sent to the controller.
#[derive(Debug, Clone)]
pub struct Packet {
    pub data: Vec<u8>,
    pub from_port: u32,
    pub to_port: u32,
}

/// The controller's answer to a `Packet`: the (possibly altered) data and an action.
#[derive(Debug, Clone)]
pub struct PacketAck {
    pub data: Vec<u8>,
    pub action: u32,
}

} // verus!
