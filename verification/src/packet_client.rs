//! What the interceptor asks of the controller, and what it logs of the answers.
use vstd::prelude::*;

pub mod proto;

use crate::connection_handler::{lemma_checked_message_is_framed, spec_check_message};
use crate::packet_client::proto::Packet;
use crate::text::{decimal, hex_encode, spec_decimal, spec_hex_lower};

verus! {

/// Why a packet is not sent to the controller.
#[derive(Debug, Clone, Copy, PartialEq, Eq, Structural)]
pub enum PacketRequestError {
    /// The packet carries no data.
    EmptyData,
    /// The port the packet came from is the unset marker `u32::MAX`.
    FromPortNotSet,
    /// The port the packet goes to is the unset marker `u32::MAX`.
    ToPortNotSet,
}

/// Which check, if any, refuses a packet with these data and ports.
pub open spec fn spec_packet_error(data: Seq<u8>, from_port: u32, to_port: u32) -> Option<PacketRequestError> {
    if data.len() == 0 {
        Some(PacketRequestError::EmptyData)
    } else if from_port == u32::MAX {
        Some(PacketRequestError::FromPortNotSet)
    } else if to_port == u32::MAX {
        Some(PacketRequestError::ToPortNotSet)
    } else {
        None
    }
}

/// Checks an intercepted message and its ports and builds the request for the controller.
pub fn build_packet(packet_data: Vec<u8>, packet_from_port: u32, packet_to_port: u32) -> (r: Result<Packet, PacketRequestError>)
    ensures
        match r {
            Ok(p) => spec_packet_error(packet_data@, packet_from_port, packet_to_port) is None
                && p.data@ == packet_data@ && p.from_port == packet_from_port && p.to_port == packet_to_port,
            Err(e) => spec_packet_error(packet_data@, packet_from_port, packet_to_port) == Some(e),
        },
{
    if packet_data.len() == 0 {
        return Err(PacketRequestError::EmptyData);
    }
    if packet_from_port == u32::MAX {
        return Err(PacketRequestError::FromPortNotSet);
    }
    if packet_to_port == u32::MAX {
        return Err(PacketRequestError::ToPortNotSet);
    }
    Ok(Packet { data: packet_data, from_port: packet_from_port, to_port: packet_to_port })
}

/// The execution log record of one exchange with the controller: sent data in
/// hex, the two ports, received data in hex and the action, comma separated.
pub open spec fn spec_execution_record(
    packet_data: Seq<u8>,
    from_port: u32,
    to_port: u32,
    response_data: Seq<u8>,
    action: u32,
) -> Seq<char> {
    spec_hex_lower(packet_data) + seq![','] + spec_decimal(from_port as nat) + seq![',']
        + spec_decimal(to_port as nat) + seq![','] + spec_hex_lower(response_data) + seq![',']
        + spec_decimal(action as nat)
}

/// Formats the execution log record of one exchange with the controller.
pub fn execution_record(
    packet_data: &[u8],
    from_port: u32,
    to_port: u32,
    response_data: &[u8],
    action: u32,
) -> (s: String)
    ensures
        s@ == spec_execution_record(packet_data@, from_port, to_port, response_data@, action),
{
    proof { reveal_strlit(","); }
    let mut s = hex_encode(packet_data);
    s.append(",");
    s.append(decimal(from_port as u64).as_str());
    s.append(",");
    s.append(decimal(to_port as u64).as_str());
    s.append(",");
    s.append(hex_encode(response_data).as_str());
    s.append(",");
    s.append(decimal(action as u64).as_str());
    s
}

/// A message that passed the frame check, between two nodes named by their
/// 16-bit ports, is never refused by the request check.
pub proof fn lemma_checked_message_is_sendable(buf: Seq<u8>, from_port: u16, to_port: u16)
    requires
        spec_check_message(buf) is Ok,
    ensures
        spec_packet_error(spec_check_message(buf)->Ok_0, from_port as u32, to_port as u32) is None,
{
    lemma_checked_message_is_framed(buf);
}

/// Data are refused only when empty, and a packet is refused only for empty
/// data or an unset port (`u32::MAX`).
pub proof fn lemma_packet_refusals(data: Seq<u8>, from_port: u32, to_port: u32)
    ensures
        spec_packet_error(data, from_port, to_port) == Some(PacketRequestError::EmptyData) <==> data.len() == 0,
        spec_packet_error(data, from_port, to_port) is None <==> (data.len() > 0 && from_port != 0xFFFF_FFFFu32
            && to_port != 0xFFFF_FFFFu32),
{
}

} // verus!
