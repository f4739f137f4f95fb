//! Packets as read straight off the wire, each carried with its size and a
//! copy of the buffer it came from.

pub mod login;
pub mod packet;

use vstd::prelude::*;
use self::packet::{Disconnect, Login, NetworkSettings, PlayStatus, RequestNetworkSetting};
use crate::protocol::packets::packet_label;

verus! {

/// A packet read from `buffer`: its id, its content and the bytes it took.
#[derive(Debug)]
pub struct Packet {
    pub id: u64,
    pub kind: PacketTypes,
    pub size: u64,
    pub buffer: Vec<u8>,
}

/// A packet of one of the kinds this module knows.
#[derive(Debug)]
pub enum PacketTypes {
    Login(Login),
    PlayStatus(PlayStatus),
    Disconnect(Disconnect),
    RequestNetworkSetting(RequestNetworkSetting),
    NetworkSettings(NetworkSettings),
}

impl Packet {
    /// The label this packet is logged under. Any other id than 1, 2, 143
    /// and 193 panics.
    pub fn to_string(&self) -> (r: String)
        requires
            self.id == 1 || self.id == 2 || self.id == 143 || self.id == 193,
        ensures
            r@ == packet_label(self.id),
    {
        if self.id == 1 {
            "[C->S] LoginPacket".to_owned()
        } else if self.id == 2 {
            "[S -> C] PlayStatusPacket".to_owned()
        } else if self.id == 143 {
            "[S->C] NetworkSettingsPacket".to_owned()
        } else {
            "[C->S] RequestNetworkSettingPacket".to_owned()
        }
    }
}

} // verus!
