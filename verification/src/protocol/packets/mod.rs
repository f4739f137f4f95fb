//! The packets this server reads and writes, and the envelope that carries
//! a packet's id.

pub mod login;
pub mod network_settings;
pub mod play_status;
pub mod request_network_settings;

use vstd::prelude::*;
use self::login::Login;
use self::network_settings::NetworkSettings;
use self::play_status::{PlayStatus, Status};
use self::request_network_settings::RequestNetworkSetting;

verus! {

/// A packet of one of the kinds this server knows.
#[derive(Debug)]
pub enum PacketTypes {
    Login(Login),
    PlayStatus(PlayStatus),
    RequestNetworkSetting(RequestNetworkSetting),
    NetworkSettings(NetworkSettings),
}

/// The content of a packet, as a value.
pub enum PacketKind {
    Login(i32, Seq<char>, Seq<char>),
    PlayStatus(Status),
    RequestNetworkSetting(i32),
    NetworkSettings(NetworkSettings),
}

impl View for PacketTypes {
    type V = PacketKind;

    open spec fn view(&self) -> PacketKind {
        match self {
            PacketTypes::Login(l) => PacketKind::Login(l.protocol_version, l.identity@, l.client@),
            PacketTypes::PlayStatus(p) => PacketKind::PlayStatus(p.status),
            PacketTypes::RequestNetworkSetting(r) => PacketKind::RequestNetworkSetting(
                r.client_protocol,
            ),
            PacketTypes::NetworkSettings(n) => PacketKind::NetworkSettings(*n),
        }
    }
}

/// The id each kind of packet goes by.
pub open spec fn packet_id(k: PacketKind) -> u64 {
    match k {
        PacketKind::Login(..) => 1,
        PacketKind::PlayStatus(..) => 2,
        PacketKind::NetworkSettings(..) => 143,
        PacketKind::RequestNetworkSetting(..) => 193,
    }
}

/// A packet with its id.
#[derive(Debug)]
pub struct Packet {
    pub id: u64,
    pub kind: PacketTypes,
}

impl View for Packet {
    type V = (u64, PacketKind);

    open spec fn view(&self) -> (u64, PacketKind) {
        (self.id, self.kind@)
    }
}

/// The label a packet is logged under, for each id that has one.
pub open spec fn packet_label(id: u64) -> Seq<char> {
    if id == 1 {
        "[C->S] LoginPacket"@
    } else if id == 2 {
        "[S -> C] PlayStatusPacket"@
    } else if id == 143 {
        "[S->C] NetworkSettingsPacket"@
    } else {
        "[C->S] RequestNetworkSettingPacket"@
    }
}

impl Packet {
    /// The label this packet is logged under. Any other id panics.
    pub fn to_string(&self) -> (r: String)
        requires
            self.id == 1 || self.id == 2 || self.id == 143 || self.id == 193,
        ensures
            r@ == packet_label(self.id),
    {
        if self.id == 1 {
            "[C->S] LoginPacket".to_owned()
        } else if self.id == 2 {
            "[S -> C] PlayStatusPacket".to_owned()
        } else if self.id == 143 {
            "[S->C] NetworkSettingsPacket".to_owned()
        } else {
            "[C->S] RequestNetworkSettingPacket".to_owned()
        }
    }
}

impl From<PacketTypes> for Packet {
    /// Wraps a packet with the id of its kind.
    fn from(value: PacketTypes) -> (r: Self) {
        let id: u64 = match value {
            PacketTypes::Login(_) => 1,
            PacketTypes::PlayStatus(_) => 2,
            PacketTypes::NetworkSettings(_) => 143,
            PacketTypes::RequestNetworkSetting(_) => 193,
        };
        Packet { id, kind: value }
    }
}

impl vstd::std_specs::convert::FromSpecImpl<PacketTypes> for Packet {
    open spec fn obeys_from_spec() -> bool {
        true
    }

    open spec fn from_spec(v: PacketTypes) -> Packet {
        Packet { id: packet_id(v@), kind: v }
    }
}

} // verus!
