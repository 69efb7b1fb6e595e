pub mod handler;
pub mod packet;

pub use handler::ProtocolHandler;
pub use packet::{ControlType, PacketType, VpnPacket};
