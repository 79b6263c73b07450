pub mod fanout;
pub mod main_server;
pub mod relay;
pub mod text;
pub mod tracker;
pub mod udp_packet;
pub mod udp_server;

pub use main_server::{loop_pause, MainServer, MessageChannelManager, ServerMessage, TARGET_LOOP_DELTA_MICROS};
pub use relay::{factory_reset_command, wifi_command, CommandError};
pub use tracker::{QuatBits, Tracker, TrackerConfig, TrackerData, TrackerInfo, TrackerStatus, Vec3Bits};
pub use udp_packet::{UdpPacket, UdpPacketHandshake, UdpPacketTrackerData, UdpPacketTrackerStatus, UdpTrackerData};
pub use udp_server::{PacketAction, PeerAddr, UdpDevice, UdpServer};
