use vstd::prelude::*;

pub mod buffer;
pub mod connect;
pub mod decoder;
pub mod encoder;
pub mod header;
pub mod laws;
pub mod packet;
pub mod publish;
pub mod subscribe;
pub mod utils;
pub mod wire;

pub use connect::{Connack, Connect, ConnectReturnCode, LastWill, Protocol};
pub use decoder::{decode, decode_slice};
pub use encoder::{encode, encode_to_vec, encode_within};
pub use packet::{Packet, PacketType};
pub use publish::Publish;
pub use subscribe::{Suback, Subscribe, SubscribeReturnCodes, SubscribeTopic, Unsubscribe};
pub use utils::{Error, Pid, QoS, QosPid, MAX_FIELD_LENGTH, MAX_REMAINING_LENGTH};

verus! {

} // verus!
