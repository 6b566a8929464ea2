//! Verified core of an SSH bastion: the tunnel wire format, the rules by
//! which the server hands out forward ports and user ids, the tables of live
//! connections on both ends of the tunnel, and the text the client leaves for
//! its operator.

pub mod wire;
pub mod forward_port;
pub mod conn_table;
pub mod host_ports;
pub mod relay;
pub mod user_ids;
pub mod client_info;
pub mod config;
